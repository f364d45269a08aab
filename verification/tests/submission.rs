use aligned_sdk::merkle::{BatchInclusionData, MerkleTree};
use aligned_sdk::protocol::{SessionStatus, SubmitOutcome, SubmitSession};
use aligned_sdk::types::{ProvingSystemId, VerificationData, VerificationDataCommitment};

const KEY: [u8; 32] = [2u8; 32];

fn item(tag: u8) -> VerificationData {
    VerificationData::new(
        ProvingSystemId::SP1,
        vec![tag, tag, tag],
        None,
        None,
        Some(vec![tag]),
        [tag; 20],
    )
    .unwrap()
}

/// Drives a fresh session through connection and sending of every message.
fn sent_session(items: Vec<VerificationData>) -> SubmitSession {
    let mut session = SubmitSession::new(items, &KEY).unwrap();
    assert_eq!(session.status, SessionStatus::Connecting);
    session.on_connected();
    assert_eq!(session.status, SessionStatus::Connected);
    while let Some(i) = session.next_to_send() {
        let _serialized = session.message_at(i).verification_data.proof.clone();
        session.mark_sent();
    }
    assert_eq!(session.status, SessionStatus::AwaitingResponses);
    session
}

/// What the batching service would answer for one leaf of the batch.
fn answer_for(batch: &[VerificationDataCommitment], index: usize) -> BatchInclusionData {
    let tree = MerkleTree::build(&batch.to_vec()).unwrap();
    BatchInclusionData::new(index, &tree)
}

fn batch_of(items: &[VerificationData]) -> Vec<VerificationDataCommitment> {
    items.iter().map(VerificationDataCommitment::from_data).collect()
}

#[test]
fn partial_failure_reports_exactly_the_omitted_submission() {
    let items = vec![item(1), item(2), item(3)];
    let batch = batch_of(&items);
    let mut session = sent_session(items);

    assert_eq!(session.on_response(answer_for(&batch, 0)), Some(0));
    assert_eq!(session.on_response(answer_for(&batch, 2)), Some(2));
    session.on_stream_closed();
    assert_eq!(session.status, SessionStatus::Completed);

    match session.outcome() {
        SubmitOutcome::PartiallyIncluded(included, omitted) => {
            assert_eq!(included.len(), 2);
            assert_eq!(omitted, vec![1]);
            assert_eq!(included[0].verification_data_commitment, batch[0]);
            assert_eq!(included[1].verification_data_commitment, batch[2]);
        }
        other => panic!("expected a partial outcome, got {:?}", outcome_name(&other)),
    }
}

#[test]
fn responses_are_correlated_by_content_not_by_order() {
    let items = vec![item(1), item(2), item(3)];
    let batch = batch_of(&items);
    let mut session = sent_session(items);

    // The answers arrive in reverse submission order.
    assert_eq!(session.on_response(answer_for(&batch, 2)), Some(2));
    assert_eq!(session.on_response(answer_for(&batch, 1)), Some(1));
    assert_eq!(session.on_response(answer_for(&batch, 0)), Some(0));
    assert_eq!(session.status, SessionStatus::Completed);

    match session.outcome() {
        SubmitOutcome::AllIncluded(included) => {
            assert_eq!(included.len(), 3);
            for (i, avd) in included.iter().enumerate() {
                assert_eq!(avd.verification_data_commitment, batch[i]);
            }
        }
        other => panic!("expected a complete outcome, got {:?}", outcome_name(&other)),
    }
}

#[test]
fn every_submission_answered_completes_the_session() {
    let items = vec![item(4), item(5)];
    let batch = batch_of(&items);
    let mut session = sent_session(items);

    assert_eq!(session.on_response(answer_for(&batch, 0)), Some(0));
    let avd_index = session.on_response(answer_for(&batch, 1));
    assert_eq!(avd_index, Some(1));
    assert_eq!(session.status, SessionStatus::Completed);
    match session.outcome() {
        SubmitOutcome::AllIncluded(included) => {
            assert_eq!(included[1].index_in_batch, 1);
            assert_eq!(
                included[0].batch_merkle_root,
                MerkleTree::build(&batch).unwrap().root
            );
        }
        other => panic!("expected a complete outcome, got {:?}", outcome_name(&other)),
    }
}

#[test]
fn zero_responses_is_its_own_outcome() {
    let items = vec![item(6)];
    let mut session = sent_session(items);
    session.on_stream_closed();
    match session.outcome() {
        SubmitOutcome::NoResponses => {}
        other => panic!("expected the no-responses outcome, got {:?}", outcome_name(&other)),
    }
}

#[test]
fn an_unrelated_answer_matches_nothing() {
    let items = vec![item(1), item(2)];
    let mut session = sent_session(items);
    let foreign = batch_of(&[item(8), item(9)]);
    assert_eq!(session.on_response(answer_for(&foreign, 0)), None);
    assert_eq!(session.status, SessionStatus::AwaitingResponses);
}

#[test]
fn a_duplicate_answer_matches_nothing_new() {
    let items = vec![item(1), item(2)];
    let batch = batch_of(&items);
    let mut session = sent_session(items);
    assert_eq!(session.on_response(answer_for(&batch, 0)), Some(0));
    assert_eq!(session.on_response(answer_for(&batch, 0)), None);
}

#[test]
fn a_failed_connection_fails_the_session() {
    let mut session = SubmitSession::new(vec![item(1)], &KEY).unwrap();
    session.on_connection_failed();
    assert_eq!(session.status, SessionStatus::Failed);
}

fn outcome_name(outcome: &SubmitOutcome) -> &'static str {
    match outcome {
        SubmitOutcome::AllIncluded(_) => "AllIncluded",
        SubmitOutcome::PartiallyIncluded(_, _) => "PartiallyIncluded",
        SubmitOutcome::NoResponses => "NoResponses",
    }
}
