//! The submission protocol's decisions, as a state machine the surrounding
//! program drives: every message is signed and sent before any response is
//! required; each inbound inclusion answer is correlated with an in-flight
//! submission by commitment content (the answer's proof must verify against
//! the submission's leaf), never by arrival order; closing the stream early
//! completes the session with the unanswered submissions reported as
//! omitted, and a session with no answer at all is a distinct outcome.
use crate::auth::{address_of_key, eth_recover, eth_sign, sign_ok, signed_prehash};
use crate::auth::valid_secret_key;
use crate::auth::ClientMessage;
use crate::errors::SubmitError;
use crate::merkle::{copy_nodes, digests, leaf_digest, merkle_verifies};
use crate::merkle::{BatchInclusionData, MerkleProof};
use crate::types::{is_commitment_of, VerificationData, VerificationDataCommitment};
use vstd::prelude::*;

verus! {

/// Where a submission run stands. `Failed` is reachable from every state.
#[derive(Clone, Copy, Debug, PartialEq, Eq, Structural)]
pub enum SessionStatus {
    Connecting,
    Connected,
    Sending,
    AwaitingResponses,
    Completed,
    Failed,
}

/// What is persisted per accepted submission and replayed for the on-chain
/// check: the commitment joined with the received inclusion data.
#[derive(Clone, Debug)]
pub struct AlignedVerificationData {
    pub verification_data_commitment: VerificationDataCommitment,
    pub batch_merkle_root: [u8; 32],
    pub batch_inclusion_proof: MerkleProof,
    pub index_in_batch: usize,
}

/// An inclusion answer correlates with a submission exactly when its proof
/// verifies the submission's commitment leaf at the answered index under the
/// answered root.
pub open spec fn response_matches(
    c: VerificationDataCommitment,
    response: BatchInclusionData,
) -> bool {
    merkle_verifies(
        response.batch_merkle_root@,
        leaf_digest(c),
        response.index_in_batch as int,
        digests(response.batch_inclusion_proof.merkle_path@),
    )
}

/// How many submissions have their answer.
pub open spec fn matched_count(results: Seq<Option<BatchInclusionData>>) -> int
    decreases results.len(),
{
    if results.len() == 0 {
        0
    } else {
        matched_count(results.drop_last()) + if results.last() is Some {
            1int
        } else {
            0int
        }
    }
}

/// The answered positions, in submission order.
pub open spec fn responded_indices(results: Seq<Option<BatchInclusionData>>) -> Seq<int>
    decreases results.len(),
{
    if results.len() == 0 {
        Seq::empty()
    } else {
        responded_indices(results.drop_last()) + if results.last() is Some {
            seq![results.len() - 1]
        } else {
            Seq::empty()
        }
    }
}

/// The unanswered positions, in submission order.
pub open spec fn omitted_indices(results: Seq<Option<BatchInclusionData>>) -> Seq<int>
    decreases results.len(),
{
    if results.len() == 0 {
        Seq::empty()
    } else {
        omitted_indices(results.drop_last()) + if results.last() is Some {
            Seq::empty()
        } else {
            seq![results.len() - 1]
        }
    }
}

/// Counting and position bookkeeping: the answered and unanswered positions
/// partition the submissions, and each names a slot of its kind.
pub proof fn lemma_indices(results: Seq<Option<BatchInclusionData>>)
    ensures
        0 <= matched_count(results) <= results.len(),
        responded_indices(results).len() == matched_count(results),
        omitted_indices(results).len() == results.len() - matched_count(results),
        forall|k: int|
            0 <= k < responded_indices(results).len() ==> {
                &&& 0 <= #[trigger] responded_indices(results)[k] < results.len()
                &&& results[responded_indices(results)[k]] is Some
            },
        forall|k: int|
            0 <= k < omitted_indices(results).len() ==> {
                &&& 0 <= #[trigger] omitted_indices(results)[k] < results.len()
                &&& results[omitted_indices(results)[k]] is None
            },
    decreases results.len(),
{
    if results.len() > 0 {
        lemma_indices(results.drop_last());
    }
}

/// Answering a pending slot raises the matched count by one.
proof fn lemma_matched_count_update(
    results: Seq<Option<BatchInclusionData>>,
    i: int,
    v: BatchInclusionData,
)
    requires
        0 <= i < results.len(),
        results[i] is None,
    ensures
        matched_count(results.update(i, Some(v))) == matched_count(results) + 1,
    decreases results.len(),
{
    let updated = results.update(i, Some(v));
    if i == results.len() - 1 {
        assert(updated.drop_last() =~= results.drop_last());
    } else {
        assert(updated.drop_last() =~= results.drop_last().update(i, Some(v)));
        lemma_matched_count_update(results.drop_last(), i, v);
    }
}

/// A fresh pending slot leaves the matched count unchanged.
proof fn lemma_matched_count_push_none(results: Seq<Option<BatchInclusionData>>)
    ensures
        matched_count(results.push(None)) == matched_count(results),
{
    assert(results.push(None).drop_last() =~= results);
}

/// When everything is answered, the answered positions are simply all
/// positions, in order.
pub proof fn lemma_all_responded_identity(results: Seq<Option<BatchInclusionData>>)
    requires
        matched_count(results) == results.len(),
    ensures
        forall|k: int| 0 <= k < results.len() ==> #[trigger] responded_indices(results)[k] == k,
    decreases results.len(),
{
    if results.len() > 0 {
        lemma_indices(results.drop_last());
        if results.last() is None {
            assert(matched_count(results) == matched_count(results.drop_last()));
            assert(false);
        }
        assert(matched_count(results.drop_last()) == results.len() - 1);
        lemma_all_responded_identity(results.drop_last());
        lemma_indices(results);
        assert(responded_indices(results) == responded_indices(results.drop_last()) + seq![
            results.len() - 1,
        ]);
        assert forall|k: int|
            0 <= k < results.len() implies #[trigger] responded_indices(results)[k] == k by {
            if k < results.len() - 1 {
                assert(responded_indices(results)[k] == responded_indices(results.drop_last())[k]);
            }
        }
    }
}

/// `avd` is the persisted join of submission `i`'s commitment with the
/// answer received for it.
pub open spec fn avd_for(s: SubmitSession, i: int, avd: AlignedVerificationData) -> bool {
    &&& avd.verification_data_commitment == s.commitments@[i]
    &&& s.results@[i] matches Some(b) && {
        &&& avd.batch_merkle_root == b.batch_merkle_root
        &&& avd.batch_inclusion_proof.merkle_path@ == b.batch_inclusion_proof.merkle_path@
        &&& avd.index_in_batch == b.index_in_batch
    }
}

/// The completed session's verdict.
pub enum SubmitOutcome {
    /// Every submission was answered; one entry per submission, in order.
    AllIncluded(Vec<AlignedVerificationData>),
    /// Some submissions were answered (first field, in submission order) and
    /// the rest were not (second field: their positions). Not a hard
    /// failure: the caller decides what a partial batch is worth.
    PartiallyIncluded(Vec<AlignedVerificationData>, Vec<usize>),
    /// The stream closed before any answer arrived.
    NoResponses,
}

/// One submission run: the signed messages, their commitments, the answer
/// slot per submission, and how far sending and matching have come.
pub struct SubmitSession {
    pub messages: Vec<ClientMessage>,
    pub commitments: Vec<VerificationDataCommitment>,
    pub results: Vec<Option<BatchInclusionData>>,
    pub sent: usize,
    pub matched: usize,
    pub status: SessionStatus,
}

impl SubmitSession {
    /// Internal consistency: one commitment and one answer slot per message,
    /// each commitment is its message's, and the counters count.
    pub open spec fn well_formed(self) -> bool {
        &&& self.commitments@.len() == self.messages@.len()
        &&& self.results@.len() == self.messages@.len()
        &&& self.sent <= self.messages@.len()
        &&& self.matched == matched_count(self.results@)
        &&& forall|i: int|
            0 <= i < self.messages@.len() ==> is_commitment_of(
                #[trigger] self.commitments@[i],
                self.messages@[i].verification_data,
            )
    }

    /// Signs one client message per item, in order: success exactly when the
    /// key is valid and the deterministic signing goes through for every
    /// item. Nothing has been sent yet; the connection is still to be
    /// opened.
    #[verifier::loop_isolation(false)]
    pub fn new(items: Vec<VerificationData>, key: &[u8; 32]) -> (r: Result<
        SubmitSession,
        SubmitError,
    >)
        ensures
            r matches Ok(s) ==> {
                &&& s.well_formed()
                &&& s.status is Connecting
                &&& s.sent == 0
                &&& s.matched == 0
                &&& s.messages@.len() == items@.len()
                &&& forall|i: int|
                    0 <= i < items@.len() ==> (#[trigger] s.messages@[i]).verification_data
                        == items@[i]
                &&& forall|i: int|
                    0 <= i < items@.len() ==> (#[trigger] s.messages@[i]).signature@ == eth_sign(
                        key@,
                        signed_prehash(items@[i]),
                    )
                &&& forall|i: int|
                    0 <= i < items@.len() ==> eth_recover(
                        signed_prehash(items@[i]),
                        (#[trigger] s.messages@[i]).signature@,
                    ) == Some(address_of_key(key@))
                &&& forall|i: int| 0 <= i < items@.len() ==> (#[trigger] s.results@[i]) is None
            },
            r is Ok <==> (items@.len() == 0 || (valid_secret_key(key@) && forall|i: int|
                0 <= i < items@.len() ==> sign_ok(key@, signed_prehash(#[trigger] items@[i])))),
            r matches Err(e) ==> e is SignatureError,
    {
        let ghost all = items@;
        let mut items = items;
        let mut messages: Vec<ClientMessage> = Vec::new();
        let mut commitments: Vec<VerificationDataCommitment> = Vec::new();
        let mut results: Vec<Option<BatchInclusionData>> = Vec::new();
        while items.len() > 0
            invariant
                messages@.len() + items@.len() == all.len(),
                commitments@.len() == messages@.len(),
                results@.len() == messages@.len(),
                matched_count(results@) == 0,
                forall|j: int|
                    0 <= j < items@.len() ==> #[trigger] items@[j] == all[messages@.len() + j],
                forall|i: int|
                    0 <= i < messages@.len() ==> (#[trigger] messages@[i]).verification_data
                        == all[i],
                forall|i: int|
                    0 <= i < messages@.len() ==> (#[trigger] messages@[i]).signature@ == eth_sign(
                        key@,
                        signed_prehash(all[i]),
                    ),
                forall|i: int|
                    0 <= i < messages@.len() ==> eth_recover(
                        signed_prehash(all[i]),
                        (#[trigger] messages@[i]).signature@,
                    ) == Some(address_of_key(key@)),
                forall|i: int|
                    0 <= i < messages@.len() ==> is_commitment_of(
                        #[trigger] commitments@[i],
                        messages@[i].verification_data,
                    ),
                forall|i: int| 0 <= i < results@.len() ==> (#[trigger] results@[i]) is None,
                messages@.len() > 0 ==> valid_secret_key(key@),
                forall|i: int|
                    0 <= i < messages@.len() ==> sign_ok(key@, signed_prehash(#[trigger] all[i])),
            decreases items@.len(),
        {
            let item = items.remove(0);
            let ghost original_item = item;
            let commitment = VerificationDataCommitment::from_data(&item);
            let message = match ClientMessage::new(item, key) {
                Ok(m) => m,
                Err(e) => {
                    proof {
                        assert(original_item == all[messages@.len() as int]);
                        assert(!(valid_secret_key(key@) && sign_ok(
                            key@,
                            signed_prehash(original_item),
                        )));
                    }
                    return Err(e);
                },
            };
            proof {
                assert(original_item == all[messages@.len() as int]);
            }
            messages.push(message);
            commitments.push(commitment);
            proof {
                lemma_matched_count_push_none(results@);
            }
            results.push(None);
        }
        Ok(
            SubmitSession {
                messages,
                commitments,
                results,
                sent: 0,
                matched: 0,
                status: SessionStatus::Connecting,
            },
        )
    }

    /// The handshake succeeded.
    pub fn on_connected(&mut self)
        requires
            old(self).status is Connecting,
        ensures
            *final(self) == (SubmitSession { status: SessionStatus::Connected, ..*old(self) }),
    {
        self.status = SessionStatus::Connected;
    }

    /// The connection could not be established or dropped; the run is over.
    /// Retrying is the caller's policy, never this core's.
    pub fn on_connection_failed(&mut self)
        ensures
            *final(self) == (SubmitSession { status: SessionStatus::Failed, ..*old(self) }),
    {
        self.status = SessionStatus::Failed;
    }

    /// Which message goes on the wire next, if sending is in progress and
    /// any remains.
    pub fn next_to_send(&self) -> (r: Option<usize>)
        ensures
            r matches Some(i) ==> i == self.sent && (i as int) < self.messages@.len() && (
            self.status is Connected || self.status is Sending),
            r is None ==> !((self.status is Connected || self.status is Sending)
                && self.sent < self.messages@.len()),
    {
        match self.status {
            SessionStatus::Connected | SessionStatus::Sending => {
                if self.sent < self.messages.len() {
                    Some(self.sent)
                } else {
                    None
                }
            },
            _ => None,
        }
    }

    /// The message at a position, for serialization by the caller.
    pub fn message_at(&self, i: usize) -> (r: &ClientMessage)
        requires
            (i as int) < self.messages@.len(),
        ensures
            *r == self.messages@[i as int],
    {
        &self.messages[i]
    }

    /// One more message is on the wire. Once all are, responses are awaited:
    /// every item is sent before any response is required.
    pub fn mark_sent(&mut self)
        requires
            old(self).status is Connected || old(self).status is Sending,
            old(self).sent < old(self).messages@.len(),
        ensures
            final(self).sent == old(self).sent + 1,
            final(self).messages == old(self).messages,
            final(self).commitments == old(self).commitments,
            final(self).results == old(self).results,
            final(self).matched == old(self).matched,
            final(self).status == (if old(self).sent + 1 == old(self).messages@.len() {
                SessionStatus::AwaitingResponses
            } else {
                SessionStatus::Sending
            }),
    {
        let n = self.messages.len();
        self.sent = self.sent + 1;
        if self.sent == n {
            self.status = SessionStatus::AwaitingResponses;
        } else {
            self.status = SessionStatus::Sending;
        }
    }

    /// Correlates one inbound answer with the first still-unanswered
    /// submission whose commitment it proves included, and records it there.
    /// An answer that proves no pending submission is reported unmatched and
    /// changes nothing. Once every submission is answered the session is
    /// complete.
    pub fn on_response(&mut self, response: BatchInclusionData) -> (r: Option<usize>)
        requires
            old(self).well_formed(),
            old(self).status is AwaitingResponses,
        ensures
            final(self).well_formed(),
            final(self).messages == old(self).messages,
            final(self).commitments == old(self).commitments,
            final(self).sent == old(self).sent,
            r matches Some(i) ==> {
                &&& 0 <= i < old(self).results@.len()
                &&& old(self).results@[i as int] is None
                &&& response_matches(old(self).commitments@[i as int], response)
                &&& forall|j: int|
                    0 <= j < i ==> !((#[trigger] old(self).results@[j]) is None
                        && response_matches(old(self).commitments@[j], response))
                &&& final(self).results@ == old(self).results@.update(i as int, Some(response))
                &&& final(self).matched == old(self).matched + 1
            },
            r is None ==> {
                &&& forall|j: int|
                    0 <= j < old(self).results@.len() ==> !((#[trigger] old(self).results@[j])
                        is None && response_matches(old(self).commitments@[j], response))
                &&& *final(self) == *old(self)
            },
            final(self).status == (if matched_count(final(self).results@)
                == final(self).results@.len() && r is Some {
                SessionStatus::Completed
            } else {
                SessionStatus::AwaitingResponses
            }),
    {
        let n = self.results.len();
        let mut i: usize = 0;
        let mut found: Option<usize> = None;
        while i < n && found.is_none()
            invariant
                self.well_formed(),
                n == self.results@.len(),
                i <= n,
                found matches Some(f) ==> {
                    &&& (f as int) < n
                    &&& self.results@[f as int] is None
                    &&& response_matches(self.commitments@[f as int], response)
                    &&& forall|j: int|
                        0 <= j < f ==> !((#[trigger] self.results@[j]) is None
                            && response_matches(self.commitments@[j], response))
                },
                found is None ==> forall|j: int|
                    0 <= j < i ==> !((#[trigger] self.results@[j]) is None && response_matches(
                        self.commitments@[j],
                        response,
                    )),
            decreases n - i,
        {
            if self.results[i].is_none() {
                let verifies = response.batch_inclusion_proof.verify(
                    &response.batch_merkle_root,
                    response.index_in_batch,
                    &self.commitments[i],
                );
                if verifies {
                    found = Some(i);
                }
            }
            i = i + 1;
        }
        match found {
            Some(i) => {
                proof {
                    lemma_matched_count_update(self.results@, i as int, response);
                    lemma_indices(self.results@);
                    lemma_indices(self.results@.update(i as int, Some(response)));
                }
                self.results.set(i, Some(response));
                self.matched = self.matched + 1;
                if self.matched == self.messages.len() {
                    self.status = SessionStatus::Completed;
                }
                Some(i)
            },
            None => None,
        }
    }

    /// The inbound stream ended. Waiting ends with it: a session that was
    /// awaiting responses completes with whatever answers it has; a session
    /// that never got that far has failed.
    pub fn on_stream_closed(&mut self)
        ensures
            final(self).messages == old(self).messages,
            final(self).commitments == old(self).commitments,
            final(self).results == old(self).results,
            final(self).sent == old(self).sent,
            final(self).matched == old(self).matched,
            final(self).status == (match old(self).status {
                SessionStatus::AwaitingResponses => SessionStatus::Completed,
                SessionStatus::Completed => SessionStatus::Completed,
                _ => SessionStatus::Failed,
            }),
    {
        match self.status {
            SessionStatus::AwaitingResponses | SessionStatus::Completed => {
                self.status = SessionStatus::Completed;
            },
            _ => {
                self.status = SessionStatus::Failed;
            },
        }
    }

    /// Reads the completed session off: one record per answered submission,
    /// in submission order; the unanswered submissions are reported by
    /// position, never silently dropped; a run with no answer at all is a
    /// distinct outcome of its own.
    pub fn outcome(&self) -> (r: SubmitOutcome)
        requires
            self.well_formed(),
            self.status is Completed,
        ensures
            r is NoResponses <==> (self.matched == 0 && self.messages@.len() > 0),
            r matches SubmitOutcome::AllIncluded(included) ==> {
                &&& self.matched == self.messages@.len()
                &&& included@.len() == self.messages@.len()
                &&& forall|i: int|
                    0 <= i < included@.len() ==> avd_for(*self, i, #[trigger] included@[i])
            },
            r is AllIncluded <==> self.matched == self.messages@.len(),
            r matches SubmitOutcome::PartiallyIncluded(included, omitted) ==> {
                &&& 0 < self.matched < self.messages@.len()
                &&& included@.len() == self.matched
                &&& omitted@.len() == self.messages@.len() - self.matched
                &&& forall|k: int|
                    0 <= k < included@.len() ==> avd_for(
                        *self,
                        responded_indices(self.results@)[k],
                        #[trigger] included@[k],
                    )
                &&& forall|k: int|
                    0 <= k < omitted@.len() ==> (#[trigger] omitted@[k]) as int == omitted_indices(
                        self.results@,
                    )[k]
            },
    {
        proof {
            lemma_indices(self.results@);
        }
        let n = self.results.len();
        let mut included: Vec<AlignedVerificationData> = Vec::new();
        let mut omitted: Vec<usize> = Vec::new();
        let mut i: usize = 0;
        while i < n
            invariant
                self.well_formed(),
                n == self.results@.len(),
                i <= n,
                included@.len() == responded_indices(self.results@.take(i as int)).len(),
                omitted@.len() == omitted_indices(self.results@.take(i as int)).len(),
                forall|k: int|
                    0 <= k < included@.len() ==> avd_for(
                        *self,
                        responded_indices(self.results@.take(i as int))[k],
                        #[trigger] included@[k],
                    ),
                forall|k: int|
                    0 <= k < omitted@.len() ==> (#[trigger] omitted@[k]) as int == omitted_indices(
                        self.results@.take(i as int),
                    )[k],
            decreases n - i,
        {
            let ghost prefix = self.results@.take(i as int);
            let ghost prefix_next = self.results@.take(i as int + 1);
            proof {
                assert(prefix_next.drop_last() =~= prefix);
                assert(prefix_next.last() == self.results@[i as int]);
                lemma_take_indices(self.results@, i as int + 1);
            }
            match &self.results[i] {
                Some(b) => {
                    let avd = AlignedVerificationData {
                        verification_data_commitment: self.commitments[i],
                        batch_merkle_root: b.batch_merkle_root,
                        batch_inclusion_proof: MerkleProof {
                            merkle_path: copy_nodes(&b.batch_inclusion_proof.merkle_path),
                        },
                        index_in_batch: b.index_in_batch,
                    };
                    included.push(avd);
                },
                None => {
                    omitted.push(i);
                },
            }
            i = i + 1;
        }
        proof {
            assert(self.results@.take(n as int) =~= self.results@);
        }
        if self.matched == 0 && self.messages.len() > 0 {
            proof {
                assert(included@.len() == 0);
            }
            return SubmitOutcome::NoResponses;
        }
        if included.len() == self.messages.len() {
            proof {
                lemma_all_responded_identity(self.results@);
            }
            SubmitOutcome::AllIncluded(included)
        } else {
            SubmitOutcome::PartiallyIncluded(included, omitted)
        }
    }
}

/// Extending the inspected prefix by one slot extends each position list at
/// most by that slot and keeps the earlier entries.
proof fn lemma_take_indices(results: Seq<Option<BatchInclusionData>>, m: int)
    requires
        0 < m <= results.len(),
    ensures
        forall|k: int|
            0 <= k < responded_indices(results.take(m - 1)).len()
                ==> #[trigger] responded_indices(results.take(m))[k] == responded_indices(
                results.take(m - 1),
            )[k],
        forall|k: int|
            0 <= k < omitted_indices(results.take(m - 1)).len()
                ==> #[trigger] omitted_indices(results.take(m))[k] == omitted_indices(
                results.take(m - 1),
            )[k],
        responded_indices(results.take(m)).len() == responded_indices(results.take(m - 1)).len()
            + if results[m - 1] is Some {
            1int
        } else {
            0int
        },
        omitted_indices(results.take(m)).len() == omitted_indices(results.take(m - 1)).len()
            + if results[m - 1] is None {
            1int
        } else {
            0int
        },
        results[m - 1] is Some ==> responded_indices(results.take(m)).last() == m - 1,
        results[m - 1] is None ==> omitted_indices(results.take(m)).last() == m - 1,
{
    assert(results.take(m).drop_last() =~= results.take(m - 1));
    assert(results.take(m).last() == results[m - 1]);
    lemma_indices(results.take(m - 1));
}

} // verus!
