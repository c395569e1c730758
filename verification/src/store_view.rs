//! What a protocol store holds, what each operation makes of it, and what holds
//! of every store.

use crate::attestation::{is_fresh, recovered_signer};
use crate::bytes::{be_bytes, be_value, hex_text, keccak};
use crate::certificate::{certificate_fault, certificate_in};
use crate::extern_proto::{attestation_digest, commitment_preimage};
use crate::records::{
    CommitView, FinalizedView, OutcomeView, RequestStatus, RequestView, RevealView, SubmissionView,
};
use vstd::prelude::*;

verus! {

/// For how many blocks after its own a request takes submissions.
pub const SUBMISSION_WINDOW: u64 = 2;

/// What a store holds.
#[verifier::ext_equal]
pub struct StoreView {
    pub pending: Map<Seq<u8>, RequestView>,
    pub submissions: Map<Seq<u8>, Seq<SubmissionView>>,
    pub finalized: Map<Seq<u8>, FinalizedView>,
    pub validators: Seq<Seq<u8>>,
    pub commits: Map<(Seq<u8>, Seq<u8>), CommitView>,
    pub reveals: Map<(Seq<u8>, Seq<u8>), RevealView>,
    pub block_cache: Map<(Seq<u8>, u64), Seq<u8>>,
    pub request_nonce: u64,
}

/// What a status is called.
pub open spec fn status_name(status: RequestStatus) -> Seq<char> {
    match status {
        RequestStatus::Pending => "Pending"@,
        RequestStatus::Finalized => "Finalized"@,
        RequestStatus::TimedOut => "TimedOut"@,
    }
}

/// An address as text.
pub open spec fn address_name(a: Seq<u8>) -> Seq<char> {
    "0x"@ + hex_text(a)
}

/// What a request's identifier is the hash of.
pub open spec fn request_id_preimage(block_number: u64, tx_index: u64, nonce: u64) -> Seq<u8> {
    be_bytes(block_number) + be_bytes(tx_index) + be_bytes(nonce)
}

/// What to make of a reveal, given who signed its attestation and what is wrong
/// with its certificate.
pub open spec fn judged_reveal(
    reveal: RevealView,
    validator: Seq<u8>,
    signer: Option<Seq<u8>>,
    cert_fault: Option<Seq<char>>,
    now_secs: u64,
) -> OutcomeView {
    if !reveal.verified {
        OutcomeView::Rejected("commitment mismatch"@)
    } else {
        match signer {
            None => OutcomeView::Rejected("attestation signature recovery failed"@),
            Some(a) => if a != validator {
                OutcomeView::Rejected(
                    "attestation signer "@ + address_name(a) + " != designated fetcher "@
                        + address_name(validator),
                )
            } else {
                match cert_fault {
                    Some(fault) => OutcomeView::Rejected("cert validation failed: "@ + fault),
                    None => if !is_fresh(reveal.timestamp_secs, now_secs) {
                        OutcomeView::Rejected("attestation timestamp outside freshness window"@)
                    } else {
                        OutcomeView::Verified(reveal.value)
                    },
                }
            },
        }
    }
}

impl StoreView {
    /// A store with nothing in it.
    pub open spec fn empty() -> StoreView {
        StoreView {
            pending: Map::empty(),
            submissions: Map::empty(),
            finalized: Map::empty(),
            validators: seq![],
            commits: Map::empty(),
            reveals: Map::empty(),
            block_cache: Map::empty(),
            request_nonce: 0,
        }
    }

    /// Whether a row of submissions is one that a request can have: each is for
    /// the request, by a registered validator and in time, and no validator has
    /// two.
    pub open spec fn valid_submissions(self, id: Seq<u8>) -> bool {
        let row = self.submissions[id];
        &&& forall|i: int|
            0 <= i < row.len() ==> {
                &&& (#[trigger] row[i]).request_id == id
                &&& self.validators.contains(row[i].validator)
                &&& row[i].block_submitted <= self.pending[id].block_created + SUBMISSION_WINDOW
            }
        &&& forall|i: int, j: int|
            0 <= i < j < row.len() ==> (#[trigger] row[i]).validator != (
            #[trigger] row[j]).validator
    }

    /// What holds of every store.
    pub open spec fn valid(self) -> bool {
        &&& self.validators.no_duplicates()
        &&& self.pending.dom() == self.submissions.dom()
        &&& self.finalized.dom().subset_of(self.pending.dom())
        &&& forall|id: Seq<u8>| #[trigger]
            self.pending.dom().contains(id) ==> {
                &&& self.pending[id].request_id == id
                &&& self.pending[id].status == RequestStatus::Finalized
                    ==> self.finalized.dom().contains(id)
                &&& self.valid_submissions(id)
            }
        &&& forall|id: Seq<u8>| #[trigger]
            self.finalized.dom().contains(id) ==> self.finalized[id].request_id == id
        &&& forall|k: (Seq<u8>, Seq<u8>)| #[trigger]
            self.commits.dom().contains(k) ==> self.commits[k].request_hash == k.0
                && self.commits[k].validator == k.1
        &&& forall|k: (Seq<u8>, Seq<u8>)| #[trigger]
            self.reveals.dom().contains(k) ==> {
                &&& self.reveals[k].request_hash == k.0
                &&& self.reveals[k].validator == k.1
                &&& self.reveals[k].verified ==> self.commits.dom().contains(k)
            }
    }

    /// A validator joins the registry, at the end, unless it is there.
    pub open spec fn with_validator(self, a: Seq<u8>) -> StoreView {
        if self.validators.contains(a) {
            self
        } else {
            StoreView { validators: self.validators.push(a), ..self }
        }
    }

    /// A store stays valid when a validator joins.
    pub proof fn lemma_with_validator(self, a: Seq<u8>)
        requires
            self.valid(),
        ensures
            self.with_validator(a).valid(),
    {
        let after = self.with_validator(a);
        if !self.validators.contains(a) {
            assert forall|v: Seq<u8>| self.validators.contains(v) implies after.validators.contains(
                v,
            ) by {
                let i = choose|i: int| 0 <= i < self.validators.len() && self.validators[i] == v;
                assert(after.validators[i] == v);
            }
            assert forall|id: Seq<u8>| #[trigger]
                after.pending.dom().contains(id) implies after.valid_submissions(id) by {
                assert(self.valid_submissions(id));
            }
        }
    }

    /// The validator that has to fetch a request: its hash picks it.
    pub open spec fn fetcher(self, request_hash: Seq<u8>) -> Option<Seq<u8>> {
        if self.validators.len() == 0 {
            None
        } else {
            Some(
                self.validators[(be_value(request_hash.take(8)) % self.validators.len()) as int],
            )
        }
    }

    /// A value is kept for a request within a block.
    pub open spec fn with_cached(self, request_hash: Seq<u8>, block: u64, value: Seq<u8>) -> StoreView {
        StoreView { block_cache: self.block_cache.insert((request_hash, block), value), ..self }
    }

    /// The values of this block and of the one before it stay, and of later ones.
    pub open spec fn without_old_cache(self, current_block: u64) -> StoreView {
        StoreView {
            block_cache: self.block_cache.filter_keys(
                |k: (Seq<u8>, u64)| k.1 + 1 >= current_block,
            ),
            ..self
        }
    }

    /// A commitment is stored, in the place of an earlier one.
    pub open spec fn with_commit(self, c: CommitView) -> StoreView {
        StoreView { commits: self.commits.insert((c.request_hash, c.validator), c), ..self }
    }

    /// A store stays valid when a commitment is stored.
    pub proof fn lemma_with_commit(self, c: CommitView)
        requires
            self.valid(),
        ensures
            self.with_commit(c).valid(),
    {
        let after = self.with_commit(c);
        assert forall|id: Seq<u8>| #[trigger]
            after.pending.dom().contains(id) implies after.valid_submissions(id) by {
            assert(self.valid_submissions(id));
        }
    }

    /// The commitment of a validator for a request.
    pub open spec fn commitment(self, request_hash: Seq<u8>, validator: Seq<u8>) -> Option<Seq<u8>> {
        if self.commits.dom().contains((request_hash, validator)) {
            Some(self.commits[(request_hash, validator)].commitment)
        } else {
            None
        }
    }

    /// Whether a value under a salt is what a validator committed to.
    pub open spec fn matches_commit(
        self,
        request_hash: Seq<u8>,
        validator: Seq<u8>,
        value: Seq<u8>,
        salt: Seq<u8>,
    ) -> bool {
        self.commitment(request_hash, validator) == Some(keccak(commitment_preimage(value, salt)))
    }

    /// A reveal is stored, in the place of an earlier one.
    pub open spec fn with_reveal(self, r: RevealView) -> StoreView {
        StoreView { reveals: self.reveals.insert((r.request_hash, r.validator), r), ..self }
    }

    /// A store stays valid when a reveal is stored that is marked as matching only
    /// where a commitment is there.
    pub proof fn lemma_with_reveal(self, r: RevealView)
        requires
            self.valid(),
            r.verified ==> self.commits.dom().contains((r.request_hash, r.validator)),
        ensures
            self.with_reveal(r).valid(),
    {
        let after = self.with_reveal(r);
        assert forall|id: Seq<u8>| #[trigger]
            after.pending.dom().contains(id) implies after.valid_submissions(id) by {
            assert(self.valid_submissions(id));
        }
    }

    /// The value of a reveal that matched its commitment.
    pub open spec fn verified_reveal(
        self,
        request_hash: Seq<u8>,
        validator: Seq<u8>,
    ) -> Option<Seq<u8>> {
        let k = (request_hash, validator);
        if self.reveals.dom().contains(k) && self.reveals[k].verified {
            Some(self.reveals[k].value)
        } else {
            None
        }
    }

    /// Whether a reveal that matched its commitment is there.
    pub open spec fn has_verified_reveal(self, request_hash: Seq<u8>, validator: Seq<u8>) -> bool {
        self.verified_reveal(request_hash, validator) is Some
    }

    /// What to make of the reveal of a validator for a request, at a time in seconds
    /// for its attestation and at a moment for its certificate.
    pub open spec fn reveal_outcome(
        self,
        request_hash: Seq<u8>,
        validator: Seq<u8>,
        domain: Seq<char>,
        now_secs: u64,
        cert_now: (i128, bool),
    ) -> OutcomeView {
        let k = (request_hash, validator);
        if !self.reveals.dom().contains(k) {
            OutcomeView::Pending
        } else {
            let r = self.reveals[k];
            judged_reveal(
                r,
                validator,
                recovered_signer(
                    attestation_digest(
                        request_hash,
                        domain,
                        r.cert_der,
                        r.response_hash,
                        r.timestamp_secs,
                    ),
                    r.attestation_sig,
                ),
                certificate_fault(r.cert_der, certificate_in(r.cert_der), cert_now, domain),
                now_secs,
            )
        }
    }

    /// The next identifier is made with another nonce.
    pub open spec fn with_nonce(self, nonce: u64) -> StoreView {
        StoreView { request_nonce: nonce, ..self }
    }

    /// A request is stored with no submissions, in the place of an earlier one of
    /// its identifier.
    pub open spec fn with_request(self, q: RequestView) -> StoreView {
        StoreView {
            pending: self.pending.insert(q.request_id, q),
            submissions: self.submissions.insert(q.request_id, seq![]),
            ..self
        }
    }

    /// A store stays valid when a pending request is stored.
    pub proof fn lemma_with_request(self, q: RequestView)
        requires
            self.valid(),
            q.status == RequestStatus::Pending,
        ensures
            self.with_request(q).valid(),
    {
        let after = self.with_request(q);
        assert(after.pending.dom() =~= after.submissions.dom());
        assert forall|id: Seq<u8>| #[trigger]
            after.pending.dom().contains(id) implies after.valid_submissions(id) by {
            if id != q.request_id {
                assert(self.pending.dom().contains(id));
                assert(self.valid_submissions(id));
            }
        }
    }

    /// Whether a validator has submitted a value for a request.
    pub open spec fn has_submitted(self, id: Seq<u8>, validator: Seq<u8>) -> bool {
        exists|i: int|
            0 <= i < self.submissions[id].len() && (#[trigger] self.submissions[id][i]).validator
                == validator
    }

    /// Why a submission is refused, in the order in which it is asked: `None` where
    /// it is taken.
    pub open spec fn submission_fault(
        self,
        id: Seq<u8>,
        validator: Seq<u8>,
        block_number: u64,
    ) -> Option<Seq<char>> {
        if !self.pending.dom().contains(id) {
            Some("Request not found"@)
        } else if self.pending[id].status != RequestStatus::Pending {
            Some("Request not pending, status: "@ + status_name(self.pending[id].status))
        } else if block_number > self.pending[id].block_created + SUBMISSION_WINDOW {
            Some("Submission window closed"@)
        } else if !self.validators.contains(validator) {
            Some("Not a registered validator"@)
        } else if self.has_submitted(id, validator) {
            Some("Validator already submitted"@)
        } else {
            None
        }
    }

    /// A submission joins those for its request, at the end.
    pub open spec fn with_submission(self, s: SubmissionView) -> StoreView {
        StoreView {
            submissions: self.submissions.insert(
                s.request_id,
                self.submissions[s.request_id].push(s),
            ),
            ..self
        }
    }

    /// A store stays valid when it takes a submission that it does not refuse.
    pub proof fn lemma_with_submission(self, s: SubmissionView)
        requires
            self.valid(),
            self.submission_fault(s.request_id, s.validator, s.block_submitted) is None,
        ensures
            self.with_submission(s).valid(),
    {
        let after = self.with_submission(s);
        assert(after.pending.dom() =~= after.submissions.dom());
        assert forall|id: Seq<u8>| #[trigger]
            after.pending.dom().contains(id) implies after.valid_submissions(id) by {
            assert(self.valid_submissions(id));
            if id == s.request_id {
                let row = self.submissions[id];
                let longer = after.submissions[id];
                assert forall|i: int, j: int| 0 <= i < j < longer.len() implies (
                #[trigger] longer[i]).validator != (#[trigger] longer[j]).validator by {
                    assert(longer[i] == row[i]);
                    if j < row.len() {
                        assert(longer[j] == row[j]);
                    } else {
                        assert(self.submissions[id][i].validator != s.validator);
                    }
                }
                assert forall|i: int| 0 <= i < longer.len() implies {
                    &&& (#[trigger] longer[i]).request_id == id
                    &&& after.validators.contains(longer[i].validator)
                    &&& longer[i].block_submitted <= after.pending[id].block_created
                        + SUBMISSION_WINDOW
                } by {
                    if i < row.len() {
                        assert(longer[i] == row[i]);
                    }
                }
            }
        }
    }

    /// The end of a request's submission window fits in 64 bits.
    pub open spec fn window_fits(self, id: Seq<u8>) -> bool {
        self.pending.dom().contains(id) && self.pending[id].status == RequestStatus::Pending
            ==> self.pending[id].block_created + SUBMISSION_WINDOW <= u64::MAX
    }

    /// The ends of all submission windows fit in 64 bits.
    pub open spec fn windows_fit(self) -> bool {
        forall|id: Seq<u8>| #[trigger] self.pending.dom().contains(id) ==> self.window_fits(id)
    }

    /// Whether a request is pending and its submission window is over.
    pub open spec fn is_ready(q: RequestView, current_block: u64) -> bool {
        q.status == RequestStatus::Pending && current_block > q.block_created + SUBMISSION_WINDOW
    }

    /// Whether a request is pending and its submission window is not over.
    pub open spec fn is_open(q: RequestView, current_block: u64) -> bool {
        q.status == RequestStatus::Pending && current_block <= q.block_created + SUBMISSION_WINDOW
    }

    /// Whether the store holds a request.
    pub open spec fn holds(self, q: RequestView) -> bool {
        self.pending.dom().contains(q.request_id) && self.pending[q.request_id] == q
    }

    /// Whether a row lists, each once and in any order, the requests of the store
    /// that are chosen.
    pub open spec fn lists(self, row: Seq<RequestView>, chosen: spec_fn(RequestView) -> bool) -> bool {
        &&& row.no_duplicates()
        &&& forall|q: RequestView| #[trigger]
            row.contains(q) <==> self.holds(q) && chosen(q)
    }

    /// A request gets another status.
    pub open spec fn with_status(self, id: Seq<u8>, status: RequestStatus) -> StoreView {
        StoreView {
            pending: self.pending.insert(id, RequestView { status, ..self.pending[id] }),
            ..self
        }
    }

    /// A request is finalized, and its result is stored.
    pub open spec fn with_result(self, f: FinalizedView) -> StoreView {
        StoreView {
            finalized: self.finalized.insert(f.request_id, f),
            ..self.with_status(f.request_id, RequestStatus::Finalized)
        }
    }

    /// Whether a request is settled and its age is above a limit.
    pub open spec fn is_spent(q: RequestView, current_block: u64, max_age: u64) -> bool {
        q.status != RequestStatus::Pending && current_block > q.block_created + max_age
    }

    /// Whether the store holds a request of that identifier that is spent.
    pub open spec fn spends(self, id: Seq<u8>, current_block: u64, max_age: u64) -> bool {
        self.pending.dom().contains(id) && StoreView::is_spent(
            self.pending[id],
            current_block,
            max_age,
        )
    }

    /// The spent requests leave, with their submissions and their results.
    pub open spec fn after_cleanup(self, current_block: u64, max_age: u64) -> StoreView {
        let kept = |id: Seq<u8>| !self.spends(id, current_block, max_age);
        StoreView {
            pending: self.pending.filter_keys(kept),
            submissions: self.submissions.filter_keys(kept),
            finalized: self.finalized.filter_keys(kept),
            ..self
        }
    }

    /// The ages at which settled requests leave fit in 64 bits.
    pub open spec fn ages_fit(self, max_age: u64) -> bool {
        forall|id: Seq<u8>| #[trigger]
            self.pending.dom().contains(id) && self.pending[id].status != RequestStatus::Pending
                ==> self.pending[id].block_created + max_age <= u64::MAX
    }

    /// A store stays valid when a request times out or is pending again.
    pub proof fn lemma_with_status(self, id: Seq<u8>, status: RequestStatus)
        requires
            self.valid(),
            self.pending.dom().contains(id),
            status == RequestStatus::Finalized ==> self.finalized.dom().contains(id),
        ensures
            self.with_status(id, status).valid(),
    {
        let after = self.with_status(id, status);
        assert(after.pending.dom() =~= self.pending.dom());
        assert forall|k: Seq<u8>| #[trigger]
            after.pending.dom().contains(k) implies after.valid_submissions(k) by {
            assert(self.pending.dom().contains(k));
            assert(self.valid_submissions(k));
        }
    }

    /// A store stays valid when a request that it holds is finalized.
    pub proof fn lemma_with_result(self, f: FinalizedView)
        requires
            self.valid(),
            self.pending.dom().contains(f.request_id),
        ensures
            self.with_result(f).valid(),
    {
        let settled = StoreView { finalized: self.finalized.insert(f.request_id, f), ..self };
        assert forall|k: Seq<u8>| #[trigger]
            settled.pending.dom().contains(k) implies settled.valid_submissions(k) by {
            assert(self.pending.dom().contains(k));
            assert(self.valid_submissions(k));
        }
        assert(settled.valid());
        settled.lemma_with_status(f.request_id, RequestStatus::Finalized);
        assert(self.with_result(f) =~= settled.with_status(f.request_id, RequestStatus::Finalized));
    }

    /// A store stays valid when the spent requests leave.
    pub proof fn lemma_after_cleanup(self, current_block: u64, max_age: u64)
        requires
            self.valid(),
        ensures
            self.after_cleanup(current_block, max_age).valid(),
    {
        let after = self.after_cleanup(current_block, max_age);
        assert(after.pending.dom() =~= after.submissions.dom());
        assert forall|id: Seq<u8>| #[trigger]
            after.pending.dom().contains(id) implies after.valid_submissions(id) by {
            assert(self.pending.dom().contains(id));
            assert(self.valid_submissions(id));
        }
    }
}

} // verus!
