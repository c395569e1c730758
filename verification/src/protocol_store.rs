//! The protocol store: the registry of validators, the commitments and reveals of
//! fetchers, the values of the current block and the life of requests.

use crate::attestation::{attestation_fresh, recover_attestation_signer, ATTESTATION_MAX_SKEW_SECS};
use crate::bytes::{address_text, keccak, keccak256, leading_u64, to_be_bytes};
use crate::certificate::{current_moment, fault_text, validate_cert_at, Moment};
use crate::extern_proto::{compute_attestation_digest, compute_commitment};
use crate::primitives::{bytes_to_vec, Address, B256};
pub use crate::records::{
    FinalizedResult, PendingRequest, RequestStatus, RevealOutcome, ValidatorCommit,
    ValidatorReveal, ValidatorSubmission,
};
use crate::records::{views, FinalizedView, RequestView, RevealView, SubmissionView, Submissions};
pub use crate::store_view::SUBMISSION_WINDOW;
use crate::store_view::{judged_reveal, request_id_preimage, status_name, StoreView};
use crate::table::Table;
use vstd::prelude::*;

verus! {

/// How many of the validators, in percent, a result asks for.
pub const SUBMISSION_THRESHOLD_PERCENT: u64 = 51;

/// The gas that a request costs.
pub const API_REQUEST_GAS: u64 = 10_000;

/// The gas that reading a result costs.
pub const API_READ_GAS: u64 = 3_000;

/// The protocol store of a node.
#[derive(Debug)]
pub struct ProtocolStore {
    pending: Table<B256, PendingRequest>,
    submissions: Table<B256, Submissions>,
    finalized: Table<B256, FinalizedResult>,
    validators: Vec<Address>,
    commits: Table<(B256, Address), ValidatorCommit>,
    reveals: Table<(B256, Address), ValidatorReveal>,
    block_cache: Table<(B256, u64), Vec<u8>>,
    request_nonce: u64,
}

impl View for ProtocolStore {
    type V = StoreView;

    closed spec fn view(&self) -> StoreView {
        StoreView {
            pending: self.pending@,
            submissions: self.submissions@,
            finalized: self.finalized@,
            validators: views(self.validators@),
            commits: self.commits@,
            reveals: self.reveals@,
            block_cache: self.block_cache@,
            request_nonce: self.request_nonce,
        }
    }
}

impl ProtocolStore {
    /// Whether the tables of the store are sound.
    pub closed spec fn tables_wf(&self) -> bool {
        &&& self.pending.wf()
        &&& self.submissions.wf()
        &&& self.finalized.wf()
        &&& self.commits.wf()
        &&& self.reveals.wf()
        &&& self.block_cache.wf()
    }

    /// What holds of every store.
    pub open spec fn wf(&self) -> bool {
        self.tables_wf() && self@.valid()
    }

    /// A store with nothing in it.
    pub fn new() -> (r: ProtocolStore)
        ensures
            r.wf(),
            r@ == StoreView::empty(),
    {
        let r = ProtocolStore {
            pending: Table::new(),
            submissions: Table::new(),
            finalized: Table::new(),
            validators: Vec::new(),
            commits: Table::new(),
            reveals: Table::new(),
            block_cache: Table::new(),
            request_nonce: 0,
        };
        assert(r@ =~= StoreView::empty());
        r
    }

    /// Registers a validator, unless it is registered.
    pub fn register_validator(&mut self, addr: Address)
        requires
            old(self).wf(),
        ensures
            final(self).wf(),
            final(self)@ == old(self)@.with_validator(addr@),
    {
        if !self.is_validator(&addr) {
            self.validators.push(addr);
            assert(self@ =~= old(self)@.with_validator(addr@));
            proof {
                old(self)@.lemma_with_validator(addr@);
            }
        }
    }

    /// How many validators are registered.
    pub fn validator_count(&self) -> (r: usize)
        ensures
            r == self@.validators.len(),
    {
        self.validators.len()
    }

    /// Whether a validator is registered.
    pub fn is_validator(&self, addr: &Address) -> (r: bool)
        ensures
            r == self@.validators.contains(addr@),
    {
        let mut i: usize = 0;
        while i < self.validators.len()
            invariant
                i <= self.validators@.len(),
                forall|j: int| 0 <= j < i ==> #[trigger] self@.validators[j] != addr@,
            decreases self.validators@.len() - i,
        {
            if self.validators[i].same(addr) {
                assert(self@.validators[i as int] == addr@);
                return true;
            }
            i = i + 1;
        }
        false
    }

    /// The registered validators, in the order in which they came.
    pub fn get_validators(&self) -> (r: Vec<Address>)
        ensures
            views(r@) == self@.validators,
    {
        let mut r: Vec<Address> = Vec::new();
        let mut i: usize = 0;
        while i < self.validators.len()
            invariant
                i <= self.validators@.len(),
                r@ == self.validators@.take(i as int),
            decreases self.validators@.len() - i,
        {
            r.push(self.validators[i]);
            assert(r@ =~= self.validators@.take(i + 1));
            i = i + 1;
        }
        assert(r@ =~= self.validators@);
        r
    }

    /// The validator that has to fetch a request: the first eight bytes of the
    /// request's hash, as a number, modulo the number of validators. `None` where
    /// no validator is registered.
    pub fn designate_fetcher(&self, request_hash: B256) -> (r: Option<Address>)
        ensures
            match r {
                Some(a) => self@.fetcher(request_hash@) == Some(a@),
                None => self@.fetcher(request_hash@) is None,
            },
    {
        if self.validators.len() == 0 {
            return None;
        }
        let n: u64 = self.validators.len() as u64;
        let i: usize = (leading_u64(&request_hash) % n) as usize;
        assert(self@.validators[i as int] == self.validators@[i as int]@);
        Some(self.validators[i])
    }

    /// The value that was kept for a request within a block.
    pub fn check_cache(&self, request_hash: B256, block_number: u64) -> (r: Option<Vec<u8>>)
        requires
            self.wf(),
        ensures
            match r {
                Some(value) => self@.block_cache.get((request_hash@, block_number)) == Some(value@),
                None => self@.block_cache.get((request_hash@, block_number)) is None,
            },
    {
        match self.block_cache.get(&(request_hash, block_number)) {
            Some(value) => Some(bytes_to_vec(value.as_slice())),
            None => None,
        }
    }

    /// Keeps a value for a request within a block.
    pub fn populate_cache(&mut self, request_hash: B256, block_number: u64, value: Vec<u8>)
        requires
            old(self).wf(),
        ensures
            final(self).wf(),
            final(self)@ == old(self)@.with_cached(request_hash@, block_number, value@),
    {
        self.block_cache.insert((request_hash, block_number), value);
        assert(self@ =~= old(self)@.with_cached(request_hash@, block_number, value@));
        proof {
            lemma_valid_without_cache_and_nonce(old(self)@, self@);
        }
    }

    /// Forgets the values of the blocks before the one before the current one.
    pub fn evict_old_cache_entries(&mut self, current_block: u64)
        requires
            old(self).wf(),
        ensures
            final(self).wf(),
            final(self)@ == old(self)@.without_old_cache(current_block),
    {
        let ghost all = self.block_cache@;
        let mut i: usize = 0;
        while i < self.block_cache.len()
            invariant
                i <= self.block_cache.keys().len(),
                all == old(self)@.block_cache,
                self.tables_wf(),
                self@ == (StoreView { block_cache: self.block_cache@, ..old(self)@ }),
                forall|j: int|
                    0 <= j < i ==> (#[trigger] self.block_cache.keys()[j]).1 + 1 >= current_block,
                forall|k: (Seq<u8>, u64)| #[trigger]
                    self.block_cache@.dom().contains(k) ==> all.dom().contains(k)
                        && self.block_cache@[k] == all[k],
                forall|k: (Seq<u8>, u64)| #[trigger]
                    all.dom().contains(k) && k.1 + 1 >= current_block
                        ==> self.block_cache@.dom().contains(k),
            decreases self.block_cache.keys().len() - i,
        {
            let ghost keys = self.block_cache.keys();
            let ghost cache = self.block_cache@;
            let block: u64 = self.block_cache.at(i).0.1;
            if block >= current_block.saturating_sub(1) {
                i = i + 1;
            } else {
                self.block_cache.remove_at(i);
                assert(self@ =~= (StoreView { block_cache: self.block_cache@, ..old(self)@ }));
                assert forall|j: int| 0 <= j < i implies (
                #[trigger] self.block_cache.keys()[j]).1 + 1 >= current_block by {
                    assert(self.block_cache.keys()[j] == keys[j]);
                }
            }
        }
        proof {
            self.block_cache.lemma_keys();
            assert forall|k: (Seq<u8>, u64)| #[trigger]
                self.block_cache@.dom().contains(k) implies k.1 + 1 >= current_block by {
                assert(self.block_cache.keys().contains(k));
            }
            assert(self.block_cache@ =~= old(self)@.without_old_cache(current_block).block_cache);
            lemma_valid_without_cache_and_nonce(old(self)@, self@);
        }
    }

    /// Stores a commitment, in the place of an earlier one.
    pub fn store_commit(&mut self, commit: ValidatorCommit)
        requires
            old(self).wf(),
        ensures
            final(self).wf(),
            final(self)@ == old(self)@.with_commit(commit@),
    {
        let ghost c = commit@;
        self.commits.insert((commit.request_hash, commit.validator), commit);
        assert(self@ =~= old(self)@.with_commit(c));
        proof {
            old(self)@.lemma_with_commit(c);
        }
    }

    /// The commitment of a validator for a request.
    pub fn get_commitment(&self, request_hash: B256, validator: Address) -> (r: Option<B256>)
        requires
            self.wf(),
        ensures
            match r {
                Some(c) => self@.commitment(request_hash@, validator@) == Some(c@),
                None => self@.commitment(request_hash@, validator@) is None,
            },
    {
        match self.commits.get(&(request_hash, validator)) {
            Some(c) => Some(c.commitment),
            None => None,
        }
    }

    /// Stores a reveal, in the place of an earlier one, and tells whether it
    /// matches the commitment of its validator.
    pub fn store_reveal(
        &mut self,
        request_hash: B256,
        validator: Address,
        value: Vec<u8>,
        salt: [u8; 32],
        cert_der: Vec<u8>,
        response_hash: B256,
        timestamp_secs: u64,
        attestation_sig: Vec<u8>,
    ) -> (r: bool)
        requires
            old(self).wf(),
        ensures
            final(self).wf(),
            r == old(self)@.matches_commit(request_hash@, validator@, value@, salt@),
            final(self)@ == old(self)@.with_reveal(
                (RevealView {
                    request_hash: request_hash@,
                    validator: validator@,
                    value: value@,
                    salt: salt@,
                    verified: r,
                    cert_der: cert_der@,
                    response_hash: response_hash@,
                    timestamp_secs,
                    attestation_sig: attestation_sig@,
                }),
            ),
    {
        let actual = compute_commitment(value.as_slice(), &salt);
        let verified = match self.get_commitment(request_hash, validator) {
            Some(expected) => actual.same(&expected),
            None => false,
        };
        let reveal = ValidatorReveal {
            request_hash,
            validator,
            value,
            salt,
            verified,
            cert_der,
            response_hash,
            timestamp_secs,
            attestation_sig,
        };
        let ghost v = reveal@;
        self.reveals.insert((request_hash, validator), reveal);
        assert(self@ =~= old(self)@.with_reveal(v));
        proof {
            old(self)@.lemma_with_reveal(v);
        }
        verified
    }

    /// The value of a reveal that matched its commitment.
    pub fn get_verified_reveal(&self, request_hash: B256, validator: Address) -> (r: Option<Vec<u8>>)
        requires
            self.wf(),
        ensures
            match r {
                Some(value) => self@.verified_reveal(request_hash@, validator@) == Some(value@),
                None => self@.verified_reveal(request_hash@, validator@) is None,
            },
    {
        match self.reveals.get(&(request_hash, validator)) {
            Some(reveal) => if reveal.verified {
                Some(bytes_to_vec(reveal.value.as_slice()))
            } else {
                None
            },
            None => None,
        }
    }

    /// What to make of the reveal of a validator for a request to a domain: whether
    /// it matched its commitment, the validator signed its attestation, its
    /// certificate vouches for the domain at a moment and its time is fresh.
    pub fn check_reveal_at(
        &self,
        request_hash: B256,
        validator: Address,
        domain: &str,
        now_secs: u64,
        cert_now: Moment,
    ) -> (r: RevealOutcome)
        requires
            self.wf(),
            self@.has_verified_reveal(request_hash@, validator@) ==> now_secs
                + ATTESTATION_MAX_SKEW_SECS <= u64::MAX,
        ensures
            r@ == self@.reveal_outcome(request_hash@, validator@, domain@, now_secs, cert_now@),
    {
        match self.reveals.get(&(request_hash, validator)) {
            None => RevealOutcome::Pending,
            Some(reveal) => {
                let digest = compute_attestation_digest(
                    request_hash,
                    domain,
                    reveal.cert_der.as_slice(),
                    reveal.response_hash,
                    reveal.timestamp_secs,
                );
                let signer = recover_attestation_signer(digest, reveal.attestation_sig.as_slice());
                let cert = validate_cert_at(reveal.cert_der.as_slice(), domain, cert_now);
                judge_reveal(reveal, validator, signer, cert, now_secs)
            },
        }
    }

    /// What to make of the reveal of a validator for a request to a domain, with the
    /// certificate judged by this machine's clock. Which moment the clock gives is
    /// not stated.
    pub fn check_reveal(
        &self,
        request_hash: B256,
        validator: Address,
        domain: &str,
        now_secs: u64,
    ) -> (r: RevealOutcome)
        requires
            self.wf(),
            self@.has_verified_reveal(request_hash@, validator@) ==> now_secs
                + ATTESTATION_MAX_SKEW_SECS <= u64::MAX,
        ensures
            exists|cert_now: (i128, bool)|
                r@ == #[trigger] self@.reveal_outcome(
                    request_hash@,
                    validator@,
                    domain@,
                    now_secs,
                    cert_now,
                ),
    {
        self.check_reveal_at(request_hash, validator, domain, now_secs, current_moment())
    }

    /// Makes an identifier for a request. Each takes the next nonce.
    pub fn generate_request_id(&mut self, block_number: u64, tx_index: u64) -> (r: B256)
        requires
            old(self).wf(),
        ensures
            final(self).wf(),
            r@ == keccak(request_id_preimage(block_number, tx_index, old(self)@.request_nonce)),
            final(self)@ == old(self)@.with_nonce(
                (if old(self)@.request_nonce == u64::MAX {
                    0
                } else {
                    (old(self)@.request_nonce + 1) as u64
                }),
            ),
    {
        let nonce: u64 = self.request_nonce;
        self.request_nonce = if nonce == u64::MAX {
            0
        } else {
            nonce + 1
        };
        let mut data: Vec<u8> = Vec::new();
        data.append(&mut to_be_bytes(block_number));
        data.append(&mut to_be_bytes(tx_index));
        data.append(&mut to_be_bytes(nonce));
        assert(data@ =~= request_id_preimage(block_number, tx_index, nonce));
        proof {
            lemma_valid_without_cache_and_nonce(old(self)@, self@);
        }
        keccak256(data.as_slice())
    }

    /// Starts the nonces anew.
    pub fn reset_nonce(&mut self)
        requires
            old(self).wf(),
        ensures
            final(self).wf(),
            final(self)@ == old(self)@.with_nonce(0),
    {
        self.request_nonce = 0;
        proof {
            lemma_valid_without_cache_and_nonce(old(self)@, self@);
        }
    }

    /// Stores a request that takes submissions from now on, in the place of an
    /// earlier one of its identifier.
    pub fn create_request(
        &mut self,
        request_id: B256,
        block_number: u64,
        url: String,
        method: String,
        headers: Vec<u8>,
        body: Vec<u8>,
        response_path: String,
        response_type: u8,
    ) -> (r: B256)
        requires
            old(self).wf(),
        ensures
            final(self).wf(),
            r@ == request_id@,
            final(self)@ == old(self)@.with_request(
                (RequestView {
                    request_id: request_id@,
                    block_created: block_number,
                    url: url@,
                    method: method@,
                    headers: headers@,
                    body: body@,
                    response_path: response_path@,
                    response_type,
                    status: RequestStatus::Pending,
                }),
            ),
    {
        let request = PendingRequest {
            request_id,
            block_created: block_number,
            url,
            method,
            headers,
            body,
            response_path,
            response_type,
            status: RequestStatus::Pending,
        };
        let ghost q = request@;
        let none = Submissions(Vec::new());
        assert(none@ =~= seq![]);
        self.pending.insert(request_id, request);
        self.submissions.insert(request_id, none);
        assert(self@ =~= old(self)@.with_request(q));
        proof {
            old(self)@.lemma_with_request(q);
        }
        request_id
    }

    /// Takes a validator's value for a request, or tells why not.
    pub fn submit_value(
        &mut self,
        request_id: B256,
        validator: Address,
        value: Vec<u8>,
        block_number: u64,
    ) -> (r: Result<(), String>)
        requires
            old(self).wf(),
            old(self)@.window_fits(request_id@),
        ensures
            final(self).wf(),
            fault_text(r) == old(self)@.submission_fault(request_id@, validator@, block_number),
            final(self)@ == (if r is Ok {
                old(self)@.with_submission(
                    (SubmissionView {
                        request_id: request_id@,
                        validator: validator@,
                        value: value@,
                        block_submitted: block_number,
                    }),
                )
            } else {
                old(self)@
            }),
    {
        match self.pending.get(&request_id) {
            None => {
                return Err("Request not found".to_owned());
            },
            Some(request) => {
                if request.status != RequestStatus::Pending {
                    let mut text = "Request not pending, status: ".to_owned();
                    text.append(status_text(request.status));
                    return Err(text);
                }
                if block_number > request.block_created + SUBMISSION_WINDOW {
                    return Err("Submission window closed".to_owned());
                }
            },
        }
        if !self.is_validator(&validator) {
            return Err("Not a registered validator".to_owned());
        }
        if self.has_submission(&request_id, &validator) {
            return Err("Validator already submitted".to_owned());
        }
        let submission = ValidatorSubmission {
            request_id,
            validator,
            value,
            block_submitted: block_number,
        };
        let ghost s = submission@;
        let mut row = self.get_submissions(&request_id);
        let ghost before = views(row@);
        row.push(submission);
        assert(views(row@) =~= before.push(s));
        self.submissions.insert(request_id, Submissions(row));
        assert(self@ =~= old(self)@.with_submission(s));
        proof {
            old(self)@.lemma_with_submission(s);
        }
        Ok(())
    }

    fn has_submission(&self, request_id: &B256, validator: &Address) -> (r: bool)
        requires
            self.wf(),
            self@.pending.dom().contains(request_id@),
        ensures
            r == self@.has_submitted(request_id@, validator@),
    {
        let row = match self.submissions.get(request_id) {
            Some(row) => row,
            None => {
                return false;
            },
        };
        let ghost all = self@.submissions[request_id@];
        let mut i: usize = 0;
        while i < row.0.len()
            invariant
                i <= row.0@.len(),
                all == row@,
                all == self@.submissions[request_id@],
                forall|j: int| 0 <= j < i ==> (#[trigger] all[j]).validator != validator@,
            decreases row.0@.len() - i,
        {
            assert(all[i as int] == row.0@[i as int]@);
            if row.0[i].validator.same(validator) {
                assert(self@.submissions[request_id@][i as int].validator == validator@);
                return true;
            }
            i = i + 1;
        }
        false
    }

    /// The submissions for a request, in the order in which they came; none where
    /// the request is not there.
    pub fn get_submissions(&self, request_id: &B256) -> (r: Vec<ValidatorSubmission>)
        requires
            self.wf(),
        ensures
            views(r@) == match self@.submissions.get(request_id@) {
                Some(row) => row,
                None => seq![],
            },
    {
        let mut r: Vec<ValidatorSubmission> = Vec::new();
        match self.submissions.get(request_id) {
            Some(row) => {
                let mut i: usize = 0;
                while i < row.0.len()
                    invariant
                        i <= row.0@.len(),
                        views(r@) == views(row.0@).take(i as int),
                    decreases row.0@.len() - i,
                {
                    let ghost before = views(r@);
                    let submission = row.0[i].clone();
                    r.push(submission);
                    assert(views(r@) =~= before.push(views(row.0@)[i as int]));
                    assert(views(r@) =~= views(row.0@).take(i + 1));
                    i = i + 1;
                }
                assert(views(row.0@).take(i as int) =~= views(row.0@));
            },
            None => {
                assert(views(r@) =~= seq![]);
            },
        }
        r
    }

    /// The pending requests whose submission window is over, or those whose window
    /// is not.
    fn list_pending(&self, current_block: u64, over: bool) -> (r: Vec<PendingRequest>)
        requires
            self.wf(),
            self@.windows_fit(),
        ensures
            self@.lists(views(r@), with_window(current_block, over)),
    {
        let mut r: Vec<PendingRequest> = Vec::new();
        let ghost chosen = with_window(current_block, over);
        let mut i: usize = 0;
        while i < self.pending.len()
            invariant
                i <= self.pending.keys().len(),
                self.wf(),
                self@.windows_fit(),
                chosen == with_window(current_block, over),
                lists_from(self@, self.pending.keys().take(i as int), views(r@), chosen),
            decreases self.pending.keys().len() - i,
        {
            let ghost listed = views(r@);
            let request = self.pending.at(i).1;
            proof {
                self.pending.lemma_keys();
            }
            if request.status == RequestStatus::Pending && (current_block > request.block_created
                + SUBMISSION_WINDOW) == over {
                r.push(request.clone());
                assert(views(r@) =~= listed.push(request@));
            }
            proof {
                lemma_lists_step(
                    self@,
                    self.pending.keys(),
                    i as int,
                    listed,
                    views(r@),
                    chosen,
                );
            }
            i = i + 1;
        }
        proof {
            self.pending.lemma_keys();
            lemma_lists_all(self@, self.pending.keys(), views(r@), chosen);
        }
        r
    }

    /// The pending requests whose submission window is over, each once and in no
    /// particular order.
    pub fn get_requests_ready_to_finalize(&self, current_block: u64) -> (r: Vec<PendingRequest>)
        requires
            self.wf(),
            self@.windows_fit(),
        ensures
            self@.lists(views(r@), |q: RequestView| StoreView::is_ready(q, current_block)),
    {
        self.list_pending(current_block, true)
    }

    /// The pending requests whose submission window is not over, each once and in
    /// no particular order.
    pub fn get_pending_requests(&self, current_block: u64) -> (r: Vec<PendingRequest>)
        requires
            self.wf(),
            self@.windows_fit(),
        ensures
            self@.lists(views(r@), |q: RequestView| StoreView::is_open(q, current_block)),
    {
        self.list_pending(current_block, false)
    }

    /// Settles a request with a value, or tells that it is not there.
    pub fn finalize_request(
        &mut self,
        request_id: B256,
        value: Vec<u8>,
        num_submissions: u32,
        block_number: u64,
    ) -> (r: Result<(), String>)
        requires
            old(self).wf(),
        ensures
            final(self).wf(),
            r is Ok <==> old(self)@.pending.dom().contains(request_id@),
            r matches Err(e) ==> e@ == "Request not found"@ && final(self)@ == old(self)@,
            r is Ok ==> final(self)@ == old(self)@.with_result(
                (FinalizedView {
                    request_id: request_id@,
                    value: value@,
                    num_submissions,
                    finalized_at_block: block_number,
                }),
            ),
    {
        let mut request = match self.pending.get(&request_id) {
            Some(request) => request.clone(),
            None => {
                return Err("Request not found".to_owned());
            },
        };
        request.status = RequestStatus::Finalized;
        self.pending.insert(request_id, request);
        let result = FinalizedResult {
            request_id,
            value,
            num_submissions,
            finalized_at_block: block_number,
        };
        let ghost f = result@;
        self.finalized.insert(request_id, result);
        assert(self@ =~= old(self)@.with_result(f));
        proof {
            old(self)@.lemma_with_result(f);
        }
        Ok(())
    }

    /// Gives a request up, or tells that it is not there.
    pub fn timeout_request(&mut self, request_id: B256) -> (r: Result<(), String>)
        requires
            old(self).wf(),
        ensures
            final(self).wf(),
            r is Ok <==> old(self)@.pending.dom().contains(request_id@),
            r matches Err(e) ==> e@ == "Request not found"@ && final(self)@ == old(self)@,
            r is Ok ==> final(self)@ == old(self)@.with_status(
                request_id@,
                RequestStatus::TimedOut,
            ),
    {
        let mut request = match self.pending.get(&request_id) {
            Some(request) => request.clone(),
            None => {
                return Err("Request not found".to_owned());
            },
        };
        request.status = RequestStatus::TimedOut;
        self.pending.insert(request_id, request);
        assert(self@ =~= old(self)@.with_status(request_id@, RequestStatus::TimedOut));
        proof {
            old(self)@.lemma_with_status(request_id@, RequestStatus::TimedOut);
        }
        Ok(())
    }

    /// The result of a request.
    pub fn get_finalized_result(&self, request_id: &B256) -> (r: Option<FinalizedResult>)
        requires
            self.wf(),
        ensures
            match r {
                Some(f) => self@.finalized.get(request_id@) == Some(f@),
                None => self@.finalized.get(request_id@) is None,
            },
    {
        match self.finalized.get(request_id) {
            Some(f) => Some(f.clone()),
            None => None,
        }
    }

    /// Where a request stands.
    pub fn get_request_status(&self, request_id: &B256) -> (r: Option<RequestStatus>)
        requires
            self.wf(),
        ensures
            r == match self@.pending.get(request_id@) {
                Some(q) => Some(q.status),
                None => None,
            },
    {
        match self.pending.get(request_id) {
            Some(request) => Some(request.status),
            None => None,
        }
    }

    /// A request.
    pub fn get_request(&self, request_id: &B256) -> (r: Option<PendingRequest>)
        requires
            self.wf(),
        ensures
            match r {
                Some(q) => self@.pending.get(request_id@) == Some(q@),
                None => self@.pending.get(request_id@) is None,
            },
    {
        match self.pending.get(request_id) {
            Some(request) => Some(request.clone()),
            None => None,
        }
    }

    /// Forgets the settled requests whose age is above `max_age`, with their
    /// submissions and their results.
    pub fn cleanup(&mut self, current_block: u64, max_age: u64)
        requires
            old(self).wf(),
            old(self)@.ages_fit(max_age),
        ensures
            final(self).wf(),
            final(self)@ == old(self)@.after_cleanup(current_block, max_age),
    {
        let ghost all = self@;
        let mut i: usize = 0;
        while i < self.pending.len()
            invariant
                i <= self.pending.keys().len(),
                all == old(self)@,
                all.valid(),
                all.ages_fit(max_age),
                self.tables_wf(),
                self@ == (StoreView {
                    pending: self@.pending,
                    submissions: self@.submissions,
                    finalized: self@.finalized,
                    ..all
                }),
                forall|j: int|
                    0 <= j < i ==> !all.spends(
                        #[trigger] self.pending.keys()[j],
                        current_block,
                        max_age,
                    ),
                forall|id: Seq<u8>| #[trigger]
                    self@.pending.dom().contains(id) ==> all.pending.dom().contains(id)
                        && self@.pending[id] == all.pending[id],
                forall|id: Seq<u8>| #[trigger]
                    all.pending.dom().contains(id) && !self@.pending.dom().contains(id)
                        ==> all.spends(id, current_block, max_age),
                kept_with(all.submissions, self@.submissions, all.pending, self@.pending),
                kept_with(all.finalized, self@.finalized, all.pending, self@.pending),
            decreases self.pending.keys().len() - i,
        {
            let ghost keys = self.pending.keys();
            let (id, request) = self.pending.at(i);
            assert(all.pending.dom().contains(id@));
            if request.status != RequestStatus::Pending && current_block > request.block_created
                + max_age {
                let id = *id;
                self.pending.remove_at(i);
                self.submissions.remove(&id);
                self.finalized.remove(&id);
                assert forall|j: int| 0 <= j < i implies !all.spends(
                    #[trigger] self.pending.keys()[j],
                    current_block,
                    max_age,
                ) by {
                    assert(self.pending.keys()[j] == keys[j]);
                }
            } else {
                i = i + 1;
            }
        }
        proof {
            self.pending.lemma_keys();
            let then = all.after_cleanup(current_block, max_age);
            assert forall|id: Seq<u8>| #[trigger]
                self@.pending.dom().contains(id) <==> then.pending.dom().contains(id) by {
                if self@.pending.dom().contains(id) {
                    assert(self.pending.keys().contains(id));
                }
            }
            assert(self@.pending =~= then.pending);
            assert(self@.submissions =~= then.submissions);
            assert(self@.finalized =~= then.finalized);
            all.lemma_after_cleanup(current_block, max_age);
        }
    }
}

/// Whether a map has lost the keys that another has lost, and nothing else.
spec fn kept_with<V, W>(
    all: Map<Seq<u8>, V>,
    now: Map<Seq<u8>, V>,
    all_pending: Map<Seq<u8>, W>,
    pending: Map<Seq<u8>, W>,
) -> bool {
    forall|id: Seq<u8>|
        {
            &&& #[trigger] now.dom().contains(id) <==> all.dom().contains(id) && !(
            all_pending.dom().contains(id) && !pending.dom().contains(id))
            &&& now.dom().contains(id) ==> now[id] == all[id]
        }
}

/// The name of a status.
fn status_text(status: RequestStatus) -> (r: &'static str)
    ensures
        r@ == status_name(status),
{
    match status {
        RequestStatus::Pending => "Pending",
        RequestStatus::Finalized => "Finalized",
        RequestStatus::TimedOut => "TimedOut",
    }
}

/// Whether a request is pending and its submission window is over, or is not.
spec fn with_window(current_block: u64, over: bool) -> spec_fn(RequestView) -> bool {
    |q: RequestView|
        if over {
            StoreView::is_ready(q, current_block)
        } else {
            StoreView::is_open(q, current_block)
        }
}

/// Whether a row lists, each once, the chosen requests of some identifiers.
spec fn lists_from(
    v: StoreView,
    ids: Seq<Seq<u8>>,
    row: Seq<RequestView>,
    chosen: spec_fn(RequestView) -> bool,
) -> bool {
    &&& row.no_duplicates()
    &&& forall|q: RequestView| #[trigger]
        row.contains(q) <==> ids.contains(q.request_id) && v.holds(q) && chosen(q)
}

proof fn lemma_lists_step(
    v: StoreView,
    ids: Seq<Seq<u8>>,
    i: int,
    before: Seq<RequestView>,
    after: Seq<RequestView>,
    chosen: spec_fn(RequestView) -> bool,
)
    requires
        v.valid(),
        ids.no_duplicates(),
        0 <= i < ids.len(),
        v.pending.dom().contains(ids[i]),
        lists_from(v, ids.take(i), before, chosen),
        after == if chosen(v.pending[ids[i]]) {
            before.push(v.pending[ids[i]])
        } else {
            before
        },
    ensures
        lists_from(v, ids.take(i + 1), after, chosen),
{
    let next = v.pending[ids[i]];
    assert(next.request_id == ids[i]);
    if before.contains(next) {
        assert(ids.take(i).contains(ids[i]));
        let j = choose|j: int| 0 <= j < i && ids.take(i)[j] == ids[i];
        assert(ids[j] == ids[i]);
    }
    assert forall|q: RequestView| #[trigger]
        after.contains(q) <==> ids.take(i + 1).contains(q.request_id) && v.holds(q) && chosen(
            q,
        ) by {
        if after.contains(q) {
            let j = choose|j: int| 0 <= j < after.len() && after[j] == q;
            if j < before.len() {
                assert(before[j] == q);
                assert(before.contains(q));
                let taken = ids.take(i);
                let n = choose|n: int| 0 <= n < taken.len() && taken[n] == q.request_id;
                assert(ids.take(i + 1)[n] == q.request_id);
            } else {
                assert(ids.take(i + 1)[i] == q.request_id);
            }
        }
        if ids.take(i + 1).contains(q.request_id) && v.holds(q) && chosen(q) {
            let taken = ids.take(i + 1);
            let n = choose|n: int| 0 <= n < taken.len() && taken[n] == q.request_id;
            if n < i {
                assert(ids.take(i)[n] == q.request_id);
                assert(before.contains(q));
                let j = choose|j: int| 0 <= j < before.len() && before[j] == q;
                assert(after[j] == q);
            } else {
                assert(q == next);
                assert(after[before.len() as int] == q);
            }
        }
    }
}

proof fn lemma_lists_all(
    v: StoreView,
    ids: Seq<Seq<u8>>,
    row: Seq<RequestView>,
    chosen: spec_fn(RequestView) -> bool,
)
    requires
        lists_from(v, ids.take(ids.len() as int), row, chosen),
        forall|id: Seq<u8>| ids.contains(id) <==> #[trigger] v.pending.dom().contains(id),
    ensures
        v.lists(row, chosen),
{
    assert(ids.take(ids.len() as int) =~= ids);
}

/// What to make of a reveal, given who signed its attestation and what was found
/// of its certificate.
pub fn judge_reveal(
    reveal: &ValidatorReveal,
    validator: Address,
    signer: Option<Address>,
    cert: Result<(), String>,
    now_secs: u64,
) -> (r: RevealOutcome)
    requires
        reveal.verified ==> now_secs + ATTESTATION_MAX_SKEW_SECS <= u64::MAX,
    ensures
        r@ == judged_reveal(
            reveal@,
            validator@,
            match signer {
                Some(a) => Some(a@),
                None => None,
            },
            fault_text(cert),
            now_secs,
        ),
{
    if !reveal.verified {
        return RevealOutcome::Rejected("commitment mismatch".to_owned());
    }
    let a = match signer {
        Some(a) => a,
        None => {
            return RevealOutcome::Rejected("attestation signature recovery failed".to_owned());
        },
    };
    if !a.same(&validator) {
        let mut reason = "attestation signer ".to_owned();
        reason.append(address_text(&a).as_str());
        reason.append(" != designated fetcher ");
        reason.append(address_text(&validator).as_str());
        return RevealOutcome::Rejected(reason);
    }
    if let Err(fault) = cert {
        let mut reason = "cert validation failed: ".to_owned();
        reason.append(fault.as_str());
        return RevealOutcome::Rejected(reason);
    }
    if !attestation_fresh(reveal.timestamp_secs, now_secs) {
        return RevealOutcome::Rejected(
            "attestation timestamp outside freshness window".to_owned(),
        );
    }
    RevealOutcome::Verified(bytes_to_vec(reveal.value.as_slice()))
}

/// Neither the block's values nor the nonce bears on whether a store is valid.
proof fn lemma_valid_without_cache_and_nonce(before: StoreView, after: StoreView)
    requires
        before.valid(),
        after == (StoreView {
            block_cache: after.block_cache,
            request_nonce: after.request_nonce,
            ..before
        }),
    ensures
        after.valid(),
{
    assert forall|id: Seq<u8>| #[trigger]
        after.pending.dom().contains(id) implies after.valid_submissions(id) by {
        assert(before.pending.dom().contains(id));
        assert(before.valid_submissions(id));
    }
}

} // verus!
