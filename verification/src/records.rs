//! What the protocol store keeps: requests, submissions, commitments, reveals and
//! results.

use crate::primitives::{bytes_to_vec, Address, B256};
use vstd::prelude::*;

verus! {

/// Where a request stands.
#[derive(Clone, Copy, Debug, PartialEq, Eq, Structural)]
pub enum RequestStatus {
    Pending,
    Finalized,
    TimedOut,
}

/// A request to an outside service that validators submit values for.
#[derive(Debug)]
pub struct PendingRequest {
    pub request_id: B256,
    pub block_created: u64,
    pub url: String,
    pub method: String,
    pub headers: Vec<u8>,
    pub body: Vec<u8>,
    pub response_path: String,
    pub response_type: u8,
    pub status: RequestStatus,
}

/// What a request says.
pub struct RequestView {
    pub request_id: Seq<u8>,
    pub block_created: u64,
    pub url: Seq<char>,
    pub method: Seq<char>,
    pub headers: Seq<u8>,
    pub body: Seq<u8>,
    pub response_path: Seq<char>,
    pub response_type: u8,
    pub status: RequestStatus,
}

impl View for PendingRequest {
    type V = RequestView;

    open spec fn view(&self) -> RequestView {
        RequestView {
            request_id: self.request_id@,
            block_created: self.block_created,
            url: self.url@,
            method: self.method@,
            headers: self.headers@,
            body: self.body@,
            response_path: self.response_path@,
            response_type: self.response_type,
            status: self.status,
        }
    }
}

impl Clone for PendingRequest {
    fn clone(&self) -> (r: PendingRequest)
        ensures
            r@ == self@,
    {
        PendingRequest {
            request_id: self.request_id,
            block_created: self.block_created,
            url: self.url.clone(),
            method: self.method.clone(),
            headers: bytes_to_vec(self.headers.as_slice()),
            body: bytes_to_vec(self.body.as_slice()),
            response_path: self.response_path.clone(),
            response_type: self.response_type,
            status: self.status,
        }
    }
}

/// The value that one validator submitted for a request.
#[derive(Debug)]
pub struct ValidatorSubmission {
    pub request_id: B256,
    pub validator: Address,
    pub value: Vec<u8>,
    pub block_submitted: u64,
}

/// What a submission says.
pub struct SubmissionView {
    pub request_id: Seq<u8>,
    pub validator: Seq<u8>,
    pub value: Seq<u8>,
    pub block_submitted: u64,
}

impl View for ValidatorSubmission {
    type V = SubmissionView;

    open spec fn view(&self) -> SubmissionView {
        SubmissionView {
            request_id: self.request_id@,
            validator: self.validator@,
            value: self.value@,
            block_submitted: self.block_submitted,
        }
    }
}

impl Clone for ValidatorSubmission {
    fn clone(&self) -> (r: ValidatorSubmission)
        ensures
            r@ == self@,
    {
        ValidatorSubmission {
            request_id: self.request_id,
            validator: self.validator,
            value: bytes_to_vec(self.value.as_slice()),
            block_submitted: self.block_submitted,
        }
    }
}

/// What a row of records says.
pub open spec fn views<T: View>(s: Seq<T>) -> Seq<T::V> {
    s.map_values(|t: T| t@)
}

/// The submissions for one request, in the order in which they came.
#[derive(Debug)]
pub struct Submissions(pub Vec<ValidatorSubmission>);

impl View for Submissions {
    type V = Seq<SubmissionView>;

    open spec fn view(&self) -> Seq<SubmissionView> {
        views(self.0@)
    }
}

/// The commitment of a fetcher to a value that it has not shown yet.
#[derive(Debug)]
pub struct ValidatorCommit {
    pub request_hash: B256,
    pub validator: Address,
    pub commitment: B256,
    pub received_at_ms: u64,
}

/// What a stored commitment says.
pub struct CommitView {
    pub request_hash: Seq<u8>,
    pub validator: Seq<u8>,
    pub commitment: Seq<u8>,
    pub received_at_ms: u64,
}

impl View for ValidatorCommit {
    type V = CommitView;

    open spec fn view(&self) -> CommitView {
        CommitView {
            request_hash: self.request_hash@,
            validator: self.validator@,
            commitment: self.commitment@,
            received_at_ms: self.received_at_ms,
        }
    }
}

impl Clone for ValidatorCommit {
    fn clone(&self) -> (r: ValidatorCommit)
        ensures
            r@ == self@,
    {
        ValidatorCommit {
            request_hash: self.request_hash,
            validator: self.validator,
            commitment: self.commitment,
            received_at_ms: self.received_at_ms,
        }
    }
}

/// The value that a fetcher showed, with the attestation of where it came from.
/// `verified` tells whether it matched the commitment that was there when the
/// reveal came.
#[derive(Debug)]
pub struct ValidatorReveal {
    pub request_hash: B256,
    pub validator: Address,
    pub value: Vec<u8>,
    pub salt: [u8; 32],
    pub verified: bool,
    pub cert_der: Vec<u8>,
    pub response_hash: B256,
    pub timestamp_secs: u64,
    pub attestation_sig: Vec<u8>,
}

/// What a stored reveal says.
pub struct RevealView {
    pub request_hash: Seq<u8>,
    pub validator: Seq<u8>,
    pub value: Seq<u8>,
    pub salt: Seq<u8>,
    pub verified: bool,
    pub cert_der: Seq<u8>,
    pub response_hash: Seq<u8>,
    pub timestamp_secs: u64,
    pub attestation_sig: Seq<u8>,
}

impl View for ValidatorReveal {
    type V = RevealView;

    open spec fn view(&self) -> RevealView {
        RevealView {
            request_hash: self.request_hash@,
            validator: self.validator@,
            value: self.value@,
            salt: self.salt@,
            verified: self.verified,
            cert_der: self.cert_der@,
            response_hash: self.response_hash@,
            timestamp_secs: self.timestamp_secs,
            attestation_sig: self.attestation_sig@,
        }
    }
}

impl Clone for ValidatorReveal {
    fn clone(&self) -> (r: ValidatorReveal)
        ensures
            r@ == self@,
    {
        ValidatorReveal {
            request_hash: self.request_hash,
            validator: self.validator,
            value: bytes_to_vec(self.value.as_slice()),
            salt: self.salt,
            verified: self.verified,
            cert_der: bytes_to_vec(self.cert_der.as_slice()),
            response_hash: self.response_hash,
            timestamp_secs: self.timestamp_secs,
            attestation_sig: bytes_to_vec(self.attestation_sig.as_slice()),
        }
    }
}

/// The value that the validators' submissions came to.
#[derive(Debug)]
pub struct FinalizedResult {
    pub request_id: B256,
    pub value: Vec<u8>,
    pub num_submissions: u32,
    pub finalized_at_block: u64,
}

/// What a result says.
pub struct FinalizedView {
    pub request_id: Seq<u8>,
    pub value: Seq<u8>,
    pub num_submissions: u32,
    pub finalized_at_block: u64,
}

impl View for FinalizedResult {
    type V = FinalizedView;

    open spec fn view(&self) -> FinalizedView {
        FinalizedView {
            request_id: self.request_id@,
            value: self.value@,
            num_submissions: self.num_submissions,
            finalized_at_block: self.finalized_at_block,
        }
    }
}

impl Clone for FinalizedResult {
    fn clone(&self) -> (r: FinalizedResult)
        ensures
            r@ == self@,
    {
        FinalizedResult {
            request_id: self.request_id,
            value: bytes_to_vec(self.value.as_slice()),
            num_submissions: self.num_submissions,
            finalized_at_block: self.finalized_at_block,
        }
    }
}

/// What became of the reveal that a node waits for.
#[derive(Debug)]
pub enum RevealOutcome {
    /// No reveal from the designated fetcher yet: keep waiting.
    Pending,
    /// The reveal matches its commitment and its attestation holds.
    Verified(Vec<u8>),
    /// A reveal arrived and failed verification: stop waiting.
    Rejected(String),
}

/// What an outcome says.
pub enum OutcomeView {
    Pending,
    Verified(Seq<u8>),
    Rejected(Seq<char>),
}

impl View for RevealOutcome {
    type V = OutcomeView;

    open spec fn view(&self) -> OutcomeView {
        match self {
            RevealOutcome::Pending => OutcomeView::Pending,
            RevealOutcome::Verified(value) => OutcomeView::Verified(value@),
            RevealOutcome::Rejected(reason) => OutcomeView::Rejected(reason@),
        }
    }
}

impl Clone for RevealOutcome {
    fn clone(&self) -> (r: RevealOutcome)
        ensures
            r@ == self@,
    {
        match self {
            RevealOutcome::Pending => RevealOutcome::Pending,
            RevealOutcome::Verified(value) => RevealOutcome::Verified(
                bytes_to_vec(value.as_slice()),
            ),
            RevealOutcome::Rejected(reason) => RevealOutcome::Rejected(reason.clone()),
        }
    }
}

} // verus!
