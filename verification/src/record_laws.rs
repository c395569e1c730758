//! What records, messages and requests say: each of their fields as it is.

use crate::abi::ApiRequest;
use crate::certificate::{names, Certificate, Moment};
use crate::extern_proto::{ExternCommitMsg, ExternDataMsg, ExternRevealMsg};
use crate::externevm::{Answer, AnswerView, CallStep, PendingCall, StepView};
use crate::http::{header_views, HttpPlan};
use crate::records::{
    views, FinalizedResult, OutcomeView, PendingRequest, RevealOutcome, ValidatorCommit,
    ValidatorReveal, ValidatorSubmission,
};
use vstd::prelude::*;

verus! {

/// A stored request and a request of a contract say each of their fields.
pub proof fn law_requests_say_each_field(p: PendingRequest, q: ApiRequest, c: PendingCall)
    ensures
        p@.request_id == p.request_id@,
        p@.block_created == p.block_created,
        p@.url == p.url@,
        p@.method == p.method@,
        p@.headers == p.headers@,
        p@.body == p.body@,
        p@.response_path == p.response_path@,
        p@.response_type == p.response_type,
        p@.status == p.status,
        q@.0 == q.url@,
        q@.1 == q.method@,
        q@.2 == q.headers@,
        q@.3 == q.body@,
        q@.4 == q.response_path@,
        q@.5 == q.response_type,
        c@.request == c.request@,
        c@.request_hash == c.request_hash@,
        c@.block_number == c.block_number,
{
}

/// A submission, a commitment, a reveal and a result in the store say each of their
/// fields.
pub proof fn law_records_say_each_field(
    s: ValidatorSubmission,
    c: ValidatorCommit,
    r: ValidatorReveal,
    f: FinalizedResult,
)
    ensures
        s@.request_id == s.request_id@,
        s@.validator == s.validator@,
        s@.value == s.value@,
        s@.block_submitted == s.block_submitted,
        c@.request_hash == c.request_hash@,
        c@.validator == c.validator@,
        c@.commitment == c.commitment@,
        c@.received_at_ms == c.received_at_ms,
        r@.request_hash == r.request_hash@,
        r@.validator == r.validator@,
        r@.value == r.value@,
        r@.salt == r.salt@,
        r@.verified == r.verified,
        r@.cert_der == r.cert_der@,
        r@.response_hash == r.response_hash@,
        r@.timestamp_secs == r.timestamp_secs,
        r@.attestation_sig == r.attestation_sig@,
        f@.request_id == f.request_id@,
        f@.value == f.value@,
        f@.num_submissions == f.num_submissions,
        f@.finalized_at_block == f.finalized_at_block,
{
}

/// A message says each of its fields.
pub proof fn law_messages_say_each_field(
    d: ExternDataMsg,
    c: ExternCommitMsg,
    r: ExternRevealMsg,
)
    ensures
        d@.request_hash == d.request_hash@,
        d@.value == d.value@,
        d@.response_type == d.response_type,
        d@.validator == d.validator@,
        c@.request_hash == c.request_hash@,
        c@.commitment == c.commitment@,
        c@.validator == c.validator@,
        r@.request_hash == r.request_hash@,
        r@.value == r.value@,
        r@.salt == r.salt@,
        r@.validator == r.validator@,
        r@.cert_der == r.cert_der@,
        r@.response_hash == r.response_hash@,
        r@.timestamp_secs == r.timestamp_secs,
        r@.attestation_sig == r.attestation_sig@,
{
}

/// A row of records is read record by record, a row of headers header by header and a
/// row of names name by name.
pub proof fn law_rows_are_read_one_by_one<T: View>(
    s: Seq<T>,
    headers: Seq<(String, String)>,
    listed: Seq<Option<String>>,
    i: int,
)
    ensures
        views(s).len() == s.len(),
        0 <= i < s.len() ==> views(s)[i] == s[i]@,
        header_views(headers).len() == headers.len(),
        0 <= i < headers.len() ==> header_views(headers)[i] == (headers[i].0@, headers[i].1@),
        names(listed).len() == listed.len(),
        0 <= i < listed.len() ==> match listed[i] {
            Some(name) => names(listed)[i] == Some(name@),
            None => names(listed)[i] is None,
        },
{
}

/// A plan, a certificate, a moment, an outcome, an answer and a step say what they hold.
pub proof fn law_results_say_what_they_hold(
    plan: HttpPlan,
    cert: Certificate,
    moment: Moment,
    outcome: RevealOutcome,
    answer: Answer,
    step: CallStep,
)
    ensures
        plan@.post == plan.post,
        plan@.url == plan.url@,
        plan@.headers == header_views(plan.headers@),
        plan@.body is Some <==> plan.body is Some,
        plan.body matches Some(body) ==> plan@.body == Some(body@),
        moment@ == (moment.nanos, moment.generalized),
        cert@.0 == cert.not_before@,
        cert@.1 == cert.not_after@,
        cert@.2 is Some <==> cert.alternative is Some,
        cert.alternative matches Some(list) ==> cert@.2 == Some(names(list@)),
        cert@.3 == names(cert.common@),
        match outcome {
            RevealOutcome::Pending => outcome@ == OutcomeView::Pending,
            RevealOutcome::Verified(value) => outcome@ == OutcomeView::Verified(value@),
            RevealOutcome::Rejected(reason) => outcome@ == OutcomeView::Rejected(reason@),
        },
        match answer {
            Answer::Return { gas_used, output } => answer@ == AnswerView::Return(gas_used, output@),
            Answer::OutOfGas => answer@ == AnswerView::OutOfGas,
            Answer::Halt(reason) => answer@ == AnswerView::Halt(reason@),
        },
        match step {
            CallStep::Answered(a) => step@ == StepView::Answered(a@),
            CallStep::FetchAlone(call) => step@ == StepView::FetchAlone(call@),
            CallStep::FetchAndAttest(call) => step@ == StepView::FetchAndAttest(call@),
            CallStep::AwaitReveal(call, designated) => step@ == StepView::AwaitReveal(
                call@,
                designated@,
            ),
        },
{
}

} // verus!
