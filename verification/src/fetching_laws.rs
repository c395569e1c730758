//! What each step of the designated fetcher does.

use crate::attestation::recovered_signer;
use crate::bytes::keccak;
use crate::extern_proto::{attestation_digest, CommitMsgView};
use crate::externevm::AnswerView;
use crate::fetching::{signed_by, FetchActionView, FetchPhase, FetchView};
use crate::records::CommitView;
use crate::store_view::StoreView;
use crate::url::host_of;
use vstd::prelude::*;

verus! {

/// The first step stores the hash of the value and the salt as this node's commitment,
/// with the time, and sends the same commitment; the value and the salt stay hidden.
pub proof fn law_the_first_step_commits(
    fetch: FetchView,
    v: StoreView,
    now_ms: u64,
    window_ms: u64,
)
    requires
        fetch.phase == FetchPhase::Fetched,
    ensures
        fetch.action(window_ms) == Some(
            FetchActionView::SendCommit(
                CommitMsgView {
                    request_hash: fetch.reveal.request_hash,
                    commitment: keccak(fetch.reveal.value + fetch.reveal.salt),
                    validator: fetch.reveal.validator,
                },
            ),
        ),
        fetch.store_after(v, now_ms) == (StoreView {
            commits: v.commits.insert(
                (fetch.reveal.request_hash, fetch.reveal.validator),
                CommitView {
                    request_hash: fetch.reveal.request_hash,
                    validator: fetch.reveal.validator,
                    commitment: keccak(fetch.reveal.value + fetch.reveal.salt),
                    received_at_ms: now_ms,
                },
            ),
            ..v
        }),
        fetch.after_step().phase == FetchPhase::Committed,
{
}

/// The second step waits for the window and the third sends the reveal as it is; neither
/// changes the store.
pub proof fn law_the_middle_steps_leave_the_store(
    fetch: FetchView,
    v: StoreView,
    now_ms: u64,
    window_ms: u64,
)
    ensures
        fetch.phase == FetchPhase::Committed ==> fetch.action(window_ms) == Some(
            FetchActionView::Wait(window_ms),
        ) && fetch.after_step().phase == FetchPhase::Waited,
        fetch.phase == FetchPhase::Waited ==> fetch.action(window_ms) == Some(
            FetchActionView::SendReveal(fetch.reveal),
        ) && fetch.after_step().phase == FetchPhase::Revealed,
        fetch.phase == FetchPhase::Committed || fetch.phase == FetchPhase::Waited
            ==> fetch.store_after(v, now_ms) == v,
        fetch.after_step().call == fetch.call,
        fetch.after_step().reveal == fetch.reveal,
{
}

/// The last step answers with the revealed value for 12000 gas and keeps it for the
/// request in its block; behind it nothing is done any more.
pub proof fn law_the_last_step_answers(
    fetch: FetchView,
    v: StoreView,
    now_ms: u64,
    window_ms: u64,
)
    ensures
        fetch.phase == FetchPhase::Revealed ==> {
            &&& fetch.action(window_ms) == Some(
                FetchActionView::Finish(AnswerView::Return(12000, fetch.reveal.value)),
            )
            &&& fetch.store_after(v, now_ms) == (StoreView {
                block_cache: v.block_cache.insert(
                    (fetch.call.request_hash, fetch.call.block_number),
                    fetch.reveal.value,
                ),
                ..v
            })
            &&& fetch.after_step().phase == FetchPhase::Answered
        },
        fetch.phase == FetchPhase::Answered ==> fetch.action(window_ms) is None
            && fetch.store_after(v, now_ms) == v && fetch.after_step() == fetch,
{
}

/// A fetch is signed by an address exactly where that address is recovered from its
/// signature over the request's hash, the host of its URL, the certificate, the
/// response's hash and the time.
pub proof fn law_a_fetch_is_signed_for_its_host(fetch: FetchView, signer: Seq<u8>)
    ensures
        signed_by(fetch, signer) <==> recovered_signer(
            attestation_digest(
                fetch.call.request_hash,
                host_of(fetch.call.request.0),
                fetch.reveal.cert_der,
                fetch.reveal.response_hash,
                fetch.reveal.timestamp_secs,
            ),
            fetch.reveal.attestation_sig,
        ) == Some(signer),
{
}

} // verus!
