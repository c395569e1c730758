//! What the precompile promises over several calls and several nodes.

use crate::abi::request_in;
use crate::attestation::{is_fresh, recovered_signer};
use crate::bytes::keccak;
use crate::certificate::{certificate_fault, certificate_in};
use crate::extern_p2p::{after_commit, after_incoming, after_reveal};
use crate::extern_proto::{
    attestation_digest, law_commit_msg_round_trip, law_reveal_msg_round_trip, MSG_TYPE_COMMIT,
    MSG_TYPE_REVEAL,
};
use crate::externevm::{
    after_look, awaited_reveal, commit_of, first_step, hash_of_request, reveal_of, settled,
    step_for_accepted, with_answer, AnswerView, CallView, RequestFields, StepView, API_CALL_GAS,
    GAS_CACHE_HIT, GAS_FETCH, GAS_VERIFY, MAX_BODY_SIZE,
};
use crate::records::OutcomeView;
use crate::store_view::StoreView;
use crate::text::{has_prefix, lowercased};
use crate::url::{host_of, is_private_host};
use vstd::prelude::*;

verus! {

/// A call never costs more than the gas that it brings: an answer at once does not,
/// and work is begun only where its price is there.
pub proof fn law_a_call_costs_no_more_than_its_gas(
    v: StoreView,
    me: Seq<u8>,
    block_number: u64,
    data: Seq<u8>,
    gas: u64,
)
    ensures
        match first_step(v, me, block_number, data, gas) {
            StepView::Answered(AnswerView::Return(gas_used, _)) => gas_used <= gas,
            StepView::Answered(_) => true,
            StepView::FetchAlone(_) => API_CALL_GAS <= gas,
            StepView::FetchAndAttest(_) => GAS_FETCH <= gas,
            StepView::AwaitReveal(_, _) => GAS_VERIFY <= gas,
        },
{
}

/// The request of a call that is not answered at once.
pub open spec fn pending_request(step: StepView) -> Option<CallView> {
    match step {
        StepView::Answered(_) => None,
        StepView::FetchAlone(call) => Some(call),
        StepView::FetchAndAttest(call) => Some(call),
        StepView::AwaitReveal(call, _) => Some(call),
    }
}

/// Nothing is fetched or waited for that is against the rules: the URL is one of
/// `http` or `https` and names no private host, the method is `GET` or `POST`, the
/// body is not too long and the response type is known.
pub proof fn law_only_requests_within_the_rules_go_on(
    v: StoreView,
    me: Seq<u8>,
    block_number: u64,
    data: Seq<u8>,
    gas: u64,
)
    ensures
        pending_request(first_step(v, me, block_number, data, gas)) matches Some(call) ==> {
            let q = call.request;
            &&& request_in(data) == Some(q)
            &&& call.request_hash == hash_of_request(q)
            &&& call.block_number == block_number
            &&& has_prefix(q.0, "http://"@) || has_prefix(q.0, "https://"@)
            &&& !is_private_host(host_of(lowercased(q.0)))
            &&& q.1 == "GET"@ || q.1 == "POST"@
            &&& q.3.len() <= MAX_BODY_SIZE
            &&& q.5 <= 3
        },
{
}

/// Once a request is answered with a value, every call for it within the block is
/// answered with that value, for the price of the cache, at whatever place in the
/// registry the node stands.
pub proof fn law_a_second_call_in_the_block_comes_from_the_cache(
    v: StoreView,
    me: Seq<u8>,
    call: CallView,
    value: Seq<u8>,
    gas: u64,
)
    requires
        call.request_hash == hash_of_request(call.request),
    ensures
        step_for_accepted(
            with_answer(v, call, value),
            me,
            call.block_number,
            call.request,
            gas,
        ) == (if gas < GAS_CACHE_HIT {
            StepView::Answered(AnswerView::OutOfGas)
        } else {
            StepView::Answered(AnswerView::Return(GAS_CACHE_HIT, value))
        }),
{
}

/// Nodes with one registry agree on who fetches: where one of them fetches a
/// request for its peers, every other that goes on with it waits for that one.
pub proof fn law_one_node_fetches_and_the_others_wait_for_it(
    v: StoreView,
    w: StoreView,
    fetcher: Seq<u8>,
    other: Seq<u8>,
    block_number: u64,
    other_block: u64,
    q: RequestFields,
    gas: u64,
    other_gas: u64,
)
    requires
        v.validators == w.validators,
        fetcher != other,
        step_for_accepted(v, fetcher, block_number, q, gas) is FetchAndAttest,
    ensures
        match step_for_accepted(w, other, other_block, q, other_gas) {
            StepView::FetchAlone(_) => false,
            StepView::FetchAndAttest(_) => false,
            StepView::AwaitReveal(_, designated) => designated == fetcher,
            StepView::Answered(_) => true,
        },
{
}

/// A node without peers attests to nothing and waits for nothing.
pub proof fn law_a_node_without_peers_fetches_alone(
    v: StoreView,
    me: Seq<u8>,
    block_number: u64,
    data: Seq<u8>,
    gas: u64,
)
    requires
        v.validators.len() <= 1,
    ensures
        first_step(v, me, block_number, data, gas) is Answered || first_step(
            v,
            me,
            block_number,
            data,
            gas,
        ) is FetchAlone,
{
}

/// What an honest fetcher sends is believed by its peers: the bytes of its
/// commitment and then those of its reveal, handled by a peer in whatever state it
/// is, make the peer answer the call with the fetched value, where the signature is
/// that of the fetcher's address, the certificate vouches for the host of the
/// request and the time is fresh.
pub proof fn law_what_an_honest_fetcher_sends_is_believed(
    peer: StoreView,
    call: CallView,
    me: Seq<u8>,
    value: Seq<u8>,
    salt: Seq<u8>,
    body: Seq<u8>,
    cert_der: Seq<u8>,
    fetched_secs: u64,
    secret: Seq<u8>,
    commit_ms: u64,
    reveal_ms: u64,
    now_secs: u64,
    cert_now: (i128, bool),
    past_deadline: bool,
)
    requires
        ({
            let reveal = reveal_of(call, me, value, salt, body, cert_der, fetched_secs, secret);
            &&& reveal.valid()
            &&& commit_of(reveal).valid()
            &&& reveal.bytes().len() <= usize::MAX
            &&& commit_of(reveal).bytes().len() <= usize::MAX
            &&& recovered_signer(
                attestation_digest(
                    call.request_hash,
                    host_of(call.request.0),
                    cert_der,
                    keccak(body),
                    fetched_secs,
                ),
                reveal.attestation_sig,
            ) == Some(me)
        }),
        certificate_fault(cert_der, certificate_in(cert_der), cert_now, host_of(call.request.0))
            is None,
        is_fresh(fetched_secs, now_secs),
    ensures
        ({
            let reveal = reveal_of(call, me, value, salt, body, cert_der, fetched_secs, secret);
            let committed = after_incoming(
                peer,
                seq![MSG_TYPE_COMMIT] + commit_of(reveal).bytes(),
                commit_ms,
            );
            let revealed = after_incoming(
                committed,
                seq![MSG_TYPE_REVEAL] + reveal.bytes(),
                reveal_ms,
            );
            let outcome = awaited_reveal(revealed, call, me, now_secs, cert_now);
            &&& outcome == OutcomeView::Verified(value)
            &&& settled(outcome, past_deadline) == Some(AnswerView::Return(GAS_VERIFY, value))
            &&& after_look(revealed, call, outcome).block_cache.get(
                (call.request_hash, call.block_number),
            ) == Some(value)
        }),
{
    let reveal = reveal_of(call, me, value, salt, body, cert_der, fetched_secs, secret);
    let commit = commit_of(reveal);
    let none = Seq::<u8>::empty();
    assert((seq![MSG_TYPE_COMMIT] + commit.bytes()).skip(1) =~= commit.bytes() + none);
    assert(commit.bytes() + none =~= commit.bytes());
    law_commit_msg_round_trip(commit, none);
    assert((seq![MSG_TYPE_REVEAL] + reveal.bytes()).skip(1) =~= reveal.bytes() + none);
    assert(reveal.bytes() + none =~= reveal.bytes());
    law_reveal_msg_round_trip(reveal, none);
    let committed = after_incoming(peer, seq![MSG_TYPE_COMMIT] + commit.bytes(), commit_ms);
    assert(committed == after_commit(peer, commit, commit_ms));
    let revealed = after_incoming(committed, seq![MSG_TYPE_REVEAL] + reveal.bytes(), reveal_ms);
    assert(revealed == after_reveal(committed, reveal));
    assert(committed.matches_commit(call.request_hash, me, value, salt));
}

/// A call that waits is answered at the latest when its time is over.
pub proof fn law_waiting_ends_at_the_deadline(outcome: OutcomeView)
    ensures
        settled(outcome, true) is Some,
        settled(outcome, false) is None <==> outcome == OutcomeView::Pending,
{
}

} // verus!
