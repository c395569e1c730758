//! Which requests are refused, and what comes next for the others.

use crate::abi::request_in;
use crate::bytes::{be_value, keccak};
use crate::extern_proto::request_preimage;
use crate::externevm::{
    first_step, request_fault, step_for_request, AnswerView, CallView, RequestFields, StepView,
};
use crate::response_laws::lemma_word;
use crate::store_view::StoreView;
use crate::text::{has_prefix, lowercased};
use crate::text_laws::law_a_prefix_is_what_a_text_begins_with;
use crate::url::{host_of, is_private_host};
use vstd::prelude::*;

verus! {

/// Whether a request keeps the rules: its URL begins with `http://` or `https://`, its
/// method is `GET` or `POST`, its body has at most 4096 bytes and its response type is
/// at most 3.
pub open spec fn keeps_the_rules(q: RequestFields) -> bool {
    &&& has_prefix(q.0, "http://"@) || has_prefix(q.0, "https://"@)
    &&& q.1 == "GET"@ || q.1 == "POST"@
    &&& q.3.len() <= 4096
    &&& q.5 == 0 || q.5 == 1 || q.5 == 2 || q.5 == 3
}

/// A request within the rules whose URL names no private host is never refused, and
/// every other request is.
pub proof fn law_a_request_within_the_rules_is_not_refused(q: RequestFields, private: bool)
    ensures
        keeps_the_rules(q) && !private ==> request_fault(q, private) is None,
        !keeps_the_rules(q) || private ==> request_fault(q, private) is Some,
{
    reveal_strlit("http://");
    reveal_strlit("https://");
}

/// Headers and response path do not decide whether a request is refused, and no more
/// than the length of its body does.
pub proof fn law_headers_and_path_do_not_decide(
    q: RequestFields,
    headers: Seq<u8>,
    body: Seq<u8>,
    path: Seq<char>,
    private: bool,
)
    requires
        body.len() == q.3.len(),
    ensures
        request_fault((q.0, q.1, headers, body, path, q.5), private) == request_fault(q, private),
{
}

/// A refused request is told the first of the rules that it breaks.
pub proof fn law_a_refused_request_is_told_the_first_rule_it_breaks(
    q: RequestFields,
    rest: Seq<char>,
    private: bool,
)
    ensures
        q.0.len() == 0 ==> request_fault(q, private) == Some("API_CALL: url is empty"@),
        q.0.len() > 0 && !has_prefix(q.0, "http://"@) && !has_prefix(q.0, "https://"@)
            ==> request_fault(q, private) == Some(
            "API_CALL: url must start with http:// or https://"@,
        ),
        q.0 == "http://"@ + rest || q.0 == "https://"@ + rest ==> {
            &&& private ==> request_fault(q, private) == Some(
                "API_CALL: private/loopback URLs are blocked"@,
            )
            &&& !private && q.1 != "GET"@ && q.1 != "POST"@ ==> request_fault(q, private) == Some(
                "API_CALL: method must be GET or POST"@,
            )
            &&& !private && (q.1 == "GET"@ || q.1 == "POST"@) && q.3.len() > 4096 ==> request_fault(
                q,
                private,
            ) == Some("API_CALL: body exceeds max size"@)
            &&& !private && (q.1 == "GET"@ || q.1 == "POST"@) && q.3.len() <= 4096 && q.5 > 3
                ==> request_fault(q, private) == Some("API_CALL: responseType must be 0-3"@)
        },
{
    reveal_strlit("http://");
    reveal_strlit("https://");
    law_a_prefix_is_what_a_text_begins_with("http://"@ + rest, "http://"@, rest);
    law_a_prefix_is_what_a_text_begins_with("https://"@ + rest, "https://"@, rest);
}

/// With gas enough, a call for a request within the rules on a public host is neither
/// stopped nor out of gas: it is answered with a value or goes on.
pub proof fn law_a_call_within_the_rules_goes_on(
    v: StoreView,
    me: Seq<u8>,
    block_number: u64,
    data: Seq<u8>,
    q: RequestFields,
    gas: u64,
)
    requires
        data.len() > 0,
        request_in(data) == Some(q),
        keeps_the_rules(q),
        !is_private_host(host_of(lowercased(q.0))),
        gas >= 12000,
    ensures
        match first_step(v, me, block_number, data, gas) {
            StepView::Answered(AnswerView::Return(_, _)) => true,
            StepView::Answered(_) => false,
            _ => true,
        },
{
    law_a_request_within_the_rules_is_not_refused(q, false);
}

/// A call that brings no data gets the number 1234 for 100 gas.
pub proof fn law_an_empty_call_gets_a_fixed_number(
    v: StoreView,
    me: Seq<u8>,
    block_number: u64,
    data: Seq<u8>,
    gas: u64,
)
    requires
        data.len() == 0,
    ensures
        gas < 100 ==> first_step(v, me, block_number, data, gas) == StepView::Answered(
            AnswerView::OutOfGas,
        ),
        gas >= 100 ==> (first_step(v, me, block_number, data, gas) matches StepView::Answered(
            AnswerView::Return(gas_used, word),
        ) && gas_used == 100 && word.len() == 32 && be_value(word) == 1234),
{
    lemma_word(1234);
}

/// A call whose data is no request is stopped, and a call whose request is refused is
/// stopped with the reason, whatever gas it brings.
pub proof fn law_a_refused_call_is_stopped_with_the_reason(
    v: StoreView,
    me: Seq<u8>,
    block_number: u64,
    data: Seq<u8>,
    gas: u64,
)
    requires
        data.len() > 0,
    ensures
        request_in(data) is None ==> first_step(v, me, block_number, data, gas)
            == StepView::Answered(AnswerView::Halt("API_CALL: failed to decode ApiRequest"@)),
        request_in(data) matches Some(q) ==> (request_fault(
            q,
            is_private_host(host_of(lowercased(q.0))),
        ) matches Some(fault) ==> first_step(v, me, block_number, data, gas) == StepView::Answered(
            AnswerView::Halt(fault),
        )),
{
}

/// What a request on its way has to say: the request itself, the hash of what names it
/// and its block.
pub open spec fn call_for(q: RequestFields, block_number: u64) -> CallView {
    CallView {
        request: q,
        request_hash: keccak(request_preimage(q.0, q.1, q.4, q.5)),
        block_number,
    }
}

/// A value that is kept for a request in the block answers it, for 100 gas, whoever the
/// node is and however many validators there are.
pub proof fn law_a_kept_value_answers_its_request(
    v: StoreView,
    me: Seq<u8>,
    block_number: u64,
    q: RequestFields,
    gas: u64,
    value: Seq<u8>,
)
    requires
        keeps_the_rules(q),
        v.block_cache.dom().contains((call_for(q, block_number).request_hash, block_number)),
        v.block_cache[(call_for(q, block_number).request_hash, block_number)] == value,
    ensures
        step_for_request(v, me, block_number, q, false, gas) == (if gas < 100 {
            StepView::Answered(AnswerView::OutOfGas)
        } else {
            StepView::Answered(AnswerView::Return(100, value))
        }),
{
    law_a_request_within_the_rules_is_not_refused(q, false);
}

/// Without a kept value, a node that knows at most one validator fetches alone, for 3000
/// gas.
pub proof fn law_a_lone_node_fetches_what_is_not_kept(
    v: StoreView,
    me: Seq<u8>,
    block_number: u64,
    q: RequestFields,
    gas: u64,
)
    requires
        keeps_the_rules(q),
        !v.block_cache.dom().contains((call_for(q, block_number).request_hash, block_number)),
        v.validators.len() <= 1,
    ensures
        step_for_request(v, me, block_number, q, false, gas) == (if gas < 3000 {
            StepView::Answered(AnswerView::OutOfGas)
        } else {
            StepView::FetchAlone(call_for(q, block_number))
        }),
{
    law_a_request_within_the_rules_is_not_refused(q, false);
}

/// Without a kept value and among two validators or more, the validator at the place
/// that the first eight bytes of the request's hash give, as a number counted round the
/// registry, fetches and attests for 12000 gas, and every other node waits for it for
/// 1500.
pub proof fn law_the_hash_picks_who_fetches(
    v: StoreView,
    me: Seq<u8>,
    block_number: u64,
    q: RequestFields,
    gas: u64,
    place: int,
)
    requires
        keeps_the_rules(q),
        !v.block_cache.dom().contains((call_for(q, block_number).request_hash, block_number)),
        v.validators.len() >= 2,
        0 <= place < v.validators.len(),
        be_value(call_for(q, block_number).request_hash.take(8)) % v.validators.len() == place,
    ensures
        me == v.validators[place] ==> step_for_request(v, me, block_number, q, false, gas) == (
        if gas < 12000 {
            StepView::Answered(AnswerView::OutOfGas)
        } else {
            StepView::FetchAndAttest(call_for(q, block_number))
        }),
        me != v.validators[place] ==> step_for_request(v, me, block_number, q, false, gas) == (
        if gas < 1500 {
            StepView::Answered(AnswerView::OutOfGas)
        } else {
            StepView::AwaitReveal(call_for(q, block_number), v.validators[place])
        }),
{
    law_a_request_within_the_rules_is_not_refused(q, false);
}

} // verus!
