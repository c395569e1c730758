//! What goes out with a request, and when a reply is taken.

use crate::http::{
    planned_call, reply_fault, text_members, tells_success, HttpReply, PlanView,
};
use crate::json::Json;
use crate::text::decimal_text;
use vstd::prelude::*;

verus! {

/// A call is planned exactly for the methods `GET` and `POST` and for headers that are
/// a JSON object or none at all; otherwise it is said which of these fails.
pub proof fn law_a_call_is_planned_for_get_and_post_with_an_object_of_headers(
    url: Seq<char>,
    method: Seq<char>,
    body: Seq<u8>,
    parsed: Option<Result<Json, Seq<char>>>,
)
    ensures
        planned_call(url, method, body, parsed) is Ok <==> (method == "GET"@ || method == "POST"@)
            && (parsed is None || parsed matches Some(Ok(Json::Object(_)))),
        method != "GET"@ && method != "POST"@ ==> planned_call(url, method, body, parsed) == Err::<
            PlanView,
            Seq<char>,
        >("unsupported method: "@ + method),
        method == "GET"@ || method == "POST"@ ==> match parsed {
            Some(Err(e)) => planned_call(url, method, body, parsed) == Err::<PlanView, Seq<char>>(
                "failed to parse headers JSON: "@ + e,
            ),
            Some(Ok(Json::Object(_))) => true,
            Some(Ok(_)) => planned_call(url, method, body, parsed) == Err::<PlanView, Seq<char>>(
                "headers must be a JSON object"@,
            ),
            None => true,
        },
{
}

/// A planned call goes to the URL of the request with its method; it has a body exactly
/// where the method is `POST` and the request's body is not empty, and then that body.
pub proof fn law_a_planned_call_is_what_was_asked_for(
    url: Seq<char>,
    method: Seq<char>,
    body: Seq<u8>,
    parsed: Option<Result<Json, Seq<char>>>,
    plan: PlanView,
)
    requires
        planned_call(url, method, body, parsed) == Ok::<PlanView, Seq<char>>(plan),
    ensures
        plan.url == url,
        plan.post <==> method == "POST"@,
        !plan.post <==> method == "GET"@,
        plan.body is Some <==> method == "POST"@ && body.len() > 0,
        plan.body is Some ==> plan.body == Some(body),
{
    reveal_strlit("GET");
    reveal_strlit("POST");
}

/// The headers of a plan do not depend on the URL, the method or the body.
pub proof fn law_headers_do_not_depend_on_the_method(
    url: Seq<char>,
    method: Seq<char>,
    body: Seq<u8>,
    other_url: Seq<char>,
    other_method: Seq<char>,
    other_body: Seq<u8>,
    parsed: Option<Result<Json, Seq<char>>>,
    plan: PlanView,
    other: PlanView,
)
    requires
        planned_call(url, method, body, parsed) == Ok::<PlanView, Seq<char>>(plan),
        planned_call(other_url, other_method, other_body, parsed) == Ok::<PlanView, Seq<char>>(
            other,
        ),
    ensures
        plan.headers == other.headers,
{
}

/// Whether a pair is the name and the text of a member.
spec fn is_text_member(members: Seq<(String, Json)>, pair: (Seq<char>, Seq<char>)) -> bool {
    exists|i: int|
        0 <= i < members.len() && (#[trigger] members[i]).1 is Text && pair == (
            members[i].0@,
            members[i].1->Text_0@,
        )
}

proof fn lemma_text_members(members: Seq<(String, Json)>)
    ensures
        forall|pair: (Seq<char>, Seq<char>)|
            text_members(members).contains(pair) <==> #[trigger] is_text_member(members, pair),
    decreases members.len(),
{
    let sent = text_members(members);
    if members.len() > 0 {
        let head = members.drop_last();
        let before = text_members(head);
        lemma_text_members(head);
        assert forall|pair: (Seq<char>, Seq<char>)|
            sent.contains(pair) <==> #[trigger] is_text_member(members, pair) by {
            if is_text_member(members, pair) {
                let i = choose|i: int|
                    0 <= i < members.len() && (#[trigger] members[i]).1 is Text && pair == (
                        members[i].0@,
                        members[i].1->Text_0@,
                    );
                if i < head.len() {
                    assert(head[i] == members[i]);
                    assert(is_text_member(head, pair));
                    let k = choose|k: int| 0 <= k < before.len() && before[k] == pair;
                    assert(sent[k] == pair);
                } else {
                    assert(sent[sent.len() - 1] == pair);
                }
            }
            if sent.contains(pair) {
                let k = choose|k: int| 0 <= k < sent.len() && sent[k] == pair;
                if k < before.len() {
                    assert(before[k] == pair);
                    assert(is_text_member(head, pair));
                    let i = choose|i: int|
                        0 <= i < head.len() && (#[trigger] head[i]).1 is Text && pair == (
                            head[i].0@,
                            head[i].1->Text_0@,
                        );
                    assert(members[i] == head[i]);
                } else {
                    assert(members[members.len() - 1].1 is Text);
                }
            }
        }
    }
}

/// Every member of the headers object that is a text is sent as a header, whatever the
/// method.
pub proof fn law_every_text_header_is_sent(
    url: Seq<char>,
    method: Seq<char>,
    body: Seq<u8>,
    members: Vec<(String, Json)>,
    i: int,
    value: String,
)
    requires
        method == "GET"@ || method == "POST"@,
        0 <= i < members@.len(),
        members@[i].1 == Json::Text(value),
    ensures
        planned_call(url, method, body, Some(Ok(Json::Object(members)))) matches Ok(plan)
            && plan.headers.contains((members@[i].0@, value@)),
{
    lemma_text_members(members@);
    let sent = text_members(members@);
    let pair = (members@[i].0@, value@);
    assert(is_text_member(members@, pair));
    let k = choose|k: int| 0 <= k < sent.len() && sent[k] == pair;
    let plan = planned_call(url, method, body, Some(Ok(Json::Object(members))))->Ok_0;
    assert(plan.headers[k + 1] == pair);
}

/// The first header names this software, and each of the others is a member of the
/// headers object that is a text; a request without headers sends no other.
pub proof fn law_no_other_header_is_sent(
    url: Seq<char>,
    method: Seq<char>,
    body: Seq<u8>,
    parsed: Option<Result<Json, Seq<char>>>,
    plan: PlanView,
    k: int,
)
    requires
        planned_call(url, method, body, parsed) == Ok::<PlanView, Seq<char>>(plan),
        0 < k < plan.headers.len(),
    ensures
        plan.headers[0] == ("User-Agent"@, "ExternEVM/0.8.0"@),
        parsed matches Some(Ok(Json::Object(members))) && exists|i: int|
            0 <= i < members@.len() && (#[trigger] members@[i]).1 is Text && plan.headers[k] == (
                members@[i].0@,
                members@[i].1->Text_0@,
            ),
{
    if let Some(Ok(Json::Object(members))) = parsed {
        lemma_text_members(members@);
        assert(plan.headers[k] == text_members(members@)[k - 1]);
        assert(is_text_member(members@, plan.headers[k]));
    }
}

/// Headers go out in the order of the object's members: a further member that is a text
/// becomes the last header, and a further member that is none changes nothing. Without
/// any member, only the header that names this software is sent.
pub proof fn law_headers_keep_their_order(
    url: Seq<char>,
    method: Seq<char>,
    body: Seq<u8>,
    members: Vec<(String, Json)>,
    longer: Vec<(String, Json)>,
    name: String,
    value: Json,
)
    requires
        method == "GET"@ || method == "POST"@,
        longer@ == members@.push((name, value)),
    ensures
        planned_call(url, method, body, Some(Ok(Json::Object(members)))) matches Ok(few) && (
        planned_call(url, method, body, Some(Ok(Json::Object(longer)))) matches Ok(many)
            && many.headers == (match value {
            Json::Text(text) => few.headers.push((name@, text@)),
            _ => few.headers,
        })),
        planned_call(url, method, body, None) matches Ok(none) && none.headers == seq![
            ("User-Agent"@, "ExternEVM/0.8.0"@),
        ],
        members@.len() == 0 ==> planned_call(url, method, body, Some(Ok(Json::Object(members))))
            == planned_call(url, method, body, None),
{
    assert(longer@.drop_last() =~= members@);
    assert(longer@.last() == (name, value));
    let agent = seq![("User-Agent"@, "ExternEVM/0.8.0"@)];
    let few = text_members(members@);
    if let Json::Text(text) = value {
        assert(agent + few.push((name@, text@)) =~= (agent + few).push((name@, text@)));
    }
    if members@.len() == 0 {
        assert(agent + few =~= agent);
    }
}

/// A reply is taken exactly where the service answered with a status from 200 to 299,
/// its body was read, is no longer than 32768 bytes and parses as JSON.
pub proof fn law_a_short_json_success_is_taken(reply: HttpReply)
    ensures
        reply_fault(reply) is None <==> (reply matches HttpReply::Answered { status, body, .. }
            && 200 <= status && status <= 299 && (body matches Ok(read) && read.bytes@.len()
            <= 32768 && read.json is Ok)),
{
}

/// What is said of a reply that is not taken names what failed first: the client, the
/// sending, the status, the reading, the length or the parse.
pub proof fn law_a_refused_reply_is_told_apart(reply: HttpReply)
    ensures
        match reply {
            HttpReply::NoClient(e) => reply_fault(reply) == Some(
                "failed to build HTTP client: "@ + e@,
            ),
            HttpReply::NotSent(e) => reply_fault(reply) == Some("HTTP request failed: "@ + e@),
            HttpReply::Answered { status, status_text, body } => {
                &&& status < 200 || status > 299 ==> reply_fault(reply) == Some(
                    "HTTP "@ + status_text@,
                )
                &&& 200 <= status <= 299 ==> match body {
                    Err(e) => reply_fault(reply) == Some("failed to read response body: "@ + e@),
                    Ok(read) => {
                        &&& read.bytes@.len() > 32768 ==> reply_fault(reply) == Some(
                            "response size "@ + decimal_text(read.bytes@.len()) + " exceeds max "@
                                + decimal_text(32768),
                        )
                        &&& read.bytes@.len() <= 32768 ==> (read.json matches Err(e) ==> reply_fault(
                            reply,
                        ) == Some("failed to parse response JSON: "@ + e@))
                    },
                }
            },
        },
{
}

/// A status tells of success exactly from 200 to 299.
pub proof fn law_success_is_a_status_from_200_to_299(status: u16)
    ensures
        tells_success(status) <==> 200 <= status && status <= 299,
{
}

} // verus!
