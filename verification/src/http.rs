//! What is sent to an outside service, and what is taken of its reply.

use crate::abi::ApiRequest;
use crate::json::Json;
use crate::primitives::bytes_to_vec;
use crate::text::{chars_of, decimal, decimal_text, is_text, prefixed};
use vstd::prelude::*;

verus! {

/// The longest response that is taken, in bytes.
pub const MAX_RESPONSE_SIZE: usize = 32_768;

/// How long a reply may take, in milliseconds.
pub const HTTP_TIMEOUT_MS: u64 = 5000;

/// What to send: where, with which headers in which order, and what body.
#[derive(Debug)]
pub struct HttpPlan {
    pub post: bool,
    pub url: String,
    pub headers: Vec<(String, String)>,
    pub body: Option<Vec<u8>>,
}

/// What a plan says.
pub struct PlanView {
    pub post: bool,
    pub url: Seq<char>,
    pub headers: Seq<(Seq<char>, Seq<char>)>,
    pub body: Option<Seq<u8>>,
}

/// What a row of headers says.
pub open spec fn header_views(s: Seq<(String, String)>) -> Seq<(Seq<char>, Seq<char>)> {
    s.map_values(|h: (String, String)| (h.0@, h.1@))
}

impl View for HttpPlan {
    type V = PlanView;

    open spec fn view(&self) -> PlanView {
        PlanView {
            post: self.post,
            url: self.url@,
            headers: header_views(self.headers@),
            body: match self.body {
                Some(bytes) => Some(bytes@),
                None => None,
            },
        }
    }
}

/// The members of an object that are texts, in their order.
pub open spec fn text_members(members: Seq<(String, Json)>) -> Seq<(Seq<char>, Seq<char>)>
    decreases members.len(),
{
    if members.len() == 0 {
        seq![]
    } else {
        match members.last().1 {
            Json::Text(value) => text_members(members.drop_last()).push(
                (members.last().0@, value@),
            ),
            _ => text_members(members.drop_last()),
        }
    }
}

/// The headers that a request sends: the name of this software, then those of its
/// own that are texts. `None` stands for a request without headers of its own.
pub open spec fn request_headers(parsed: Option<Result<Json, Seq<char>>>) -> Result<
    Seq<(Seq<char>, Seq<char>)>,
    Seq<char>,
> {
    let agent = seq![("User-Agent"@, "ExternEVM/0.8.0"@)];
    match parsed {
        None => Ok(agent),
        Some(Ok(Json::Object(members))) => Ok(agent + text_members(members@)),
        Some(Ok(_)) => Err("headers must be a JSON object"@),
        Some(Err(e)) => Err("failed to parse headers JSON: "@ + e),
    }
}

/// What to send for a request, or why nothing can be sent. A body goes with the
/// method `POST` only, and only where there is one.
pub open spec fn planned_call(
    url: Seq<char>,
    method: Seq<char>,
    body: Seq<u8>,
    parsed: Option<Result<Json, Seq<char>>>,
) -> Result<PlanView, Seq<char>> {
    if method != "GET"@ && method != "POST"@ {
        Err("unsupported method: "@ + method)
    } else {
        match request_headers(parsed) {
            Err(e) => Err(e),
            Ok(headers) => Ok(
                PlanView {
                    post: method == "POST"@,
                    url,
                    headers,
                    body: if method == "POST"@ && body.len() > 0 {
                        Some(body)
                    } else {
                        None
                    },
                },
            ),
        }
    }
}

/// What a parse of JSON gave.
pub open spec fn parse_view(parsed: Option<Result<Json, String>>) -> Option<
    Result<Json, Seq<char>>,
> {
    match parsed {
        None => None,
        Some(Ok(json)) => Some(Ok(json)),
        Some(Err(e)) => Some(Err(e@)),
    }
}

fn headers_of(parsed: Option<Result<Json, String>>) -> (r: Result<Vec<(String, String)>, String>)
    ensures
        match r {
            Ok(headers) => request_headers(parse_view(parsed)) == Ok::<
                Seq<(Seq<char>, Seq<char>)>,
                Seq<char>,
            >(header_views(headers@)),
            Err(e) => request_headers(parse_view(parsed)) == Err::<
                Seq<(Seq<char>, Seq<char>)>,
                Seq<char>,
            >(e@),
        },
{
    let ghost agent = seq![("User-Agent"@, "ExternEVM/0.8.0"@)];
    let mut headers: Vec<(String, String)> = Vec::new();
    headers.push(("User-Agent".to_owned(), "ExternEVM/0.8.0".to_owned()));
    assert(header_views(headers@) =~= agent);
    match parsed {
        None => Ok(headers),
        Some(Ok(Json::Object(members))) => {
            let mut i: usize = 0;
            assert(header_views(headers@) =~= agent + text_members(members@.take(0)));
            while i < members.len()
                invariant
                    i <= members@.len(),
                    header_views(headers@) == agent + text_members(members@.take(i as int)),
                decreases members@.len() - i,
            {
                let ghost so_far = header_views(headers@);
                assert(members@.take(i + 1).drop_last() =~= members@.take(i as int));
                if let Json::Text(value) = &members[i].1 {
                    let header = (members[i].0.clone(), value.clone());
                    headers.push(header);
                    assert(header_views(headers@) =~= so_far.push((header.0@, header.1@)));
                }
                assert(header_views(headers@) =~= agent + text_members(members@.take(i + 1)));
                i = i + 1;
            }
            assert(members@.take(i as int) =~= members@);
            Ok(headers)
        },
        Some(Ok(_)) => Err("headers must be a JSON object".to_owned()),
        Some(Err(e)) => {
            let mut text = "failed to parse headers JSON: ".to_owned();
            text.append(e.as_str());
            Err(text)
        },
    }
}

/// What to send for a request, given what a parse of its headers as JSON gave;
/// `None` where it has none.
pub fn plan_http_call(request: &ApiRequest, parsed: Option<Result<Json, String>>) -> (r: Result<
    HttpPlan,
    String,
>)
    requires
        parsed is None <==> request.headers@.len() == 0,
    ensures
        match r {
            Ok(plan) => planned_call(request.url@, request.method@, request.body@, parse_view(parsed))
                == Ok::<PlanView, Seq<char>>(plan@),
            Err(e) => planned_call(request.url@, request.method@, request.body@, parse_view(parsed))
                == Err::<PlanView, Seq<char>>(e@),
        },
{
    let method = chars_of(request.method.as_str());
    let post = is_text(method.as_slice(), "POST");
    if !post && !is_text(method.as_slice(), "GET") {
        let mut text = "unsupported method: ".to_owned();
        text.append(request.method.as_str());
        return Err(text);
    }
    proof {
        reveal_strlit("GET");
        reveal_strlit("POST");
    }
    let headers = match headers_of(parsed) {
        Ok(headers) => headers,
        Err(e) => {
            return Err(e);
        },
    };
    let body = if post && request.body.len() > 0 {
        Some(bytes_to_vec(request.body.as_slice()))
    } else {
        None
    };
    Ok(HttpPlan { post, url: request.url.clone(), headers, body })
}

/// The body of an answer: its bytes, the certificate of the server, if there was
/// one, and what a parse of the bytes as JSON gave.
#[derive(Debug)]
pub struct HttpBody {
    pub bytes: Vec<u8>,
    pub cert_der: Option<Vec<u8>>,
    pub json: Result<Json, String>,
}

/// What came of sending a request: no client could be made, the request could not
/// be sent, or the service answered with a status, as a number and as text, and a
/// body, or why it was not read. The body counts only where the status tells of
/// success.
#[derive(Debug)]
pub enum HttpReply {
    NoClient(String),
    NotSent(String),
    Answered { status: u16, status_text: String, body: Result<HttpBody, String> },
}

/// Whether a status tells of success.
pub open spec fn tells_success(status: u16) -> bool {
    200 <= status < 300
}

/// Whether a status tells of success: only then the body has to be read.
pub fn is_success(status: u16) -> (r: bool)
    ensures
        r == tells_success(status),
{
    200 <= status && status < 300
}

/// A response that is taken: its value, its bytes and the certificate of the
/// server.
#[derive(Debug)]
pub struct HttpResult {
    pub json: Json,
    pub body_bytes: Vec<u8>,
    pub cert_der: Option<Vec<u8>>,
}

/// Why nothing is taken of a reply; `None` where it is.
pub open spec fn reply_fault(reply: HttpReply) -> Option<Seq<char>> {
    match reply {
        HttpReply::NoClient(e) => Some("failed to build HTTP client: "@ + e@),
        HttpReply::NotSent(e) => Some("HTTP request failed: "@ + e@),
        HttpReply::Answered { status, status_text, body } => if !tells_success(status) {
            Some("HTTP "@ + status_text@)
        } else {
            match body {
                Err(e) => Some("failed to read response body: "@ + e@),
                Ok(body) => if body.bytes@.len() > MAX_RESPONSE_SIZE {
                    Some(
                        "response size "@ + decimal_text(body.bytes@.len()) + " exceeds max "@
                            + decimal_text(MAX_RESPONSE_SIZE as nat),
                    )
                } else {
                    match body.json {
                        Ok(_) => None,
                        Err(e) => Some("failed to parse response JSON: "@ + e@),
                    }
                },
            }
        },
    }
}

/// What is taken of a reply, or why nothing is.
pub fn judge_reply(reply: HttpReply) -> (r: Result<HttpResult, String>)
    ensures
        match r {
            Ok(result) => reply_fault(reply) is None && (
            reply matches HttpReply::Answered { body, .. } && body == Ok::<HttpBody, String>(
                (HttpBody {
                    bytes: result.body_bytes,
                    cert_der: result.cert_der,
                    json: Ok(result.json),
                }),
            )),
            Err(e) => reply_fault(reply) == Some(e@),
        },
{
    match reply {
        HttpReply::NoClient(e) => Err(prefixed("failed to build HTTP client: ", e.as_str())),
        HttpReply::NotSent(e) => Err(prefixed("HTTP request failed: ", e.as_str())),
        HttpReply::Answered { status, status_text, body } => {
            if !is_success(status) {
                return Err(prefixed("HTTP ", status_text.as_str()));
            }
            match body {
                Err(e) => Err(prefixed("failed to read response body: ", e.as_str())),
                Ok(body) => {
                    if body.bytes.len() > MAX_RESPONSE_SIZE {
                        let size = decimal(body.bytes.len() as u64);
                        let mut text = prefixed("response size ", size.as_str());
                        text.append(" exceeds max ");
                        text.append(decimal(MAX_RESPONSE_SIZE as u64).as_str());
                        return Err(text);
                    }
                    match body.json {
                        Ok(json) => Ok(
                            HttpResult { json, body_bytes: body.bytes, cert_der: body.cert_der },
                        ),
                        Err(e) => Err(prefixed("failed to parse response JSON: ", e.as_str())),
                    }
                },
            }
        },
    }
}

/// A response is taken only with a status that tells of success, and only where it
/// is not longer than the limit.
pub proof fn law_only_a_short_success_is_taken(reply: HttpReply)
    ensures
        reply_fault(reply) is None ==> (reply matches HttpReply::Answered { status, body, .. }
            && tells_success(status) && (body matches Ok(body) && body.bytes@.len()
            <= MAX_RESPONSE_SIZE)),
{
}

} // verus!
