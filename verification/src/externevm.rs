//! The `API_CALL` precompile: what a call is answered, and what has to be done
//! outside before it can be.

use crate::abi::{abi_word, decode_request, encode_uint, request_in, ApiRequest};
use crate::attestation::{
    address_of_key, attestation_signature, public_key_of, recovered_signer, sign_attestation,
    SigningKey, ATTESTATION_MAX_SKEW_SECS,
};
use crate::bytes::{keccak, keccak256};
use crate::certificate::{current_moment, Moment};
use crate::extern_proto::{
    attestation_digest, commitment_preimage, compute_attestation_digest, compute_commitment,
    compute_request_hash, request_preimage, CommitMsgView, ExternCommitMsg, ExternRevealMsg,
    RevealMsgView,
};
use crate::http::HttpResult;
use crate::json::{at_path, extract_json_path, Json};
use crate::primitives::{bytes_to_vec, Address, B256, U256};
use crate::protocol_store::{ProtocolStore, RevealOutcome};
use crate::records::OutcomeView;
use crate::response::{
    encode_json_value, encoded_value, float_text, result_view, text_to_read_as_float,
};
use crate::store_view::StoreView;
use crate::text::{chars_of, has_prefix, is_text, lowercased, prefixed, starts_with};
use crate::url::{extract_host, host_of, is_private_host, is_private_url};
use vstd::prelude::*;

verus! {

/// The address of the precompile.
pub const API_CALL_ADDRESS: [u8; 20] = [
    0, 0, 0, 0, 0, 0, 0, 0, 0, 0, 0, 0, 0, 0, 0, 0, 0, 0, 0, 0xAA,
];

/// The gas of an answer out of the block's cache.
pub const GAS_CACHE_HIT: u64 = 100;

/// The gas of an answer that another node fetched.
pub const GAS_VERIFY: u64 = 1_500;

/// The gas of an answer that this node fetches for its peers.
pub const GAS_FETCH: u64 = 12_000;

/// The gas of an answer that a node without peers fetches.
pub const API_CALL_GAS: u64 = 3_000;

/// The longest body that a request may have, in bytes.
pub const MAX_BODY_SIZE: usize = 4096;

/// How long a node waits before it looks for a reveal again, in milliseconds.
pub const POLL_INTERVAL_MS: u64 = 10;

/// What a call is answered.
#[derive(Debug)]
pub enum Answer {
    /// The call returns with some output.
    Return { gas_used: u64, output: Vec<u8> },
    /// The call has too little gas.
    OutOfGas,
    /// The call stops for a reason.
    Halt(String),
}

/// What an answer says.
pub enum AnswerView {
    Return(u64, Seq<u8>),
    OutOfGas,
    Halt(Seq<char>),
}

impl View for Answer {
    type V = AnswerView;

    open spec fn view(&self) -> AnswerView {
        match self {
            Answer::Return { gas_used, output } => AnswerView::Return(*gas_used, output@),
            Answer::OutOfGas => AnswerView::OutOfGas,
            Answer::Halt(reason) => AnswerView::Halt(reason@),
        }
    }
}

/// A request on its way: with its hash and the block in which it was made.
#[derive(Debug)]
pub struct PendingCall {
    pub request: ApiRequest,
    pub request_hash: B256,
    pub block_number: u64,
}

/// What a request says: URL, method, headers, body, response path and response
/// type.
pub type RequestFields = (Seq<char>, Seq<char>, Seq<u8>, Seq<u8>, Seq<char>, u8);

/// What a request on its way says.
pub struct CallView {
    pub request: RequestFields,
    pub request_hash: Seq<u8>,
    pub block_number: u64,
}

impl View for PendingCall {
    type V = CallView;

    open spec fn view(&self) -> CallView {
        CallView {
            request: self.request@,
            request_hash: self.request_hash@,
            block_number: self.block_number,
        }
    }
}

/// What comes next for a call.
#[derive(Debug)]
pub enum CallStep {
    /// Nothing: it is answered.
    Answered(Answer),
    /// This node has no peers: it fetches and answers.
    FetchAlone(PendingCall),
    /// This node is the designated fetcher: it fetches, attests, commits, reveals and
    /// answers.
    FetchAndAttest(PendingCall),
    /// Another node is the designated fetcher: this one waits for its reveal.
    AwaitReveal(PendingCall, Address),
}

/// What the next step says.
pub enum StepView {
    Answered(AnswerView),
    FetchAlone(CallView),
    FetchAndAttest(CallView),
    AwaitReveal(CallView, Seq<u8>),
}

impl View for CallStep {
    type V = StepView;

    open spec fn view(&self) -> StepView {
        match self {
            CallStep::Answered(answer) => StepView::Answered(answer@),
            CallStep::FetchAlone(call) => StepView::FetchAlone(call@),
            CallStep::FetchAndAttest(call) => StepView::FetchAndAttest(call@),
            CallStep::AwaitReveal(call, designated) => StepView::AwaitReveal(call@, designated@),
        }
    }
}

/// Why a request is refused, in the order in which it is asked: `None` where it is
/// not. `private` tells whether its URL names this machine or a private network.
pub open spec fn request_fault(q: RequestFields, private: bool) -> Option<Seq<char>> {
    if q.0.len() == 0 {
        Some("API_CALL: url is empty"@)
    } else if !has_prefix(q.0, "http://"@) && !has_prefix(q.0, "https://"@) {
        Some("API_CALL: url must start with http:// or https://"@)
    } else if private {
        Some("API_CALL: private/loopback URLs are blocked"@)
    } else if q.1 != "GET"@ && q.1 != "POST"@ {
        Some("API_CALL: method must be GET or POST"@)
    } else if q.3.len() > MAX_BODY_SIZE {
        Some("API_CALL: body exceeds max size"@)
    } else if q.5 > 3 {
        Some("API_CALL: responseType must be 0-3"@)
    } else {
        None
    }
}

/// Whether a request is refused, given whether its URL names this machine or a
/// private network.
pub fn check_request(request: &ApiRequest, private: bool) -> (r: Result<(), String>)
    ensures
        match r {
            Ok(_) => request_fault(request@, private) is None,
            Err(e) => request_fault(request@, private) == Some(e@),
        },
{
    let url = chars_of(request.url.as_str());
    let method = chars_of(request.method.as_str());
    if url.len() == 0 {
        return Err("API_CALL: url is empty".to_owned());
    }
    if !starts_with(url.as_slice(), "http://") && !starts_with(url.as_slice(), "https://") {
        return Err("API_CALL: url must start with http:// or https://".to_owned());
    }
    if private {
        return Err("API_CALL: private/loopback URLs are blocked".to_owned());
    }
    if !is_text(method.as_slice(), "GET") && !is_text(method.as_slice(), "POST") {
        return Err("API_CALL: method must be GET or POST".to_owned());
    }
    if request.body.len() > MAX_BODY_SIZE {
        return Err("API_CALL: body exceeds max size".to_owned());
    }
    if request.response_type > 3 {
        return Err("API_CALL: responseType must be 0-3".to_owned());
    }
    Ok(())
}

/// The hash that names a request.
pub open spec fn hash_of_request(q: RequestFields) -> Seq<u8> {
    keccak(request_preimage(q.0, q.1, q.4, q.5))
}

/// An answer that costs gas, or none where there is too little.
pub open spec fn charged(gas: u64, cost: u64, step: StepView) -> StepView {
    if gas < cost {
        StepView::Answered(AnswerView::OutOfGas)
    } else {
        step
    }
}

/// What comes next for a request that is not refused: it is answered out of the
/// block's cache, or fetched by a node without peers, or fetched by the designated
/// fetcher, or waited for.
pub open spec fn step_for_accepted(
    v: StoreView,
    me: Seq<u8>,
    block_number: u64,
    q: RequestFields,
    gas: u64,
) -> StepView {
    let call = CallView { request: q, request_hash: hash_of_request(q), block_number };
    match v.block_cache.get((call.request_hash, block_number)) {
        Some(cached) => charged(
            gas,
            GAS_CACHE_HIT,
            StepView::Answered(AnswerView::Return(GAS_CACHE_HIT, cached)),
        ),
        None => if v.validators.len() <= 1 {
            charged(gas, API_CALL_GAS, StepView::FetchAlone(call))
        } else {
            match v.fetcher(call.request_hash) {
                None => StepView::Answered(AnswerView::Halt("API_CALL: no validators registered"@)),
                Some(designated) => if me == designated {
                    charged(gas, GAS_FETCH, StepView::FetchAndAttest(call))
                } else {
                    charged(gas, GAS_VERIFY, StepView::AwaitReveal(call, designated))
                },
            }
        },
    }
}

/// What comes next for a request.
pub open spec fn step_for_request(
    v: StoreView,
    me: Seq<u8>,
    block_number: u64,
    q: RequestFields,
    private: bool,
    gas: u64,
) -> StepView {
    match request_fault(q, private) {
        Some(fault) => StepView::Answered(AnswerView::Halt(fault)),
        None => step_for_accepted(v, me, block_number, q, gas),
    }
}

/// What comes next for a call. An empty call is answered with a fixed number.
pub open spec fn first_step(
    v: StoreView,
    me: Seq<u8>,
    block_number: u64,
    data: Seq<u8>,
    gas: u64,
) -> StepView {
    if data.len() == 0 {
        charged(
            gas,
            GAS_CACHE_HIT,
            StepView::Answered(AnswerView::Return(GAS_CACHE_HIT, abi_word(1234))),
        )
    } else {
        match request_in(data) {
            None => StepView::Answered(AnswerView::Halt("API_CALL: failed to decode ApiRequest"@)),
            Some(q) => step_for_request(
                v,
                me,
                block_number,
                q,
                is_private_host(host_of(lowercased(q.0))),
                gas,
            ),
        }
    }
}

/// What comes next for a request, given whether its URL names this machine or a
/// private network.
pub fn plan_request(
    store: &ProtocolStore,
    me: Address,
    block_number: u64,
    request: ApiRequest,
    private: bool,
    gas: u64,
) -> (r: CallStep)
    requires
        store.wf(),
    ensures
        r@ == step_for_request(store@, me@, block_number, request@, private, gas),
{
    if let Err(fault) = check_request(&request, private) {
        return CallStep::Answered(Answer::Halt(fault));
    }
    let request_hash = compute_request_hash(
        request.url.as_str(),
        request.method.as_str(),
        request.response_path.as_str(),
        request.response_type,
    );
    if let Some(cached) = store.check_cache(request_hash, block_number) {
        if gas < GAS_CACHE_HIT {
            return CallStep::Answered(Answer::OutOfGas);
        }
        return CallStep::Answered(Answer::Return { gas_used: GAS_CACHE_HIT, output: cached });
    }
    let call = PendingCall { request, request_hash, block_number };
    if store.validator_count() <= 1 {
        if gas < API_CALL_GAS {
            return CallStep::Answered(Answer::OutOfGas);
        }
        return CallStep::FetchAlone(call);
    }
    let designated = match store.designate_fetcher(request_hash) {
        Some(designated) => designated,
        None => {
            return CallStep::Answered(
                Answer::Halt("API_CALL: no validators registered".to_owned()),
            );
        },
    };
    if me.same(&designated) {
        if gas < GAS_FETCH {
            return CallStep::Answered(Answer::OutOfGas);
        }
        CallStep::FetchAndAttest(call)
    } else {
        if gas < GAS_VERIFY {
            return CallStep::Answered(Answer::OutOfGas);
        }
        CallStep::AwaitReveal(call, designated)
    }
}

/// What comes next for a call of the precompile.
pub fn begin_call(
    store: &ProtocolStore,
    me: Address,
    block_number: u64,
    data: &[u8],
    gas: u64,
) -> (r: CallStep)
    requires
        store.wf(),
    ensures
        r@ == first_step(store@, me@, block_number, data@, gas),
{
    if data.len() == 0 {
        if gas < GAS_CACHE_HIT {
            return CallStep::Answered(Answer::OutOfGas);
        }
        let output = encode_uint(U256::from_u64(1234));
        return CallStep::Answered(Answer::Return { gas_used: GAS_CACHE_HIT, output });
    }
    match decode_request(data) {
        None => CallStep::Answered(
            Answer::Halt("API_CALL: failed to decode ApiRequest".to_owned()),
        ),
        Some(request) => {
            let private = is_private_url(request.url.as_str());
            plan_request(store, me, block_number, request, private, gas)
        },
    }
}

/// What is taken of a reply, as far as the value of a call depends on it.
pub open spec fn fetched_json(http: Result<HttpResult, String>) -> Result<Json, Seq<char>> {
    match http {
        Ok(result) => Ok(result.json),
        Err(e) => Err(e@),
    }
}

/// Whether the path of a request can be followed in a response, to a value or to
/// nothing.
pub open spec fn path_can_be_followed(q: RequestFields, http: Result<Json, Seq<char>>) -> bool {
    http matches Ok(json) ==> at_path(json, q.4) is Some
}

/// The bytes that a contract gets of a response, or why the call stops.
pub open spec fn fetched_value(
    q: RequestFields,
    http: Result<Json, Seq<char>>,
    float_reading: Option<u64>,
) -> Result<Seq<u8>, Seq<char>> {
    match http {
        Err(e) => Err("API_CALL: HTTP error: "@ + e),
        Ok(json) => match at_path(json, q.4) {
            Some(Some(value)) => match encoded_value(value, q.5, float_reading) {
                Ok(bytes) => Ok(bytes),
                Err(e) => Err("API_CALL: encode error: "@ + e),
            },
            _ => Err("API_CALL: JSON path not found"@),
        },
    }
}

/// The text of a response whose floating-point reading the value of a call depends
/// on.
pub open spec fn response_float_view(
    q: RequestFields,
    http: Result<Json, Seq<char>>,
) -> Option<Seq<char>> {
    match http {
        Err(_) => None,
        Ok(json) => match at_path(json, q.4) {
            Some(Some(value)) => text_to_read_as_float(value, q.5),
            _ => None,
        },
    }
}

/// The text that has to be read as a floating-point number before the value of a
/// call is known; `None` where it depends on no such reading.
pub fn response_float_text(request: &ApiRequest, http: &Result<HttpResult, String>) -> (r: Option<
    String,
>)
    requires
        path_can_be_followed(request@, fetched_json(*http)),
    ensures
        match r {
            Some(text) => response_float_view(request@, fetched_json(*http)) == Some(text@),
            None => response_float_view(request@, fetched_json(*http)) is None,
        },
{
    match http {
        Err(_) => None,
        Ok(result) => match extract_json_path(&result.json, request.response_path.as_str()) {
            Some(value) => float_text(value, request.response_type),
            None => None,
        },
    }
}

/// The bytes that a contract gets of a response, or why the call stops.
pub fn read_response(
    request: &ApiRequest,
    http: &Result<HttpResult, String>,
    float_reading: Option<u64>,
) -> (r: Result<Vec<u8>, String>)
    requires
        path_can_be_followed(request@, fetched_json(*http)),
    ensures
        result_view(r) == fetched_value(request@, fetched_json(*http), float_reading),
{
    match http {
        Err(e) => Err(prefixed("API_CALL: HTTP error: ", e.as_str())),
        Ok(result) => match extract_json_path(&result.json, request.response_path.as_str()) {
            None => Err("API_CALL: JSON path not found".to_owned()),
            Some(value) => match encode_json_value(value, request.response_type, float_reading) {
                Ok(bytes) => Ok(bytes),
                Err(e) => Err(prefixed("API_CALL: encode error: ", e.as_str())),
            },
        },
    }
}

/// What a store holds after a call was answered with a value: the value is kept for
/// the block.
pub open spec fn with_answer(v: StoreView, call: CallView, value: Seq<u8>) -> StoreView {
    v.with_cached(call.request_hash, call.block_number, value)
}

/// Keeps a value for the block and answers with it.
pub(crate) fn keep_and_return(
    store: &mut ProtocolStore,
    request_hash: B256,
    block_number: u64,
    value: Vec<u8>,
    gas_used: u64,
) -> (r: Answer)
    requires
        old(store).wf(),
    ensures
        final(store).wf(),
        final(store)@ == old(store)@.with_cached(request_hash@, block_number, value@),
        r@ == AnswerView::Return(gas_used, value@),
{
    let output = bytes_to_vec(value.as_slice());
    store.populate_cache(request_hash, block_number, value);
    Answer::Return { gas_used, output }
}

/// Answers the call of a node without peers: with the value of the response, which
/// is kept for the block, or with why the call stops.
pub fn finish_alone(
    store: &mut ProtocolStore,
    call: &PendingCall,
    http: &Result<HttpResult, String>,
    float_reading: Option<u64>,
) -> (r: Answer)
    requires
        old(store).wf(),
        path_can_be_followed(call@.request, fetched_json(*http)),
    ensures
        final(store).wf(),
        match fetched_value(call@.request, fetched_json(*http), float_reading) {
            Ok(value) => r@ == AnswerView::Return(API_CALL_GAS, value) && final(store)@
                == with_answer(old(store)@, call@, value),
            Err(fault) => r@ == AnswerView::Halt(fault) && final(store)@ == old(store)@,
        },
{
    match read_response(&call.request, http, float_reading) {
        Ok(value) => keep_and_return(
            store,
            call.request_hash,
            call.block_number,
            value,
            API_CALL_GAS,
        ),
        Err(fault) => Answer::Halt(fault),
    }
}

/// Why the designated fetcher cannot attest to a response: `None` where it can.
pub open spec fn attestation_fault(cert_der: Option<Seq<u8>>, has_key: bool) -> Option<Seq<char>> {
    if cert_der is None || cert_der->0.len() == 0 {
        Some("API_CALL: v4 attestation requires HTTPS (no TLS certificate captured)"@)
    } else if !has_key {
        Some(
            "API_CALL: EXTERNEVM_VALIDATOR_PRIVKEY not set (required to sign v4 attestation)"@,
        )
    } else {
        None
    }
}

/// The reveal of a value that was fetched over TLS and signed for.
pub open spec fn reveal_of(
    call: CallView,
    me: Seq<u8>,
    value: Seq<u8>,
    salt: Seq<u8>,
    body: Seq<u8>,
    cert_der: Seq<u8>,
    now_secs: u64,
    secret: Seq<u8>,
) -> RevealMsgView {
    RevealMsgView {
        request_hash: call.request_hash,
        value,
        salt,
        validator: me,
        cert_der,
        response_hash: keccak(body),
        timestamp_secs: now_secs,
        attestation_sig: attestation_signature(
            attestation_digest(
                call.request_hash,
                host_of(call.request.0),
                cert_der,
                keccak(body),
                now_secs,
            ),
            secret,
        ),
    }
}

/// The commitment to what a reveal shows.
pub open spec fn commit_of(reveal: RevealMsgView) -> CommitMsgView {
    CommitMsgView {
        request_hash: reveal.request_hash,
        commitment: keccak(commitment_preimage(reveal.value, reveal.salt)),
        validator: reveal.validator,
    }
}

/// What the certificate of a response is.
pub open spec fn fetched_cert(http: Result<HttpResult, String>) -> Option<Seq<u8>> {
    match http {
        Ok(result) => match result.cert_der {
            Some(cert) => Some(cert@),
            None => None,
        },
        Err(_) => None,
    }
}

/// Why the designated fetcher cannot commit to the value of a response: `None`
/// where it can.
pub open spec fn fetch_fault(
    call: CallView,
    http: Result<HttpResult, String>,
    float_reading: Option<u64>,
    has_key: bool,
) -> Option<Seq<char>> {
    match fetched_value(call.request, fetched_json(http), float_reading) {
        Err(fault) => Some(fault),
        Ok(_) => attestation_fault(fetched_cert(http), has_key),
    }
}

/// Makes, as the designated fetcher, the commitment and the reveal of the value of
/// a response under a salt, or tells why the call stops. Whoever recovers the
/// signer of the reveal's attestation gets the address of the key.
pub fn attest_with_salt(
    call: &PendingCall,
    me: Address,
    http: &Result<HttpResult, String>,
    float_reading: Option<u64>,
    key: Option<&SigningKey>,
    now_secs: u64,
    salt: [u8; 32],
) -> (r: Result<(ExternCommitMsg, ExternRevealMsg), String>)
    requires
        path_can_be_followed(call@.request, fetched_json(*http)),
    ensures
        match r {
            Err(fault) => fetch_fault(call@, *http, float_reading, key is Some) == Some(fault@),
            Ok((commit, reveal)) => {
                &&& fetch_fault(call@, *http, float_reading, key is Some) is None
                &&& reveal@ == reveal_of(
                    call@,
                    me@,
                    fetched_value(call@.request, fetched_json(*http), float_reading)->Ok_0,
                    salt@,
                    http->Ok_0.body_bytes@,
                    fetched_cert(*http)->0,
                    now_secs,
                    key->0@,
                )
                &&& commit@ == commit_of(reveal@)
                &&& recovered_signer(
                    attestation_digest(
                        call@.request_hash,
                        host_of(call@.request.0),
                        reveal@.cert_der,
                        reveal@.response_hash,
                        reveal@.timestamp_secs,
                    ),
                    reveal@.attestation_sig,
                ) == Some(address_of_key(public_key_of(key->0@)))
            },
        },
{
    let value = match read_response(&call.request, http, float_reading) {
        Ok(value) => value,
        Err(fault) => {
            return Err(fault);
        },
    };
    let result = match http {
        Ok(result) => result,
        Err(e) => {
            return Err(e.clone());
        },
    };
    let cert_der = match &result.cert_der {
        Some(cert) => bytes_to_vec(cert.as_slice()),
        None => Vec::new(),
    };
    if cert_der.len() == 0 {
        return Err(
            "API_CALL: v4 attestation requires HTTPS (no TLS certificate captured)".to_owned(),
        );
    }
    let sk = match key {
        Some(sk) => sk,
        None => {
            return Err(
                "API_CALL: EXTERNEVM_VALIDATOR_PRIVKEY not set (required to sign v4 attestation)".to_owned(),
            );
        },
    };
    let domain = extract_host(call.request.url.as_str());
    let response_hash = keccak256(result.body_bytes.as_slice());
    let digest = compute_attestation_digest(
        call.request_hash,
        domain.as_str(),
        cert_der.as_slice(),
        response_hash,
        now_secs,
    );
    let attestation_sig = sign_attestation(digest, sk);
    let commitment = compute_commitment(value.as_slice(), &salt);
    let commit = ExternCommitMsg {
        request_hash: call.request_hash,
        commitment,
        validator: me,
    };
    let reveal = ExternRevealMsg {
        request_hash: call.request_hash,
        value,
        salt: B256(salt),
        validator: me,
        cert_der,
        response_hash,
        timestamp_secs: now_secs,
        attestation_sig,
    };
    Ok((commit, reveal))
}

/// Draws 32 random bytes with `rand::rngs::OsRng`. They differ from call to call,
/// and nothing is stated of them.
#[verifier::external_body]
fn fresh_salt() -> (r: [u8; 32]) {
    let mut salt = [0u8; 32];
    rand::RngCore::fill_bytes(&mut rand::rngs::OsRng, &mut salt);
    salt
}

/// Makes, as the designated fetcher, the commitment and the reveal of the value of
/// a response under a random salt, or tells why the call stops.
pub fn attest_response(
    call: &PendingCall,
    me: Address,
    http: &Result<HttpResult, String>,
    float_reading: Option<u64>,
    key: Option<&SigningKey>,
    now_secs: u64,
) -> (r: Result<(ExternCommitMsg, ExternRevealMsg), String>)
    requires
        path_can_be_followed(call@.request, fetched_json(*http)),
    ensures
        match r {
            Err(fault) => fetch_fault(call@, *http, float_reading, key is Some) == Some(fault@),
            Ok((commit, reveal)) => {
                &&& fetch_fault(call@, *http, float_reading, key is Some) is None
                &&& reveal@ == reveal_of(
                    call@,
                    me@,
                    fetched_value(call@.request, fetched_json(*http), float_reading)->Ok_0,
                    reveal@.salt,
                    http->Ok_0.body_bytes@,
                    fetched_cert(*http)->0,
                    now_secs,
                    key->0@,
                )
                &&& commit@ == commit_of(reveal@)
                &&& recovered_signer(
                    attestation_digest(
                        call@.request_hash,
                        host_of(call@.request.0),
                        reveal@.cert_der,
                        reveal@.response_hash,
                        reveal@.timestamp_secs,
                    ),
                    reveal@.attestation_sig,
                ) == Some(address_of_key(public_key_of(key->0@)))
            },
        },
{
    attest_with_salt(call, me, http, float_reading, key, now_secs, fresh_salt())
}

/// What a call is answered that waits for a reveal; `None` where it goes on
/// waiting.
pub open spec fn settled(outcome: OutcomeView, past_deadline: bool) -> Option<AnswerView> {
    match outcome {
        OutcomeView::Verified(value) => Some(AnswerView::Return(GAS_VERIFY, value)),
        OutcomeView::Rejected(reason) => Some(
            AnswerView::Halt("API_CALL: reveal rejected: "@ + reason),
        ),
        OutcomeView::Pending => if past_deadline {
            Some(
                AnswerView::Halt("API_CALL: timeout \u{2014} designated fetcher did not reveal"@),
            )
        } else {
            None
        },
    }
}

/// What a store holds after a look at a reveal: a verified value is kept for the
/// block.
pub open spec fn after_look(v: StoreView, call: CallView, outcome: OutcomeView) -> StoreView {
    match outcome {
        OutcomeView::Verified(value) => with_answer(v, call, value),
        _ => v,
    }
}

/// What an answer says, where there is one.
pub open spec fn answer_view(r: Option<Answer>) -> Option<AnswerView> {
    match r {
        Some(answer) => Some(answer@),
        None => None,
    }
}

/// Answers a call that waits for a reveal, given what became of the reveal and
/// whether the time to wait is over; `None` where it goes on waiting.
pub fn settle_reveal(
    store: &mut ProtocolStore,
    call: &PendingCall,
    outcome: RevealOutcome,
    past_deadline: bool,
) -> (r: Option<Answer>)
    requires
        old(store).wf(),
    ensures
        final(store).wf(),
        answer_view(r) == settled(outcome@, past_deadline),
        final(store)@ == after_look(old(store)@, call@, outcome@),
{
    match outcome {
        RevealOutcome::Verified(value) => Some(
            keep_and_return(store, call.request_hash, call.block_number, value, GAS_VERIFY),
        ),
        RevealOutcome::Rejected(reason) => Some(
            Answer::Halt(prefixed("API_CALL: reveal rejected: ", reason.as_str())),
        ),
        RevealOutcome::Pending => if past_deadline {
            Some(
                Answer::Halt(
                    "API_CALL: timeout \u{2014} designated fetcher did not reveal".to_owned(),
                ),
            )
        } else {
            None
        },
    }
}

/// What to make of the reveal that a call waits for, at a time in seconds for its
/// attestation and at a moment for its certificate.
pub open spec fn awaited_reveal(
    v: StoreView,
    call: CallView,
    designated: Seq<u8>,
    now_secs: u64,
    cert_now: (i128, bool),
) -> OutcomeView {
    v.reveal_outcome(call.request_hash, designated, host_of(call.request.0), now_secs, cert_now)
}

/// Whether a look for the reveal that a call waits for, at a moment for its
/// certificate, gives an answer and leaves a store.
pub open spec fn is_look(
    v: StoreView,
    after: StoreView,
    call: CallView,
    designated: Seq<u8>,
    now_secs: u64,
    cert_now: (i128, bool),
    past_deadline: bool,
    answer: Option<AnswerView>,
) -> bool {
    let outcome = awaited_reveal(v, call, designated, now_secs, cert_now);
    answer == settled(outcome, past_deadline) && after == after_look(v, call, outcome)
}

/// Looks once for the reveal of the designated fetcher, and answers the call where
/// it is there or the time to wait is over. The certificate is judged at a moment.
pub fn poll_reveal_at(
    store: &mut ProtocolStore,
    call: &PendingCall,
    designated: Address,
    now_secs: u64,
    cert_now: Moment,
    past_deadline: bool,
) -> (r: Option<Answer>)
    requires
        old(store).wf(),
        old(store)@.has_verified_reveal(call@.request_hash, designated@) ==> now_secs
            + ATTESTATION_MAX_SKEW_SECS <= u64::MAX,
    ensures
        final(store).wf(),
        is_look(
            old(store)@,
            final(store)@,
            call@,
            designated@,
            now_secs,
            cert_now@,
            past_deadline,
            answer_view(r),
        ),
{
    let domain = extract_host(call.request.url.as_str());
    let outcome = store.check_reveal_at(
        call.request_hash,
        designated,
        domain.as_str(),
        now_secs,
        cert_now,
    );
    settle_reveal(store, call, outcome, past_deadline)
}

/// Looks once for the reveal of the designated fetcher, with the certificate judged
/// by this machine's clock. Which moment the clock gives is not stated.
pub fn poll_reveal(
    store: &mut ProtocolStore,
    call: &PendingCall,
    designated: Address,
    now_secs: u64,
    past_deadline: bool,
) -> (r: Option<Answer>)
    requires
        old(store).wf(),
        old(store)@.has_verified_reveal(call@.request_hash, designated@) ==> now_secs
            + ATTESTATION_MAX_SKEW_SECS <= u64::MAX,
    ensures
        final(store).wf(),
        exists|cert_now: (i128, bool)| #[trigger]
            is_look(
                old(store)@,
                final(store)@,
                call@,
                designated@,
                now_secs,
                cert_now,
                past_deadline,
                answer_view(r),
            ),
{
    poll_reveal_at(store, call, designated, now_secs, current_moment(), past_deadline)
}

/// How long a node waits for a reveal, in milliseconds.
pub fn reveal_wait_ms(commit_window: u64, reveal_window: u64) -> (r: u64)
    requires
        commit_window + reveal_window <= u64::MAX,
    ensures
        r == commit_window + reveal_window,
{
    commit_window + reveal_window
}

/// Goes to another block: what was kept for blocks before the one before it is
/// forgotten.
pub fn update_current_block(store: &mut ProtocolStore, current_block: &mut u64, block: u64)
    requires
        old(store).wf(),
    ensures
        final(store).wf(),
        final(store)@ == old(store)@.without_old_cache(block),
        *final(current_block) == block,
{
    *current_block = block;
    store.evict_old_cache_entries(block);
}

} // verus!
