//! What a call is answered with, and what its fetcher commits to and reveals.

use crate::attestation::{
    address_of_key, attestation_signature, is_fresh, recovered_key, recovered_signer, signature_of,
};
use crate::bytes::keccak;
use crate::extern_proto::{attestation_preimage, RevealMsgView};
use crate::externevm::{
    after_look, attestation_fault, awaited_reveal, commit_of, fetch_fault, fetched_cert,
    fetched_json, fetched_value, is_look, path_can_be_followed, response_float_view, reveal_of,
    settled, with_answer, AnswerView, CallView, RequestFields,
};
use crate::http::HttpResult;
use crate::json::{at_path, Json};
use crate::json_laws::law_a_path_without_brackets_can_be_followed;
use crate::records::OutcomeView;
use crate::response::{encoded_value, text_to_read_as_float};
use crate::store_view::StoreView;
use crate::url::host_of;
use vstd::prelude::*;

verus! {

/// The value of a call is what its response path leads to in the response, encoded as
/// its response type says; nothing else of the request has a part in it.
pub proof fn law_a_call_gets_the_value_at_its_path(
    q: RequestFields,
    json: Json,
    value: Json,
    float_reading: Option<u64>,
    bytes: Seq<u8>,
)
    requires
        at_path(json, q.4) == Some(Some(value)),
    ensures
        fetched_value(q, Ok(json), float_reading) == Ok::<Seq<u8>, Seq<char>>(bytes)
            <==> encoded_value(value, q.5, float_reading) == Ok::<Seq<u8>, Seq<char>>(bytes),
        encoded_value(value, q.5, float_reading) matches Err(e) ==> fetched_value(
            q,
            Ok(json),
            float_reading,
        ) == Err::<Seq<u8>, Seq<char>>("API_CALL: encode error: "@ + e),
        response_float_view(q, Ok(json)) == text_to_read_as_float(value, q.5),
        path_can_be_followed(q, Ok(json)),
{
}

/// Without a response path, the whole response is the value.
pub proof fn law_without_a_path_the_whole_response_counts(
    q: RequestFields,
    json: Json,
    float_reading: Option<u64>,
    bytes: Seq<u8>,
)
    requires
        q.4.len() == 0,
    ensures
        fetched_value(q, Ok(json), float_reading) == Ok::<Seq<u8>, Seq<char>>(bytes)
            <==> encoded_value(json, q.5, float_reading) == Ok::<Seq<u8>, Seq<char>>(bytes),
        path_can_be_followed(q, Ok(json)),
{
    assert(q.4 =~= seq![]);
    law_a_path_without_brackets_can_be_followed(json, seq![]);
}

/// A path that leads to nothing, and a response that was not taken, stop the call, and
/// nothing has to be read as a floating-point number.
pub proof fn law_a_call_without_a_value_is_stopped(
    q: RequestFields,
    json: Json,
    fault: Seq<char>,
    float_reading: Option<u64>,
)
    ensures
        at_path(json, q.4) == Some(None::<Json>) ==> fetched_value(q, Ok(json), float_reading)
            == Err::<Seq<u8>, Seq<char>>("API_CALL: JSON path not found"@),
        at_path(json, q.4) == Some(None::<Json>) ==> response_float_view(q, Ok(json)) is None,
        path_can_be_followed(q, Ok(json)) <==> at_path(json, q.4) is Some,
        fetched_value(q, Err(fault), float_reading) == Err::<Seq<u8>, Seq<char>>(
            "API_CALL: HTTP error: "@ + fault,
        ),
        response_float_view(q, Err(fault)) is None,
        path_can_be_followed(q, Err(fault)),
{
}

/// Two requests with one response path and one response type get the same of one
/// response.
pub proof fn law_only_path_and_type_decide_what_is_read(
    q: RequestFields,
    other: RequestFields,
    http: Result<Json, Seq<char>>,
    float_reading: Option<u64>,
)
    requires
        q.4 == other.4,
        q.5 == other.5,
    ensures
        fetched_value(q, http, float_reading) == fetched_value(other, http, float_reading),
        response_float_view(q, http) == response_float_view(other, http),
        path_can_be_followed(q, http) == path_can_be_followed(other, http),
{
}

/// The designated fetcher can attest exactly with a certificate that is not empty and a
/// key; the certificate is asked for first.
pub proof fn law_attesting_takes_a_certificate_and_a_key(cert: Option<Seq<u8>>, has_key: bool)
    ensures
        attestation_fault(cert, has_key) is None <==> (cert matches Some(der) && der.len() > 0)
            && has_key,
        !(cert matches Some(der) && der.len() > 0) ==> attestation_fault(cert, has_key) == Some(
            "API_CALL: v4 attestation requires HTTPS (no TLS certificate captured)"@,
        ),
        (cert matches Some(der) && der.len() > 0) && !has_key ==> attestation_fault(cert, has_key)
            == Some(
            "API_CALL: EXTERNEVM_VALIDATOR_PRIVKEY not set (required to sign v4 attestation)"@,
        ),
{
}

/// A fetch comes to a commitment exactly where the response has a value, a certificate
/// and the node a key; what stops the value comes before what stops the attestation.
pub proof fn law_a_fetch_needs_a_value_a_certificate_and_a_key(
    call: CallView,
    http: Result<HttpResult, String>,
    float_reading: Option<u64>,
    has_key: bool,
)
    ensures
        fetch_fault(call, http, float_reading, has_key) is None <==> has_key && (
        http matches Ok(result) && fetched_value(call.request, Ok(result.json), float_reading)
            is Ok && (result.cert_der matches Some(der) && der@.len() > 0)),
        fetched_value(call.request, fetched_json(http), float_reading) matches Err(fault)
            ==> fetch_fault(call, http, float_reading, has_key) == Some(fault),
        http matches Ok(result) ==> fetched_json(http) == Ok::<Json, Seq<char>>(result.json) && (
        result.cert_der matches Some(der) ==> fetched_cert(http) == Some(der@)),
        http matches Err(e) ==> fetched_json(http) == Err::<Json, Seq<char>>(e@),
{
}

/// A reveal carries what was fetched: the value, the salt, the certificate and the time
/// as they are, the hash of the response's bytes, and a signature over the digest of
/// exactly these for the host of the request's URL.
pub proof fn law_a_reveal_carries_what_was_fetched(
    call: CallView,
    me: Seq<u8>,
    value: Seq<u8>,
    salt: Seq<u8>,
    body: Seq<u8>,
    cert_der: Seq<u8>,
    now_secs: u64,
    secret: Seq<u8>,
)
    ensures
        ({
            let r = reveal_of(call, me, value, salt, body, cert_der, now_secs, secret);
            let digest = keccak(
                attestation_preimage(
                    call.request_hash,
                    host_of(call.request.0),
                    keccak(cert_der),
                    keccak(body),
                    now_secs,
                ),
            );
            &&& r.request_hash == call.request_hash
            &&& r.validator == me
            &&& r.value == value
            &&& r.salt == salt
            &&& r.cert_der == cert_der
            &&& r.response_hash == keccak(body)
            &&& r.timestamp_secs == now_secs
            &&& r.attestation_sig == signature_of(digest, secret).1.push(
                signature_of(digest, secret).0 as u8,
            )
        }),
{
}

/// A commitment is the hash of the value with the salt behind it, for the request and
/// by the validator of its reveal; it tells nothing else.
pub proof fn law_a_commitment_is_the_hash_of_value_and_salt(r: RevealMsgView)
    ensures
        commit_of(r).commitment == keccak(r.value + r.salt),
        commit_of(r).request_hash == r.request_hash,
        commit_of(r).validator == r.validator,
{
}

/// A signature has 65 bytes where its compact form has 64: that form, and the recovery
/// id behind it.
pub proof fn law_a_signature_ends_with_its_recovery_id(digest: Seq<u8>, secret: Seq<u8>)
    requires
        signature_of(digest, secret).1.len() == 64,
        0 <= signature_of(digest, secret).0 <= 3,
    ensures
        attestation_signature(digest, secret).len() == 65,
        attestation_signature(digest, secret).take(64) == signature_of(digest, secret).1,
        attestation_signature(digest, secret)[64] as int == signature_of(digest, secret).0,
{
    assert(attestation_signature(digest, secret).take(64) =~= signature_of(digest, secret).1);
}

/// The signer of a digest is the account of the key that the first 64 bytes give with
/// the last byte as recovery id: the last 20 bytes of the hash of the key's 64 bytes
/// behind the first. A signature of another length has none.
pub proof fn law_a_signer_is_the_account_of_the_recovered_key(digest: Seq<u8>, sig: Seq<u8>)
    ensures
        sig.len() != 65 ==> recovered_signer(digest, sig) is None,
        sig.len() == 65 ==> (recovered_key(digest, sig.take(64), sig[64] as int) matches Some(key)
            ==> recovered_signer(digest, sig) == Some(
            keccak(key.subrange(1, key.len() as int)).subrange(
                12,
                keccak(key.subrange(1, key.len() as int)).len() as int,
            ),
        )),
        sig.len() == 65 && recovered_key(digest, sig.take(64), sig[64] as int) is None
            ==> recovered_signer(digest, sig) is None,
        forall|key: Seq<u8>|
            #![trigger address_of_key(key)]
            address_of_key(key) == keccak(key.subrange(1, key.len() as int)).subrange(
                12,
                keccak(key.subrange(1, key.len() as int)).len() as int,
            ),
{
}

/// An attestation is fresh exactly while its time is at most 60 seconds ahead of this
/// node's clock and at most 300 seconds behind it.
pub proof fn law_an_attestation_is_fresh_for_five_minutes(timestamp_secs: u64, now_secs: u64)
    ensures
        is_fresh(timestamp_secs, now_secs) <==> -60 <= now_secs - timestamp_secs <= 300,
{
}

/// A verified value answers a call that waits, for 1500 gas; a rejected reveal stops it
/// with the reason; and without a reveal it waits until its time is over, and is
/// stopped only then.
pub proof fn law_a_waiting_call_is_answered_by_its_reveal(
    value: Seq<u8>,
    reason: Seq<char>,
    past_deadline: bool,
)
    ensures
        settled(OutcomeView::Verified(value), past_deadline) == Some(
            AnswerView::Return(1500, value),
        ),
        settled(OutcomeView::Rejected(reason), past_deadline) == Some(
            AnswerView::Halt("API_CALL: reveal rejected: "@ + reason),
        ),
        settled(OutcomeView::Pending, false) is None,
        settled(OutcomeView::Pending, true) == Some(
            AnswerView::Halt("API_CALL: timeout \u{2014} designated fetcher did not reveal"@),
        ),
{
}

/// A look at a reveal keeps a verified value for the request in its block, and nothing
/// else of the store changes.
pub proof fn law_a_look_keeps_a_verified_value_only(
    v: StoreView,
    call: CallView,
    outcome: OutcomeView,
    other: (Seq<u8>, u64),
)
    ensures
        outcome matches OutcomeView::Verified(value) ==> {
            &&& after_look(v, call, outcome).block_cache.dom().contains(
                (call.request_hash, call.block_number),
            )
            &&& after_look(v, call, outcome).block_cache[(call.request_hash, call.block_number)]
                == value
        },
        !(outcome is Verified) ==> after_look(v, call, outcome) == v,
        other != (call.request_hash, call.block_number) ==> after_look(
            v,
            call,
            outcome,
        ).block_cache.get(other) == v.block_cache.get(other),
        after_look(v, call, outcome) == (StoreView {
            block_cache: after_look(v, call, outcome).block_cache,
            ..v
        }),
{
}

/// An answer with a value keeps that value for the request in its block, and nothing
/// else of the store changes.
pub proof fn law_an_answer_is_kept_for_its_block(
    v: StoreView,
    call: CallView,
    value: Seq<u8>,
    other: (Seq<u8>, u64),
)
    ensures
        with_answer(v, call, value).block_cache.get((call.request_hash, call.block_number))
            == Some(value),
        other != (call.request_hash, call.block_number) ==> with_answer(
            v,
            call,
            value,
        ).block_cache.get(other) == v.block_cache.get(other),
        with_answer(v, call, value) == (StoreView {
            block_cache: with_answer(v, call, value).block_cache,
            ..v
        }),
{
}

/// A waiting call looks for the reveal of its own request by the designated fetcher, and
/// judges it for the host of the request's URL.
pub proof fn law_a_waiting_call_looks_for_its_own_reveal(
    v: StoreView,
    after: StoreView,
    call: CallView,
    designated: Seq<u8>,
    now_secs: u64,
    cert_now: (i128, bool),
    past_deadline: bool,
    answer: Option<AnswerView>,
)
    ensures
        awaited_reveal(v, call, designated, now_secs, cert_now) == v.reveal_outcome(
            call.request_hash,
            designated,
            host_of(call.request.0),
            now_secs,
            cert_now,
        ),
        is_look(v, after, call, designated, now_secs, cert_now, past_deadline, answer) <==> answer
            == settled(awaited_reveal(v, call, designated, now_secs, cert_now), past_deadline)
            && after == after_look(
            v,
            call,
            awaited_reveal(v, call, designated, now_secs, cert_now),
        ),
{
}

} // verus!
