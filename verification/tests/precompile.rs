use externevm::abi::ApiRequest;
use externevm::attestation::{address_from_secret_key, SigningKey};
use externevm::extern_p2p::{
    can_handle, handle_incoming, Action, Connection, Event, Incoming, Phase, EXTERN_PROTO_MSG_COUNT,
    EXTERN_PROTO_NAME, EXTERN_PROTO_VERSION,
};
use externevm::extern_proto::{compute_request_hash, ExternCommitMsg, ExternDataMsg, ExternRevealMsg};
use externevm::certificate::Moment;
use externevm::externevm::{
    attest_response, attest_with_salt, begin_call, check_request, finish_alone, plan_request,
    poll_reveal, poll_reveal_at, read_response, response_float_text, reveal_wait_ms, settle_reveal,
    update_current_block, Answer, CallStep, PendingCall, API_CALL_ADDRESS, API_CALL_GAS,
    GAS_CACHE_HIT, GAS_FETCH, GAS_VERIFY,
};
use externevm::fetching::{Fetch, FetchAction};
use externevm::http::HttpResult;
use externevm::json::{Json, JsonNumber};
use externevm::primitives::{Address, B256};
use externevm::protocol_store::{ProtocolStore, RevealOutcome};

/// A certificate for `api.example.com`, `*.example.org` and an IP address, with
/// the common name `cn.example.net`, valid from 2020 to 2049.
const CERTIFICATE: [u8; 394] = [
    0x30, 0x82, 0x01, 0x86, 0x30, 0x82, 0x01, 0x2c, 0xa0, 0x03, 0x02, 0x01, 0x02, 0x02, 0x14, 0x37,
    0xfa, 0xb8, 0x92, 0xab, 0x15, 0x8c, 0x0a, 0x12, 0x62, 0x81, 0xd3, 0xee, 0xc1, 0x3a, 0x6d, 0x0a,
    0x18, 0x31, 0xcd, 0x30, 0x0a, 0x06, 0x08, 0x2a, 0x86, 0x48, 0xce, 0x3d, 0x04, 0x03, 0x02, 0x30,
    0x19, 0x31, 0x17, 0x30, 0x15, 0x06, 0x03, 0x55, 0x04, 0x03, 0x0c, 0x0e, 0x63, 0x6e, 0x2e, 0x65,
    0x78, 0x61, 0x6d, 0x70, 0x6c, 0x65, 0x2e, 0x6e, 0x65, 0x74, 0x30, 0x1e, 0x17, 0x0d, 0x32, 0x30,
    0x30, 0x31, 0x30, 0x31, 0x30, 0x30, 0x30, 0x30, 0x30, 0x30, 0x5a, 0x17, 0x0d, 0x34, 0x39, 0x31,
    0x32, 0x33, 0x31, 0x32, 0x33, 0x35, 0x39, 0x35, 0x39, 0x5a, 0x30, 0x19, 0x31, 0x17, 0x30, 0x15,
    0x06, 0x03, 0x55, 0x04, 0x03, 0x0c, 0x0e, 0x63, 0x6e, 0x2e, 0x65, 0x78, 0x61, 0x6d, 0x70, 0x6c,
    0x65, 0x2e, 0x6e, 0x65, 0x74, 0x30, 0x59, 0x30, 0x13, 0x06, 0x07, 0x2a, 0x86, 0x48, 0xce, 0x3d,
    0x02, 0x01, 0x06, 0x08, 0x2a, 0x86, 0x48, 0xce, 0x3d, 0x03, 0x01, 0x07, 0x03, 0x42, 0x00, 0x04,
    0x46, 0x5f, 0x13, 0x40, 0xd3, 0xbd, 0x74, 0xd7, 0x29, 0x3c, 0xbe, 0xed, 0xf7, 0xe4, 0x11, 0xb9,
    0xc8, 0xa0, 0x89, 0x55, 0x21, 0x50, 0xb7, 0xdc, 0xaf, 0x99, 0x80, 0x56, 0x87, 0x87, 0x90, 0x00,
    0x23, 0x58, 0xb5, 0xc0, 0xf7, 0x39, 0xd2, 0x20, 0x05, 0xc0, 0xbc, 0x38, 0x9a, 0x4a, 0x74, 0xed,
    0x87, 0x03, 0x67, 0xf8, 0x23, 0x47, 0x30, 0x6a, 0x08, 0xfd, 0xfd, 0x27, 0x86, 0x9f, 0x24, 0xe5,
    0xa3, 0x52, 0x30, 0x50, 0x30, 0x2f, 0x06, 0x03, 0x55, 0x1d, 0x11, 0x04, 0x28, 0x30, 0x26, 0x82,
    0x0f, 0x61, 0x70, 0x69, 0x2e, 0x65, 0x78, 0x61, 0x6d, 0x70, 0x6c, 0x65, 0x2e, 0x63, 0x6f, 0x6d,
    0x82, 0x0d, 0x2a, 0x2e, 0x65, 0x78, 0x61, 0x6d, 0x70, 0x6c, 0x65, 0x2e, 0x6f, 0x72, 0x67, 0x87,
    0x04, 0xc0, 0x00, 0x02, 0x01, 0x30, 0x1d, 0x06, 0x03, 0x55, 0x1d, 0x0e, 0x04, 0x16, 0x04, 0x14,
    0x4d, 0xb4, 0x44, 0x9b, 0x4f, 0x3e, 0xc6, 0xd4, 0x20, 0xf1, 0x75, 0x2c, 0x8e, 0xa0, 0xee, 0xe7,
    0xf0, 0x0e, 0x74, 0x52, 0x30, 0x0a, 0x06, 0x08, 0x2a, 0x86, 0x48, 0xce, 0x3d, 0x04, 0x03, 0x02,
    0x03, 0x48, 0x00, 0x30, 0x45, 0x02, 0x21, 0x00, 0xca, 0x28, 0x47, 0x08, 0x5f, 0x8c, 0xc3, 0xf6,
    0x43, 0x55, 0x1d, 0x85, 0xfe, 0x37, 0xf3, 0x29, 0xc1, 0x27, 0x13, 0x6c, 0xa0, 0x43, 0x1e, 0x01,
    0x04, 0xf6, 0xc7, 0x97, 0x0b, 0x75, 0xa8, 0x26, 0x02, 0x20, 0x43, 0x0d, 0xc9, 0x09, 0xdf, 0xe4,
    0x1c, 0x2f, 0x73, 0x54, 0xe3, 0x59, 0x07, 0xc5, 0x71, 0x2c, 0xe5, 0x17, 0xd6, 0x8f, 0x38, 0x96,
    0x99, 0xeb, 0x49, 0xb3, 0x21, 0xad, 0x59, 0x32, 0x2b, 0x9c,
];

fn word(n: u64) -> Vec<u8> {
    let mut w = vec![0u8; 24];
    w.extend_from_slice(&n.to_be_bytes());
    w
}

fn dynamic(data: &[u8]) -> Vec<u8> {
    let mut out = word(data.len() as u64);
    out.extend_from_slice(data);
    while out.len() % 32 != 0 {
        out.push(0);
    }
    out
}

/// The bytes of a call: an offset to the tuple, its head and its tail.
fn call_data(url: &str, method: &str, headers: &[u8], body: &[u8], path: &str, response_type: u64) -> Vec<u8> {
    let parts = [url.as_bytes(), method.as_bytes(), headers, body, path.as_bytes()];
    let mut head = Vec::new();
    let mut tail = Vec::new();
    for part in parts {
        head.extend_from_slice(&word(6 * 32 + tail.len() as u64));
        tail.extend_from_slice(&dynamic(part));
    }
    head.extend_from_slice(&word(response_type));
    let mut data = word(32);
    data.extend_from_slice(&head);
    data.extend_from_slice(&tail);
    data
}

fn price_request(url: &str) -> ApiRequest {
    ApiRequest {
        url: url.into(),
        method: "GET".into(),
        headers: vec![],
        body: vec![],
        response_path: "price".into(),
        response_type: 1,
    }
}

fn price(n: u64) -> Json {
    Json::Object(vec![(
        "price".into(),
        Json::Number(JsonNumber { text: n.to_string(), unsigned: Some(n), truncated: Some(n), nonzero: n != 0 }),
    )])
}

fn response(json: Json, cert_der: Option<Vec<u8>>) -> Result<HttpResult, String> {
    Ok(HttpResult { json, body_bytes: b"{\"price\":5}".to_vec(), cert_der })
}

fn returned(answer: Answer) -> (u64, Vec<u8>) {
    match answer {
        Answer::Return { gas_used, output } => (gas_used, output),
        other => panic!("{:?}", other),
    }
}

fn halted(answer: Answer) -> String {
    match answer {
        Answer::Halt(reason) => reason,
        other => panic!("{:?}", other),
    }
}

fn answered(step: CallStep) -> Answer {
    match step {
        CallStep::Answered(answer) => answer,
        other => panic!("{:?}", other),
    }
}

const URL: &str = "https://api.example.com/price";

fn me() -> Address {
    Address::from([1; 20])
}

fn registry(n: u8) -> ProtocolStore {
    let mut store = ProtocolStore::new();
    for i in 1..=n {
        store.register_validator(Address::from([i; 20]));
    }
    store
}

#[test]
fn the_precompile_stands_at_aa() {
    assert_eq!(API_CALL_ADDRESS[19], 0xAA);
    assert_eq!(API_CALL_ADDRESS[..19], [0; 19]);
}

#[test]
fn an_empty_call_returns_1234() {
    let store = registry(0);
    assert_eq!(returned(answered(begin_call(&store, me(), 1, &[], 100))), (GAS_CACHE_HIT, word(1234)));
    assert!(matches!(answered(begin_call(&store, me(), 1, &[], 99)), Answer::OutOfGas));
}

#[test]
fn a_call_that_is_no_request_halts() {
    let store = registry(0);
    assert_eq!(
        halted(answered(begin_call(&store, me(), 1, &[1, 2, 3], 100_000))),
        "API_CALL: failed to decode ApiRequest"
    );
}

#[test]
fn a_call_is_decoded() {
    let store = registry(1);
    let data = call_data(URL, "POST", b"{}", &[1, 2, 3], "a.b", 3);
    match begin_call(&store, me(), 7, &data, API_CALL_GAS) {
        CallStep::FetchAlone(call) => {
            assert_eq!(call.request.url, URL);
            assert_eq!(call.request.method, "POST");
            assert_eq!(call.request.headers, b"{}".to_vec());
            assert_eq!(call.request.body, vec![1, 2, 3]);
            assert_eq!(call.request.response_path, "a.b");
            assert_eq!(call.request.response_type, 3);
            assert_eq!(call.block_number, 7);
            assert_eq!(call.request_hash, compute_request_hash(URL, "POST", "a.b", 3));
        }
        other => panic!("{:?}", other),
    }
}

#[test]
fn requests_against_the_rules_halt() {
    let store = registry(1);
    let halt = |url: &str, method: &str, body: usize, response_type: u64| {
        halted(answered(begin_call(
            &store, me(), 1, &call_data(url, method, &[], &vec![0; body], "", response_type), u64::MAX,
        )))
    };
    assert_eq!(halt("", "PUT", 0, 9), "API_CALL: url is empty");
    assert_eq!(halt("ftp://x", "PUT", 0, 9), "API_CALL: url must start with http:// or https://");
    assert_eq!(halt("HTTPS://x", "GET", 0, 0), "API_CALL: url must start with http:// or https://");
    assert_eq!(halt("http://LocalHost/", "PUT", 0, 9), "API_CALL: private/loopback URLs are blocked");
    assert_eq!(halt(URL, "get", 0, 9), "API_CALL: method must be GET or POST");
    assert_eq!(halt(URL, "GET", 4097, 9), "API_CALL: body exceeds max size");
    assert_eq!(halt(URL, "GET", 4096, 4), "API_CALL: responseType must be 0-3");
    assert!(check_request(&price_request(URL), false).is_ok());
    assert!(check_request(&price_request(URL), true).is_err());
}

#[test]
fn gas_is_asked_for_before_any_work() {
    let alone = registry(1);
    assert!(matches!(plan_request(&alone, me(), 1, price_request(URL), false, 2999), CallStep::Answered(Answer::OutOfGas)));
    assert!(matches!(plan_request(&alone, me(), 1, price_request(URL), false, 3000), CallStep::FetchAlone(_)));
    let store = registry(2);
    let hash = compute_request_hash(URL, "GET", "price", 1);
    let fetcher = store.designate_fetcher(hash).unwrap();
    let other = Address::from([if fetcher.0[0] == 1 { 2 } else { 1 }; 20]);
    assert!(matches!(plan_request(&store, fetcher, 1, price_request(URL), false, 11_999), CallStep::Answered(Answer::OutOfGas)));
    assert!(matches!(plan_request(&store, fetcher, 1, price_request(URL), false, 12_000), CallStep::FetchAndAttest(_)));
    assert!(matches!(plan_request(&store, other, 1, price_request(URL), false, 1_499), CallStep::Answered(Answer::OutOfGas)));
    match plan_request(&store, other, 1, price_request(URL), false, 1_500) {
        CallStep::AwaitReveal(call, designated) => {
            assert_eq!(designated, fetcher);
            assert_eq!(call.request_hash, hash);
        }
        step => panic!("{:?}", step),
    }
}

#[test]
fn a_node_without_peers_fetches_and_keeps_the_value() {
    let mut store = registry(1);
    let call = match plan_request(&store, me(), 5, price_request(URL), false, 3000) {
        CallStep::FetchAlone(call) => call,
        other => panic!("{:?}", other),
    };
    let http = response(price(42), None);
    assert_eq!(response_float_text(&call.request, &http), None);
    assert_eq!(returned(finish_alone(&mut store, &call, &http, None)), (API_CALL_GAS, word(42)));
    let again = plan_request(&store, me(), 5, price_request(URL), false, 100);
    assert_eq!(returned(answered(again)), (GAS_CACHE_HIT, word(42)));
    let again = plan_request(&store, me(), 5, price_request(URL), false, 99);
    assert!(matches!(answered(again), Answer::OutOfGas));
    assert!(matches!(plan_request(&store, me(), 6, price_request(URL), false, 3000), CallStep::FetchAlone(_)));
}

#[test]
fn a_call_halts_where_the_response_is_of_no_use() {
    let mut store = registry(1);
    let call = PendingCall { request: price_request(URL), request_hash: B256::zero(), block_number: 1 };
    let text = |http: Result<HttpResult, String>, store: &mut ProtocolStore| halted(finish_alone(store, &call, &http, None));
    assert_eq!(text(Err("HTTP 500".into()), &mut store), "API_CALL: HTTP error: HTTP 500");
    assert_eq!(text(response(Json::Null, None), &mut store), "API_CALL: JSON path not found");
    let list = Json::Object(vec![("price".into(), Json::Array(vec![]))]);
    assert_eq!(text(response(list, None), &mut store), "API_CALL: encode error: cannot convert to uint256");
    assert!(store.check_cache(B256::zero(), 1).is_none());
}

#[test]
fn a_text_is_read_as_a_float_where_it_is_no_number() {
    let request = price_request(URL);
    let http = response(Json::Object(vec![("price".into(), Json::Text("1,000.5".into()))]), None);
    assert_eq!(response_float_text(&request, &http), Some("1000.5".into()));
    assert_eq!(read_response(&request, &http, Some(1000)), Ok(word(1000)));
    assert_eq!(
        read_response(&request, &http, None),
        Err("API_CALL: encode error: cannot parse '1,000.5' as uint256".into())
    );
    assert_eq!(response_float_text(&request, &Err("x".into())), None);
}

#[test]
fn a_fetcher_needs_a_certificate_and_a_key() {
    let sk = SigningKey::from_bytes([0x11; 32]).unwrap();
    let call = PendingCall { request: price_request(URL), request_hash: B256::zero(), block_number: 1 };
    let fault = |http: Result<HttpResult, String>, key: Option<&SigningKey>| {
        attest_response(&call, me(), &http, None, key, 10).unwrap_err()
    };
    let no_cert = "API_CALL: v4 attestation requires HTTPS (no TLS certificate captured)";
    assert_eq!(fault(response(price(5), None), Some(&sk)), no_cert);
    assert_eq!(fault(response(price(5), Some(vec![])), None), no_cert);
    assert_eq!(
        fault(response(price(5), Some(vec![1])), None),
        "API_CALL: EXTERNEVM_VALIDATOR_PRIVKEY not set (required to sign v4 attestation)"
    );
    assert_eq!(fault(Err("e".into()), None), "API_CALL: HTTP error: e");
    assert_eq!(fault(response(Json::Null, None), None), "API_CALL: JSON path not found");
}

#[test]
fn salts_are_drawn_anew() {
    let sk = SigningKey::from_bytes([0x11; 32]).unwrap();
    let call = PendingCall { request: price_request(URL), request_hash: B256::zero(), block_number: 1 };
    let http = response(price(5), Some(vec![1]));
    let (commit_a, reveal_a) = attest_response(&call, me(), &http, None, Some(&sk), 10).unwrap();
    let (commit_b, reveal_b) = attest_response(&call, me(), &http, None, Some(&sk), 10).unwrap();
    assert_ne!(reveal_a.salt, reveal_b.salt);
    assert_ne!(commit_a.commitment, commit_b.commitment);
    assert_eq!(reveal_a.attestation_sig, reveal_b.attestation_sig);
}

/// A fetcher and a peer, with the call that the fetcher answers.
fn fetched() -> (SigningKey, Address, PendingCall, ExternCommitMsg, ExternRevealMsg) {
    let sk = SigningKey::from_bytes([0x11; 32]).unwrap();
    let fetcher = address_from_secret_key(&sk);
    let request = price_request(URL);
    let request_hash = compute_request_hash(&request.url, &request.method, &request.response_path, 1);
    let call = PendingCall { request, request_hash, block_number: 3 };
    let http = response(price(5), Some(CERTIFICATE.to_vec()));
    let (commit, reveal) = attest_with_salt(&call, fetcher, &http, None, Some(&sk), 1000, [8; 32]).unwrap();
    (sk, fetcher, call, commit, reveal)
}

fn wire(kind: u8, encode: &dyn Fn(&mut Vec<u8>)) -> Vec<u8> {
    let mut bytes = vec![kind];
    encode(&mut bytes);
    bytes
}

#[test]
fn a_reveal_carries_what_was_fetched() {
    let (_, fetcher, call, commit, reveal) = fetched();
    assert_eq!(reveal.value, word(5));
    assert_eq!(reveal.salt, B256::from([8; 32]));
    assert_eq!(reveal.validator, fetcher);
    assert_eq!(reveal.request_hash, call.request_hash);
    assert_eq!(reveal.timestamp_secs, 1000);
    assert_eq!(reveal.cert_der, CERTIFICATE.to_vec());
    assert_eq!(reveal.response_hash.0, alloy_primitives::keccak256(b"{\"price\":5}").0);
    let mut preimage = word(5);
    preimage.extend_from_slice(&[8; 32]);
    assert_eq!(commit.commitment.0, alloy_primitives::keccak256(&preimage).0);
    assert_eq!((commit.request_hash, commit.validator), (call.request_hash, fetcher));
}

#[test]
fn what_an_honest_fetcher_sends_is_believed() {
    let (_, fetcher, call, commit, reveal) = fetched();
    let mut peer = registry(1);
    assert!(poll_reveal(&mut peer, &call, fetcher, 1001, false).is_none());
    let committed = handle_incoming(&mut peer, &wire(1, &|out| commit.encode(out)), 77);
    assert!(matches!(committed, Incoming::Commit(m) if m == commit));
    assert!(peer.is_validator(&fetcher));
    assert!(poll_reveal(&mut peer, &call, fetcher, 1001, false).is_none());
    let revealed = handle_incoming(&mut peer, &wire(2, &|out| reveal.encode(out)), 78);
    assert!(matches!(revealed, Incoming::Reveal(message, true) if message == reveal));
    let answer = poll_reveal(&mut peer, &call, fetcher, 1001, true).unwrap();
    assert_eq!(returned(answer), (GAS_VERIFY, word(5)));
    assert_eq!(peer.check_cache(call.request_hash, 3), Some(word(5)));
}

#[test]
fn a_fetcher_commits_waits_reveals_and_answers() {
    let (sk, fetcher, call, commit, reveal) = fetched();
    let hash = call.request_hash;
    let http = response(price(5), Some(CERTIFICATE.to_vec()));
    let mut fetch = Fetch::begin_with_salt(call, fetcher, &http, None, Some(&sk), 1000, [8; 32]).unwrap();
    let mut store = registry(2);
    assert!(store.get_commitment(hash, fetcher).is_none());
    assert!(matches!(fetch.step(&mut store, 5, 70), Some(FetchAction::SendCommit(m)) if m == commit));
    assert_eq!(store.get_commitment(hash, fetcher), Some(commit.commitment));
    assert!(matches!(fetch.step(&mut store, 6, 71), Some(FetchAction::Wait(71))));
    assert!(matches!(fetch.step(&mut store, 7, 72), Some(FetchAction::SendReveal(m)) if m == reveal));
    assert!(store.check_cache(hash, 3).is_none());
    match fetch.step(&mut store, 8, 73) {
        Some(FetchAction::Finish(answer)) => assert_eq!(returned(answer), (GAS_FETCH, word(5))),
        other => panic!("{:?}", other),
    }
    assert_eq!(store.check_cache(hash, 3), Some(word(5)));
    assert!(fetch.step(&mut store, 9, 74).is_none());
}

#[test]
fn a_fetch_that_cannot_be_attested_does_not_begin() {
    let (sk, fetcher, call, _, _) = fetched();
    let fault = Fetch::begin(call, fetcher, &response(price(5), None), None, Some(&sk), 1000).unwrap_err();
    assert_eq!(fault, "API_CALL: v4 attestation requires HTTPS (no TLS certificate captured)");
    let (sk, fetcher, call, _, reveal) = fetched();
    let http = response(price(5), Some(CERTIFICATE.to_vec()));
    let mut fetch = Fetch::begin(call, fetcher, &http, None, Some(&sk), 1000).unwrap();
    let mut store = registry(2);
    fetch.step(&mut store, 0, 0);
    fetch.step(&mut store, 0, 0);
    match fetch.step(&mut store, 0, 0) {
        Some(FetchAction::SendReveal(m)) => {
            assert_ne!(m.salt, reveal.salt);
            assert_eq!(m.attestation_sig, reveal.attestation_sig);
        }
        other => panic!("{:?}", other),
    }
}

#[test]
fn a_reveal_is_believed_within_the_validity_of_its_certificate_only() {
    let (_, fetcher, call, commit, reveal) = fetched();
    let mut peer = registry(1);
    handle_incoming(&mut peer, &wire(1, &|out| commit.encode(out)), 0);
    handle_incoming(&mut peer, &wire(2, &|out| reveal.encode(out)), 0);
    let at = |year_secs: i128| Moment { nanos: year_secs * 1_000_000_000, generalized: false };
    let early = poll_reveal_at(&mut peer, &call, fetcher, 1001, at(1_577_836_799), false).unwrap();
    assert_eq!(
        halted(early),
        "API_CALL: reveal rejected: cert validation failed: certificate outside its validity period"
    );
    let first = poll_reveal_at(&mut peer, &call, fetcher, 1001, at(1_577_836_800), false).unwrap();
    assert_eq!(returned(first), (GAS_VERIFY, word(5)));
}

#[test]
fn a_rejected_reveal_and_a_missed_deadline_halt_the_call() {
    let (_, fetcher, call, _, reveal) = fetched();
    let mut peer = registry(1);
    handle_incoming(&mut peer, &wire(2, &|out| reveal.encode(out)), 0);
    let answer = poll_reveal(&mut peer, &call, fetcher, 1001, false).unwrap();
    assert_eq!(halted(answer), "API_CALL: reveal rejected: commitment mismatch");
    let late = poll_reveal(&mut peer, &call, Address::from([9; 20]), 1001, true).unwrap();
    assert_eq!(halted(late), "API_CALL: timeout \u{2014} designated fetcher did not reveal");
    assert!(settle_reveal(&mut peer, &call, RevealOutcome::Pending, false).is_none());
    let taken = settle_reveal(&mut peer, &call, RevealOutcome::Verified(vec![1]), true).unwrap();
    assert_eq!(returned(taken), (GAS_VERIFY, vec![1]));
    assert_eq!(reveal_wait_ms(200, 300), 500);
}

#[test]
fn another_block_forgets_old_values() {
    let mut store = registry(1);
    let mut current = 0u64;
    store.populate_cache(B256::zero(), 4, vec![4]);
    store.populate_cache(B256::zero(), 5, vec![5]);
    update_current_block(&mut store, &mut current, 6);
    assert_eq!(current, 6);
    assert!(store.check_cache(B256::zero(), 4).is_none());
    assert_eq!(store.check_cache(B256::zero(), 5), Some(vec![5]));
}

#[test]
fn the_subprotocol_is_extern_1_with_three_messages() {
    assert_eq!((EXTERN_PROTO_NAME, EXTERN_PROTO_VERSION, EXTERN_PROTO_MSG_COUNT), ("extern", 1, 3));
}

fn data_msg(request_hash: B256) -> ExternDataMsg {
    ExternDataMsg { request_hash, value: vec![1, 2], response_type: 1, validator: Address::from([6; 20]) }
}

#[test]
fn a_value_from_a_peer_is_submitted() {
    let mut store = registry(1);
    let rid = store.generate_request_id(100, 0);
    store.create_request(rid, 100, URL.into(), "GET".into(), vec![], vec![], "".into(), 1);
    let bytes = wire(0, &|out| data_msg(rid).encode(out));
    assert!(can_handle(&store, &bytes));
    assert!(matches!(handle_incoming(&mut store, &bytes, 0), Incoming::Data(_, None)));
    assert!(store.is_validator(&Address::from([6; 20])));
    assert_eq!(store.get_submissions(&rid)[0].value, vec![1, 2]);
    match handle_incoming(&mut store, &bytes, 0) {
        Incoming::Data(_, refused) => assert_eq!(refused.unwrap(), "Validator already submitted"),
        other => panic!("{:?}", other),
    }
    let bytes = wire(0, &|out| data_msg(B256::zero()).encode(out));
    match handle_incoming(&mut store, &bytes, 0) {
        Incoming::Data(_, refused) => assert_eq!(refused.unwrap(), "Request not found"),
        other => panic!("{:?}", other),
    }
}

#[test]
fn a_window_that_does_not_end_is_told() {
    let mut store = registry(1);
    let rid = store.generate_request_id(100, 0);
    store.create_request(rid, u64::MAX - 1, URL.into(), "GET".into(), vec![], vec![], "".into(), 1);
    assert!(!can_handle(&store, &wire(0, &|out| data_msg(rid).encode(out))));
    assert!(can_handle(&store, &wire(0, &|out| data_msg(B256::zero()).encode(out))));
    assert!(can_handle(&store, &[]));
}

#[test]
fn noise_leaves_the_store_alone() {
    let mut store = registry(1);
    assert!(matches!(handle_incoming(&mut store, &[], 0), Incoming::Nothing));
    assert!(matches!(handle_incoming(&mut store, &[3, 1], 0), Incoming::Unknown(3)));
    for kind in 0..3u8 {
        assert!(matches!(handle_incoming(&mut store, &[kind, 0xC0], 0), Incoming::Unreadable(k) if k == kind));
    }
    assert_eq!(store.validator_count(), 1);
}

fn sent(action: Action) -> Vec<u8> {
    match action {
        Action::Send(bytes) => bytes,
        other => panic!("{:?}", other),
    }
}

#[test]
fn a_round_goes_from_the_peer_to_the_channels() {
    let mut store = registry(1);
    let mut conn = Connection::new();
    assert!(matches!(conn.step(&mut store, Event::Polled, 0).0, Action::AskPeer));
    assert!(matches!(conn.step(&mut store, Event::PeerSent(vec![9]), 0), (Action::AskPeer, Some(Incoming::Unknown(9)))));
    assert!(matches!(conn.step(&mut store, Event::PeerSilent, 0).0, Action::AskData));
    assert!(matches!(conn.step(&mut store, Event::ChannelLagged, 0).0, Action::AskData));
    assert!(matches!(conn.step(&mut store, Event::ChannelEmpty, 0).0, Action::AskCommit));
    assert!(matches!(conn.step(&mut store, Event::ChannelEmpty, 0).0, Action::AskReveal));
    assert!(matches!(conn.step(&mut store, Event::ChannelEmpty, 0).0, Action::Wait));
    assert_eq!(conn.phase(), Phase::Start);
}

#[test]
fn messages_go_out_in_the_order_in_which_they_came() {
    let (_, _, _, commit, reveal) = fetched();
    let mut store = registry(1);
    let mut conn = Connection::new();
    let data = data_msg(B256::zero());
    let expected = [
        wire(0, &|out| data.encode(out)),
        wire(1, &|out| commit.encode(out)),
        wire(2, &|out| reveal.encode(out)),
    ];
    conn.step(&mut store, Event::Polled, 0);
    conn.step(&mut store, Event::PeerSilent, 0);
    assert!(matches!(conn.step(&mut store, Event::Data(data.clone()), 0).0, Action::AskData));
    conn.step(&mut store, Event::ChannelEmpty, 0);
    assert!(matches!(conn.step(&mut store, Event::Commit(commit.clone()), 0).0, Action::AskCommit));
    conn.step(&mut store, Event::ChannelEmpty, 0);
    assert!(matches!(conn.step(&mut store, Event::Reveal(reveal.clone()), 0).0, Action::AskReveal));
    assert_eq!(sent(conn.step(&mut store, Event::ChannelEmpty, 0).0), expected[0]);
    assert_eq!(sent(conn.step(&mut store, Event::Polled, 0).0), expected[1]);
    assert_eq!(sent(conn.step(&mut store, Event::Polled, 0).0), expected[2]);
    assert!(matches!(conn.step(&mut store, Event::Polled, 0).0, Action::AskPeer));
}

#[test]
fn a_closed_peer_or_channel_closes_the_stream() {
    let mut store = registry(1);
    let mut conn = Connection::new();
    conn.step(&mut store, Event::Polled, 0);
    assert!(matches!(conn.step(&mut store, Event::PeerClosed, 0).0, Action::Close));
    conn.step(&mut store, Event::Polled, 0);
    conn.step(&mut store, Event::PeerSilent, 0);
    assert!(matches!(conn.step(&mut store, Event::ChannelClosed, 0).0, Action::Close));
}
