use externevm::http::{is_success, judge_reply, plan_http_call, HttpBody, HttpReply};
use externevm::abi::ApiRequest;
use externevm::json::{extract_json_path, resolve_json_path, Json, JsonNumber};
use externevm::response::{encode_json_value, float_text, says_yes};

/// The library's form of a JSON text.
fn json(text: &str) -> Json {
    convert(&serde_json::from_str(text).unwrap())
}

fn convert(value: &serde_json::Value) -> Json {
    match value {
        serde_json::Value::Null => Json::Null,
        serde_json::Value::Bool(b) => Json::Bool(*b),
        serde_json::Value::Number(n) => Json::Number(JsonNumber {
            text: n.to_string(),
            unsigned: n.as_u64(),
            truncated: n.as_f64().map(|f| f as u64),
            nonzero: n.as_f64().map(|f| f != 0.0).unwrap_or(false),
        }),
        serde_json::Value::String(s) => Json::Text(s.clone()),
        serde_json::Value::Array(items) => Json::Array(items.iter().map(convert).collect()),
        serde_json::Value::Object(map) => {
            Json::Object(map.iter().map(|(k, v)| (k.clone(), convert(v))).collect())
        }
    }
}

fn at(text: &str, path: &str) -> Option<String> {
    extract_json_path(&json(text), path).map(|v| v.to_text())
}

fn word(n: u64) -> Vec<u8> {
    let mut w = vec![0u8; 24];
    w.extend_from_slice(&n.to_be_bytes());
    w
}

fn dynamic(data: &[u8]) -> Vec<u8> {
    let mut out = word(32);
    out.extend_from_slice(&word(data.len() as u64));
    out.extend_from_slice(data);
    while out.len() % 32 != 0 {
        out.push(0);
    }
    out
}

fn encode(text: &str, response_type: u8) -> Result<Vec<u8>, String> {
    let value = json(text);
    let reading = float_text(&value, response_type)
        .and_then(|t| t.parse::<f64>().ok())
        .map(|f| f as u64);
    encode_json_value(&value, response_type, reading)
}

#[test]
fn compact_text_is_that_of_serde_json() {
    for text in [
        "null", "true", "false", "0", "-1.5", "1e300", "\"a\\\"b\\n\\u00e9\"", "\"\\\\ \\b\\t\\f\\r\\u0000\\u001f\u{7f}/\u{1F600}\"", "[]", "{}",
        "[1,[2,null],{\"k\":\"v\"}]", "{\"b\":1,\"a\":[true,false],\"\\u0001\":{}}",
    ] {
        let value: serde_json::Value = serde_json::from_str(text).unwrap();
        assert_eq!(convert(&value).to_text(), value.to_string());
    }
}

#[test]
fn paths_lead_through_members_and_elements() {
    let text = "{\"a\":{\"b\":[10,{\"c\":\"x\"}]},\"\":7,\"d e\":1}";
    assert_eq!(at(text, "a.b[0]"), Some("10".into()));
    assert_eq!(at(text, "a.b[1].c"), Some("\"x\"".into()));
    assert_eq!(at(text, "a.b[+1].c"), Some("\"x\"".into()));
    assert_eq!(at(text, "d e"), Some("1".into()));
    assert_eq!(at("[[5,6]]", "[0].[1]"), Some("6".into()));
    assert_eq!(at("{\"a\":[3]}", "a[0x"), Some("3".into()));
    assert_eq!(at("[1]", ""), Some("[1]".into()));
    assert_eq!(at("{\"\":{\"\":2}}", "."), Some("2".into()));
}

#[test]
fn paths_that_lead_nowhere_find_nothing() {
    let text = "{\"a\":{\"b\":[10]}}";
    for path in ["x", "a.x", "a[0]", "a.b[1]", "a.b[]", "a.b[x]", "a.b[-1]", "a.b.0", "a.b[0].c", "a.", "b[0]"] {
        assert_eq!(at(text, path), None, "{}", path);
    }
    assert_eq!(at("[1]", "[0][0]"), None);
    assert_eq!(at("[1]", "[18446744073709551616]"), None);
}

#[test]
fn a_segment_that_cannot_be_cut_is_told_apart() {
    let value = json("{\"a\":[1]}");
    assert!(resolve_json_path(&value, "a[").is_none());
    assert!(resolve_json_path(&value, "[").is_none());
    assert!(resolve_json_path(&value, "a[0\u{e9}").is_none());
    assert!(matches!(resolve_json_path(&value, "x.a["), Some(None)));
    assert!(matches!(resolve_json_path(&value, "a[0]"), Some(Some(_))));
}

#[test]
fn a_path_goes_on_from_its_beginning() {
    let value = json("{\"a\":{\"b\":[10,{\"c\":\"x\"}]}}");
    let inner = extract_json_path(&value, "a.b[1]").unwrap();
    assert_eq!(
        extract_json_path(inner, "c").unwrap().to_text(),
        extract_json_path(&value, "a.b[1].c").unwrap().to_text()
    );
}

#[test]
fn values_go_out_as_bytes() {
    assert_eq!(encode("{\"a\":1}", 0), Ok(dynamic(b"{\"a\":1}")));
    assert_eq!(encode("\"x\"", 0), Ok(dynamic(b"\"x\"")));
}

#[test]
fn values_go_out_as_numbers() {
    assert_eq!(encode("42", 1), Ok(word(42)));
    assert_eq!(encode("18446744073709551615", 1), Ok(word(u64::MAX)));
    assert_eq!(encode("3.99", 1), Ok(word(3)));
    assert_eq!(encode("-7", 1), Ok(word(0)));
    assert_eq!(encode("1e30", 1), Ok(word(u64::MAX)));
    assert_eq!(encode("\"1,234\"", 1), Ok(word(1234)));
    assert_eq!(encode("\"+5\"", 1), Ok(word(5)));
    assert_eq!(encode("\"12.7\"", 1), Ok(word(12)));
    assert_eq!(encode("true", 1), Ok(word(1)));
    assert_eq!(encode("false", 1), Ok(word(0)));
    assert_eq!(encode("\"x,1\"", 1), Err("cannot parse 'x,1' as uint256".into()));
    assert_eq!(encode("null", 1), Err("cannot convert to uint256".into()));
    assert_eq!(encode("[1]", 1), Err("cannot convert to uint256".into()));
    let odd = Json::Number(JsonNumber { text: "n".into(), unsigned: None, truncated: None, nonzero: false });
    assert_eq!(encode_json_value(&odd, 1, None), Err("cannot convert number to uint256".into()));
}

#[test]
fn values_go_out_as_texts() {
    assert_eq!(encode("\"h\u{e9}llo\"", 2), Ok(dynamic("h\u{e9}llo".as_bytes())));
    assert_eq!(encode("[1,2]", 2), Ok(dynamic(b"[1,2]")));
    assert_eq!(encode("\"\"", 2), Ok(dynamic(b"")));
    assert_eq!(encode("\"0123456789abcdef0123456789abcdef\"", 2), Ok(dynamic(b"0123456789abcdef0123456789abcdef")));
}

#[test]
fn values_go_out_as_truth_values() {
    for text in ["true", "1", "-0.5", "\"TRUE\"", "\"yes\"", "\"1\""] {
        assert_eq!(encode(text, 3), Ok(word(1)), "{}", text);
    }
    for text in ["false", "0", "0.0", "\"no\"", "\"\"", "\" true\"", "null", "[1]", "{}"] {
        assert_eq!(encode(text, 3), Ok(word(0)), "{}", text);
    }
    assert!(says_yes("yes"));
    assert!(!says_yes("YES"));
}

#[test]
fn an_unknown_response_type_is_refused() {
    assert_eq!(encode("1", 4), Err("invalid responseType: 4".into()));
    assert_eq!(encode("1", 255), Err("invalid responseType: 255".into()));
}

#[test]
fn only_texts_that_write_no_number_are_read_as_floats() {
    assert_eq!(float_text(&json("\"1,2.5\""), 1), Some("12.5".into()));
    assert_eq!(float_text(&json("\"1,2\""), 1), None);
    assert_eq!(float_text(&json("\"12.5\""), 2), None);
    assert_eq!(float_text(&json("12.5"), 1), None);
    assert_eq!(encode_json_value(&json("\"7\""), 1, Some(9)), encode_json_value(&json("\"7\""), 1, None));
}

fn request(method: &str, headers: &str, body: &[u8]) -> ApiRequest {
    ApiRequest {
        url: "https://a/b".into(),
        method: method.into(),
        headers: headers.as_bytes().to_vec(),
        body: body.to_vec(),
        response_path: "".into(),
        response_type: 0,
    }
}

#[test]
fn a_request_is_sent_with_its_headers_and_its_body() {
    let plan = plan_http_call(&request("GET", "", b"x"), None).unwrap();
    assert!(!plan.post);
    assert_eq!(plan.url, "https://a/b");
    assert_eq!(plan.headers, vec![("User-Agent".to_string(), "ExternEVM/0.8.0".to_string())]);
    assert_eq!(plan.body, None);
    let headers = "{\"A\":\"1\",\"B\":2,\"C\":\"3\"}";
    let plan = plan_http_call(&request("POST", headers, b"xy"), Some(Ok(json(headers)))).unwrap();
    assert!(plan.post);
    assert_eq!(plan.headers[1], ("A".to_string(), "1".to_string()));
    assert_eq!(plan.headers[2], ("C".to_string(), "3".to_string()));
    assert_eq!(plan.headers.len(), 3);
    assert_eq!(plan.body, Some(b"xy".to_vec()));
    assert_eq!(plan_http_call(&request("POST", "", b""), None).unwrap().body, None);
}

#[test]
fn a_request_that_cannot_be_sent_says_why() {
    assert_eq!(plan_http_call(&request("PUT", "", b""), None).unwrap_err(), "unsupported method: PUT");
    assert_eq!(
        plan_http_call(&request("GET", "[]", b""), Some(Ok(json("[]")))).unwrap_err(),
        "headers must be a JSON object"
    );
    assert_eq!(
        plan_http_call(&request("GET", "{", b""), Some(Err("eof".into()))).unwrap_err(),
        "failed to parse headers JSON: eof"
    );
}

#[test]
fn replies_are_taken_or_told_why_not() {
    assert_eq!(judge_reply(HttpReply::NoClient("e".into())).unwrap_err(), "failed to build HTTP client: e");
    assert_eq!(judge_reply(HttpReply::NotSent("e".into())).unwrap_err(), "HTTP request failed: e");
    let answer = |status: u16, body: Result<HttpBody, String>| {
        judge_reply(HttpReply::Answered { status, status_text: format!("{} text", status), body })
    };
    let body = |n: usize, json: Result<Json, String>| Ok(HttpBody { bytes: vec![b' '; n], cert_der: Some(vec![1]), json });
    assert_eq!(answer(200, Err("e".into())).unwrap_err(), "failed to read response body: e");
    assert_eq!(answer(200, body(3, Err("e".into()))).unwrap_err(), "failed to parse response JSON: e");
    assert_eq!(answer(200, body(32_769, Err("e".into()))).unwrap_err(), "response size 32769 exceeds max 32768");
    let taken = answer(299, body(32_768, Ok(Json::Null))).unwrap();
    assert_eq!(taken.body_bytes.len(), 32_768);
    assert_eq!(taken.cert_der, Some(vec![1]));
}

#[test]
fn only_a_status_of_success_is_taken() {
    for status in [100u16, 199, 300, 302, 404, 500] {
        assert!(!is_success(status));
        for body in [Err("not read".to_string()), Ok(HttpBody { bytes: vec![], cert_der: None, json: Ok(Json::Null) })] {
            let reply = HttpReply::Answered { status, status_text: "404 Not Found".into(), body };
            assert_eq!(judge_reply(reply).unwrap_err(), "HTTP 404 Not Found");
        }
    }
    for status in [200u16, 204, 299] {
        assert!(is_success(status));
    }
}
