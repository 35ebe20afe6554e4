use hyper_api::json::{decode_json, json_response, string_member};
use hyper_api::handlers::player_response;
use hyper_api::error::LibError;
use hyper_api::response::{
    create_response_body, empty, full, names_match, set_header, Body, Header, HttpResponse,
};
use hyper_api::transform::Transform;

fn values(resp: &HttpResponse, name: &str) -> Vec<Vec<u8>> {
    resp.headers
        .iter()
        .filter(|h| h.name.eq_ignore_ascii_case(name.as_bytes()))
        .map(|h| h.value.clone())
        .collect()
}

fn sample() -> serde_json::Value {
    serde_json::from_slice(br#"{"name":"Ada","tags":[1,2,{"x":null}],"ok":true}"#).unwrap()
}

#[test]
fn builder_defaults() {
    let resp = HttpResponse::builder().empty();
    assert_eq!(resp.status, 200);
    assert!(resp.headers.is_empty());
    assert!(matches!(resp.body, Body::Empty));
}

#[test]
fn builder_keeps_status_and_headers() {
    let resp = HttpResponse::builder()
        .status_code(202)
        .header(("X-Trace", "1"))
        .body(b"done".to_vec())
        .unwrap();
    assert_eq!(resp.status, 202);
    assert_eq!(values(&resp, "x-trace"), vec![b"1".to_vec()]);
    assert_eq!(resp.body_bytes(&Vec::new()), b"done".to_vec());
}

#[test]
fn header_replaces_without_regard_to_case() {
    let resp = HttpResponse::builder()
        .header(("X-A", "1"))
        .header(("x-b", "2"))
        .header(("x-a", "3"))
        .empty();
    assert_eq!(resp.headers.len(), 2);
    assert_eq!(resp.headers[0].name, b"x-b".to_vec());
    assert_eq!(resp.headers[1].name, b"x-a".to_vec());
    assert_eq!(resp.headers[1].value, b"3".to_vec());
}

#[test]
fn name_comparison_ignores_case() {
    assert!(names_match(b"Content-Type", b"content-type"));
    assert!(!names_match(b"content-type", b"content-typ"));
    assert!(!names_match(b"a", b"b"));
    assert!(names_match(b"", b""));
}

#[test]
fn set_header_keeps_order() {
    let hs = vec![
        Header { name: b"a".to_vec(), value: b"1".to_vec() },
        Header { name: b"B".to_vec(), value: b"2".to_vec() },
        Header { name: b"c".to_vec(), value: b"3".to_vec() },
    ];
    let out = set_header(&hs, b"b", b"9");
    let names: Vec<Vec<u8>> = out.iter().map(|h| h.name.clone()).collect();
    assert_eq!(names, vec![b"a".to_vec(), b"c".to_vec(), b"b".to_vec()]);
    assert_eq!(out[2].value, b"9".to_vec());
}

#[test]
fn json_overrides_content_type() {
    let value = sample();
    let resp = HttpResponse::builder()
        .status_code(201)
        .header(("Content-Type", "text/plain"))
        .header(("X-Other", "kept"))
        .json(&value)
        .unwrap();
    assert_eq!(resp.status, 201);
    assert_eq!(values(&resp, "content-type"), vec![b"application/json".to_vec()]);
    assert_eq!(values(&resp, "x-other"), vec![b"kept".to_vec()]);
    let back: serde_json::Value = serde_json::from_slice(&resp.body_bytes(&Vec::new())).unwrap();
    assert_eq!(back, value);
}

#[test]
fn json_round_trip_through_library() {
    let value = sample();
    let resp = json_response(&value).unwrap();
    assert_eq!(resp.status, 200);
    assert_eq!(resp.headers.len(), 1);
    let back = decode_json(&resp.body_bytes(&Vec::new())).unwrap();
    assert_eq!(back, value);
}

#[test]
fn json_encoding_failure_is_reported() {
    let err = serde_json::from_str::<serde_json::Value>("{").unwrap_err();
    let r = HttpResponse::builder().json_encoded(Err(err));
    assert!(matches!(r, Err(LibError::Serialization(_))));
    let ok = HttpResponse::builder().json_encoded(Ok(b"[1]".to_vec())).unwrap();
    assert_eq!(ok.body_bytes(&Vec::new()), b"[1]".to_vec());
    assert_eq!(values(&ok, "content-type"), vec![b"application/json".to_vec()]);
}

#[test]
fn decoding_reports_malformed_payload() {
    assert!(matches!(decode_json(b"{\"a\":"), Err(LibError::JsonParseError(_))));
    assert!(matches!(decode_json(b""), Err(LibError::JsonParseError(_))));
}

#[test]
fn string_member_reads_names() {
    let v = sample();
    assert_eq!(string_member(&v, "name"), Some("Ada".to_string()));
    assert_eq!(string_member(&v, "ok"), None);
    assert_eq!(string_member(&v, "missing"), None);
    let arr = decode_json(b"[\"name\"]").unwrap();
    assert_eq!(string_member(&arr, "name"), None);
}

#[test]
fn player_response_outcomes() {
    let r = player_response(None, Ok(b"{}".to_vec()));
    assert!(matches!(r, Err(LibError::InvalidPayload)));
    let err = serde_json::from_str::<serde_json::Value>("[").unwrap_err();
    let r = player_response(Some("Ada".to_string()), Err(err));
    assert!(matches!(r, Err(LibError::Serialization(_))));
    let r = player_response(Some("Ada".to_string()), Ok(b"{\"name\":\"Ada\"}".to_vec())).unwrap();
    assert_eq!(r.status, 201);
    assert_eq!(r.body_bytes(&Vec::new()), b"{\"name\":\"Ada\"}".to_vec());
}

#[test]
fn body_constructors() {
    assert!(matches!(empty(), Body::Empty));
    assert!(matches!(full(b"x".to_vec()), Body::Full(ref b) if b == b"x"));
    let resp = create_response_body(Body::Stream(Transform::Uppercase));
    assert_eq!(resp.status, 200);
    assert_eq!(resp.body_bytes(&vec![b"a".to_vec(), b"b".to_vec()]), b"AB".to_vec());
    let nf = HttpResponse::not_found();
    assert_eq!(nf.status, 404);
    assert!(nf.body_bytes(&vec![b"a".to_vec()]).is_empty());
}
