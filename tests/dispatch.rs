use hyper_api::body::MAX_BODY_SIZE;
use hyper_api::error::LibError;
use hyper_api::handlers::BodyPlan;
use hyper_api::handlers::{error_response, example_router, serve, Endpoint, INDEX_TEXT, TOO_LARGE_TEXT};
use hyper_api::response::Body;
use hyper_api::router::{Dispatch, Route, Router};
use hyper_api::transform::Transform;

fn chunks(parts: &[&[u8]]) -> Vec<Vec<u8>> {
    parts.iter().map(|p| p.to_vec()).collect()
}

fn header_values(resp: &hyper_api::response::HttpResponse, name: &str) -> Vec<Vec<u8>> {
    resp.headers
        .iter()
        .filter(|h| h.name.eq_ignore_ascii_case(name.as_bytes()))
        .map(|h| h.value.clone())
        .collect()
}

#[test]
fn index_page_greets() {
    let router = example_router();
    let req = chunks(&[]);
    let resp = serve(&router, "GET", "/", &req).unwrap();
    assert_eq!(resp.status, 200);
    assert_eq!(resp.body_bytes(&req), b"Try POSTing data to /echo".to_vec());
    assert_eq!(INDEX_TEXT, "Try POSTing data to /echo");
}

#[test]
fn echo_returns_body() {
    let router = example_router();
    let req = chunks(&[b"abc"]);
    let resp = serve(&router, "POST", "/echo", &req).unwrap();
    assert_eq!(resp.status, 200);
    assert!(matches!(resp.body, Body::Stream(Transform::Identity)));
    assert_eq!(resp.body_bytes(&req), b"abc".to_vec());
}

#[test]
fn echo_uppercase_maps_bytes() {
    let router = example_router();
    let req = chunks(&[b"abc"]);
    let resp = serve(&router, "POST", "/echo/uppercase", &req).unwrap();
    assert_eq!(resp.status, 200);
    assert_eq!(resp.body_bytes(&req), b"ABC".to_vec());
}

#[test]
fn echo_reversed_reverses() {
    let router = example_router();
    let req = chunks(&[b"abc"]);
    let resp = serve(&router, "POST", "/echo/reversed", &req).unwrap();
    assert_eq!(resp.status, 200);
    assert_eq!(resp.body_bytes(&req), b"cba".to_vec());
}

#[test]
fn echo_reversed_across_chunks() {
    let router = example_router();
    let req = chunks(&[b"ab", b"", b"cd"]);
    let resp = serve(&router, "POST", "/echo/reversed", &req).unwrap();
    assert_eq!(resp.body_bytes(&req), b"dcba".to_vec());
}

#[test]
fn player_is_created() {
    let router = example_router();
    let req = chunks(&[br#"{"name":"Ada"}"#]);
    let resp = serve(&router, "POST", "/player", &req).unwrap();
    assert_eq!(resp.status, 201);
    assert_eq!(header_values(&resp, "content-type"), vec![b"application/json".to_vec()]);
    let body = resp.body_bytes(&req);
    let got: serde_json::Value = serde_json::from_slice(&body).unwrap();
    let sent: serde_json::Value = serde_json::from_slice(br#"{"name":"Ada"}"#).unwrap();
    assert_eq!(got, sent);
    assert_eq!(body, br#"{"name":"Ada"}"#.to_vec());
}

#[test]
fn player_body_too_large() {
    let router = example_router();
    let req = vec![vec![b'a'; 70000]];
    let err = serve(&router, "POST", "/player", &req).err().unwrap();
    assert!(matches!(err, LibError::RequestBodyTooLarge));
    let resp = error_response(&err);
    assert_eq!(resp.status, 413);
    assert_eq!(resp.body_bytes(&req), TOO_LARGE_TEXT.as_bytes().to_vec());
}

#[test]
fn player_invalid_json() {
    let router = example_router();
    let req = chunks(&[b"{not json"]);
    let err = serve(&router, "POST", "/player", &req).err().unwrap();
    assert!(matches!(err, LibError::JsonParseError(_)));
    assert_eq!(error_response(&err).status, 400);
}

#[test]
fn player_without_name() {
    let router = example_router();
    let req = chunks(&[br#"{"age":3}"#]);
    let err = serve(&router, "POST", "/player", &req).err().unwrap();
    assert!(matches!(err, LibError::InvalidPayload));
    let req = chunks(&[br#"{"name":7}"#]);
    let err = serve(&router, "POST", "/player", &req).err().unwrap();
    assert!(matches!(err, LibError::InvalidPayload));
    assert_eq!(error_response(&err).status, 400);
}

#[test]
fn transport_failure_maps_to_500() {
    let resp = error_response(&LibError::Transport("reset".to_string()));
    assert_eq!(resp.status, 500);
    assert!(matches!(resp.body, Body::Empty));
}

#[test]
fn unknown_route_is_not_found() {
    let router = example_router();
    let req = chunks(&[b"abc"]);
    for (m, p) in [("GET", "/echo"), ("POST", "/"), ("POST", "/echo/"), ("POST", "/ECHO"), ("PUT", "/player")] {
        let resp = serve(&router, m, p, &req).unwrap();
        assert_eq!(resp.status, 404);
        assert!(resp.headers.is_empty());
        assert!(resp.body_bytes(&req).is_empty());
    }
}

#[test]
fn lookup_is_exact() {
    let router = example_router();
    assert_eq!(router.lookup("GET", "/"), Some(&Endpoint::Index));
    assert_eq!(router.lookup("POST", "/echo"), Some(&Endpoint::Echo));
    assert_eq!(router.lookup("POST", "/echo/uppercase"), Some(&Endpoint::EchoUppercase));
    assert_eq!(router.lookup("POST", "/echo/reversed"), Some(&Endpoint::EchoReversed));
    assert_eq!(router.lookup("POST", "/player"), Some(&Endpoint::CreatePlayer));
    assert_eq!(router.lookup("GET", "/player"), None);
    assert_eq!(router.lookup("POST", "/echo/upper"), None);
}

#[test]
fn last_registration_wins() {
    let mut router: Router<u32> = Router::new();
    router.route(Route::new("GET", "/a", 1));
    router.route(Route::new("GET", "/b", 2));
    router.route(Route::new("GET", "/a", 3));
    assert_eq!(router.lookup("GET", "/a"), Some(&3));
    assert_eq!(router.lookup("GET", "/b"), Some(&2));
    assert_eq!(router.lookup("POST", "/a"), None);
    match router.make_service("GET", "/a") {
        Dispatch::Handle(h) => assert_eq!(*h, 3),
        Dispatch::NotFound(_) => panic!("route must match"),
    }
    match router.make_service("GET", "/c") {
        Dispatch::Handle(_) => panic!("route must not match"),
        Dispatch::NotFound(resp) => assert_eq!(resp.status, 404),
    }
}

#[test]
fn handlers_can_capture_state() {
    let greeting = String::from("hello");
    let mut router: Router<Box<dyn Fn(&[u8]) -> Vec<u8>>> = Router::new();
    let g = greeting.clone();
    router.route(Route::new("GET", "/hi", Box::new(move |_b: &[u8]| g.as_bytes().to_vec())));
    let h = router.lookup("GET", "/hi").unwrap();
    assert_eq!(h(b""), b"hello".to_vec());
}

#[test]
fn empty_table_matches_nothing() {
    let router: Router<u8> = Router::new();
    assert_eq!(router.lookup("GET", "/"), None);
    let router: Router<u8> = Router::default();
    assert!(matches!(router.make_service("GET", "/"), Dispatch::NotFound(_)));
}

#[test]
fn endpoint_plans() {
    assert!(matches!(Endpoint::Index.plan(), BodyPlan::Ignore));
    assert!(matches!(Endpoint::Echo.plan(), BodyPlan::Stream(Transform::Identity)));
    assert!(matches!(Endpoint::EchoUppercase.plan(), BodyPlan::Stream(Transform::Uppercase)));
    assert!(matches!(Endpoint::EchoReversed.plan(), BodyPlan::Collect(n) if n == MAX_BODY_SIZE));
    assert!(matches!(Endpoint::CreatePlayer.plan(), BodyPlan::Collect(n) if n == MAX_BODY_SIZE));
}

#[test]
fn player_body_is_json_text_of_decoded_value() {
    let router = example_router();
    let sent = br#"{ "name" : "Ada", "age": 3 }"#;
    let req = chunks(&[sent]);
    let resp = serve(&router, "POST", "/player", &req).unwrap();
    assert_eq!(resp.status, 201);
    let value: serde_json::Value = serde_json::from_slice(sent).unwrap();
    assert_eq!(resp.body_bytes(&req), serde_json::to_vec(&value).unwrap());
    assert_eq!(resp.body_bytes(&req), br#"{"age":3,"name":"Ada"}"#.to_vec());
}
