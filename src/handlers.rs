use vstd::prelude::*;
use vstd::string::StringSliceAdditionalSpecFns;

use crate::body::{chunks_view, flatten, read_body, MAX_BODY_SIZE};
use crate::error::LibError;
use crate::json::{
    decode_json, encode_json, json_decode_of, json_text_of, string_member, string_member_of,
};
use crate::response::{
    append_bytes, content_type_name, create_response_body, full, json_media_type, with_header,
    Body, HttpResponse,
};
use crate::router::{Dispatch, Route, Router};
use crate::transform::{lemma_stream_concat, reverse_bytes, reversed, upper_bytes, Transform};

verus! {

/// The greeting that the index page returns.
pub const INDEX_TEXT: &'static str = "Try POSTing data to /echo";

/// The explanation that goes with a refused, oversized body.
pub const TOO_LARGE_TEXT: &'static str = "Request body exceeded the allowed maximum size";

/// The endpoints of the example service.
#[derive(Clone, Copy, Debug, PartialEq, Eq, Structural)]
pub enum Endpoint {
    /// `GET /`: a fixed greeting.
    Index,
    /// `POST /echo`: the request body, streamed back unchanged.
    Echo,
    /// `POST /echo/uppercase`: the request body, streamed back in ASCII uppercase.
    EchoUppercase,
    /// `POST /echo/reversed`: the request body, read whole and reversed.
    EchoReversed,
    /// `POST /player`: a JSON player record, accepted and returned.
    CreatePlayer,
}

/// How an endpoint consumes the request body.
#[derive(Clone, Copy, Debug, PartialEq, Eq, Structural)]
pub enum BodyPlan {
    /// The body is not read.
    Ignore,
    /// The body streams into the response through the transformation.
    Stream(Transform),
    /// The body is read whole, up to the given number of bytes.
    Collect(usize),
}

/// The bytes that a response body carries once the request body, given as
/// its chunks, has streamed through it.
pub open spec fn spec_body_bytes(body: Body, chunks: Seq<Seq<u8>>) -> Seq<u8> {
    match body {
        Body::Empty => Seq::empty(),
        Body::Full(b) => b@,
        Body::Stream(t) => flatten(chunks.map_values(|c: Seq<u8>| t.spec_apply(c))),
    }
}

/// The route table of the example service.
pub open spec fn example_table() -> Map<(Seq<char>, Seq<char>), Endpoint> {
    Map::empty()
        .insert(("GET"@, "/"@), Endpoint::Index)
        .insert(("POST"@, "/echo"@), Endpoint::Echo)
        .insert(("POST"@, "/echo/uppercase"@), Endpoint::EchoUppercase)
        .insert(("POST"@, "/echo/reversed"@), Endpoint::EchoReversed)
        .insert(("POST"@, "/player"@), Endpoint::CreatePlayer)
}

/// Whether endpoint `e` reads the whole request body before it answers.
pub open spec fn collects(e: Endpoint) -> bool {
    e == Endpoint::EchoReversed || e == Endpoint::CreatePlayer
}

/// What endpoint `e` may answer once it has the request body `body` (which
/// only the collecting endpoints read).
pub open spec fn responded(e: Endpoint, body: Seq<u8>, r: Result<HttpResponse, LibError>) -> bool {
    match e {
        Endpoint::Index => r matches Ok(resp) && resp.status == 200 && resp.spec_headers()
            == Seq::<(Seq<u8>, Seq<u8>)>::empty() && (resp.body matches Body::Full(b) && b@
            == INDEX_TEXT.spec_bytes()),
        Endpoint::Echo => r matches Ok(resp) && resp.status == 200 && resp.spec_headers()
            == Seq::<(Seq<u8>, Seq<u8>)>::empty() && resp.body == Body::Stream(Transform::Identity),
        Endpoint::EchoUppercase => r matches Ok(resp) && resp.status == 200 && resp.spec_headers()
            == Seq::<(Seq<u8>, Seq<u8>)>::empty() && resp.body == Body::Stream(Transform::Uppercase),
        Endpoint::EchoReversed => r matches Ok(resp) && resp.status == 200 && resp.spec_headers()
            == Seq::<(Seq<u8>, Seq<u8>)>::empty() && (resp.body matches Body::Full(b) && b@
            == reversed(body)),
        Endpoint::CreatePlayer => created_player(body, r),
    }
}

/// What `POST /player` answers to the body `body`: bytes that are no JSON
/// text give a `JsonParseError`, a value without a string `name` member an
/// `InvalidPayload`, and a player record comes back with status 201 as the
/// JSON text of the decoded value.
pub open spec fn created_player(body: Seq<u8>, r: Result<HttpResponse, LibError>) -> bool {
    match json_decode_of(body) {
        None => r matches Err(LibError::JsonParseError(_)),
        Some(v) => match string_member_of(v, "name"@) {
            None => r matches Err(LibError::InvalidPayload),
            Some(_) => r matches Ok(resp) && resp.status == 201 && resp.spec_headers() == with_header(
                Seq::empty(),
                content_type_name(),
                json_media_type(),
            ) && (resp.body matches Body::Full(b) && b@ == json_text_of(v)),
        },
    }
}

/// What handling a request whose body is `body` (given as its chunks) by
/// endpoint `e` may give: a collecting endpoint refuses a body over the
/// ceiling and otherwise answers on the whole body; the others answer
/// without reading it.
pub open spec fn handled_by(e: Endpoint, body: Seq<Seq<u8>>, r: Result<HttpResponse, LibError>) -> bool {
    if collects(e) {
        if flatten(body).len() > MAX_BODY_SIZE {
            r matches Err(LibError::RequestBodyTooLarge)
        } else {
            responded(e, flatten(body), r)
        }
    } else {
        responded(e, Seq::empty(), r)
    }
}

/// `GET /`: status 200 with a fixed greeting.
pub fn index_route() -> (r: HttpResponse)
    ensures
        r.status == 200,
        r.spec_headers() == Seq::<(Seq<u8>, Seq<u8>)>::empty(),
        r.body matches Body::Full(b) && b@ == INDEX_TEXT.spec_bytes(),
{
    create_response_body(full(vstd::slice::slice_to_vec(INDEX_TEXT.as_bytes())))
}

/// `POST /echo`: status 200, the request body streamed back unchanged.
pub fn echo() -> (r: HttpResponse)
    ensures
        r.status == 200,
        r.spec_headers() == Seq::<(Seq<u8>, Seq<u8>)>::empty(),
        r.body == Body::Stream(Transform::Identity),
{
    create_response_body(Body::Stream(Transform::Identity))
}

/// `POST /echo/uppercase`: status 200, the request body streamed back in
/// ASCII uppercase.
pub fn echo_uppercase() -> (r: HttpResponse)
    ensures
        r.status == 200,
        r.spec_headers() == Seq::<(Seq<u8>, Seq<u8>)>::empty(),
        r.body == Body::Stream(Transform::Uppercase),
{
    create_response_body(Body::Stream(Transform::Uppercase))
}

/// `POST /echo/reversed`: status 200, the request body reversed.
pub fn echo_reversed(body: &[u8]) -> (r: HttpResponse)
    ensures
        r.status == 200,
        r.spec_headers() == Seq::<(Seq<u8>, Seq<u8>)>::empty(),
        r.body matches Body::Full(b) && b@ == reversed(body@),
{
    create_response_body(full(reverse_bytes(body)))
}

/// The answer to a player record, from the text of its `name` member (none
/// when the record has no string `name`) and the encoding of the record: a
/// record without a name is refused, an encoding failure is reported, and
/// otherwise the record comes back with status 201 as JSON.
pub fn player_response(name: Option<String>, encoded: Result<Vec<u8>, serde_json::Error>) -> (r: Result<
    HttpResponse,
    LibError,
>)
    ensures
        name is None ==> r matches Err(LibError::InvalidPayload),
        name is Some && encoded is Err ==> r matches Err(LibError::Serialization(_)),
        name is Some && encoded is Ok ==> (r matches Ok(resp) && {
            &&& resp.status == 201
            &&& resp.spec_headers() == with_header(
                Seq::empty(),
                content_type_name(),
                json_media_type(),
            )
            &&& (resp.body matches Body::Full(b) && b@ == encoded->Ok_0@)
        }),
{
    match name {
        None => Err(LibError::InvalidPayload),
        Some(_) => HttpResponse::builder().status_code(201).json_encoded(encoded),
    }
}

/// `POST /player`: decodes the body as a JSON player record (an object
/// with a string `name`) and returns it with status 201 as JSON.
pub fn create_player(body: &[u8]) -> (r: Result<HttpResponse, LibError>)
    ensures
        created_player(body@, r),
{
    let value = match decode_json(body) {
        Ok(v) => v,
        Err(e) => return Err(e),
    };
    let name = string_member(&value, "name");
    let encoded = encode_json(&value);
    player_response(name, encoded)
}

/// The response that the connection edge sends for a failure: 413 with an
/// explanation for an oversized body, 400 for a malformed payload, 500 for
/// anything else, each with an empty body but the first.
pub fn error_response(e: &LibError) -> (r: HttpResponse)
    ensures
        e is RequestBodyTooLarge ==> r.status == 413 && (r.body matches Body::Full(b) && b@
            == TOO_LARGE_TEXT.spec_bytes()),
        (e is JsonParseError || e is InvalidPayload) ==> r.status == 400 && r.body is Empty,
        (e is Transport || e is Serialization) ==> r.status == 500 && r.body is Empty,
        r.spec_headers() == Seq::<(Seq<u8>, Seq<u8>)>::empty(),
{
    match e {
        LibError::RequestBodyTooLarge => {
            let bytes = vstd::slice::slice_to_vec(TOO_LARGE_TEXT.as_bytes());
            HttpResponse { status: 413, headers: Vec::new(), body: full(bytes) }
        },
        LibError::JsonParseError(_) | LibError::InvalidPayload => {
            HttpResponse::builder().status_code(400).empty()
        },
        LibError::Transport(_) | LibError::Serialization(_) => {
            HttpResponse::builder().status_code(500).empty()
        },
    }
}

impl Endpoint {
    /// How the endpoint consumes the request body.
    pub fn plan(&self) -> (r: BodyPlan)
        ensures
            *self == Endpoint::Index ==> r == BodyPlan::Ignore,
            *self == Endpoint::Echo ==> r == BodyPlan::Stream(Transform::Identity),
            *self == Endpoint::EchoUppercase ==> r == BodyPlan::Stream(Transform::Uppercase),
            *self == Endpoint::EchoReversed ==> r == BodyPlan::Collect(MAX_BODY_SIZE),
            *self == Endpoint::CreatePlayer ==> r == BodyPlan::Collect(MAX_BODY_SIZE),
    {
        match self {
            Endpoint::Index => BodyPlan::Ignore,
            Endpoint::Echo => BodyPlan::Stream(Transform::Identity),
            Endpoint::EchoUppercase => BodyPlan::Stream(Transform::Uppercase),
            Endpoint::EchoReversed => BodyPlan::Collect(MAX_BODY_SIZE),
            Endpoint::CreatePlayer => BodyPlan::Collect(MAX_BODY_SIZE),
        }
    }

    /// The endpoint's answer once its plan has been carried out: `body` is
    /// the whole request body for a collecting endpoint and is ignored by the
    /// others, whose responses stream or need no body.
    pub fn respond(&self, body: &[u8]) -> (r: Result<HttpResponse, LibError>)
        ensures
            responded(*self, body@, r),
    {
        match self {
            Endpoint::Index => Ok(index_route()),
            Endpoint::Echo => Ok(echo()),
            Endpoint::EchoUppercase => Ok(echo_uppercase()),
            Endpoint::EchoReversed => Ok(echo_reversed(body)),
            Endpoint::CreatePlayer => create_player(body),
        }
    }

    /// Handles a request whose body is given whole as its chunks: a collecting
    /// endpoint refuses a body over its limit, the others answer as `respond`.
    pub fn handle(&self, chunks: &Vec<Vec<u8>>) -> (r: Result<HttpResponse, LibError>)
        ensures
            handled_by(*self, chunks_view(chunks@), r),
    {
        match self.plan() {
            BodyPlan::Collect(limit) => {
                match read_body(chunks, limit) {
                    Ok(b) => self.respond(b.as_slice()),
                    Err(e) => Err(e),
                }
            },
            _ => {
                let none: [u8; 0] = [];
                let r = self.respond(&none);
                assert(none@ =~= Seq::<u8>::empty());
                r
            },
        }
    }
}

/// Registers the routes of the example service.
pub fn example_router() -> (r: Router<Endpoint>)
    ensures
        r.spec_table() == example_table(),
{
    let mut router: Router<Endpoint> = Router::new();
    router.route(Route::new("GET", "/", Endpoint::Index));
    router.route(Route::new("POST", "/echo", Endpoint::Echo));
    router.route(Route::new("POST", "/echo/uppercase", Endpoint::EchoUppercase));
    router.route(Route::new("POST", "/echo/reversed", Endpoint::EchoReversed));
    router.route(Route::new("POST", "/player", Endpoint::CreatePlayer));
    router
}

/// Serves one request whose body is given whole: the matching endpoint
/// handles it, and a request that no route matches gets the 404 response.
pub fn serve(router: &Router<Endpoint>, method: &str, path: &str, chunks: &Vec<Vec<u8>>) -> (r:
    Result<HttpResponse, LibError>)
    ensures
        !router.spec_table().contains_key((method@, path@)) ==> (r matches Ok(resp) && resp.status
            == 404 && resp.body is Empty && resp.spec_headers() == Seq::<(Seq<u8>, Seq<u8>)>::empty()),
        router.spec_table().contains_key((method@, path@)) ==> handled_by(
            router.spec_table()[(method@, path@)],
            chunks_view(chunks@),
            r,
        ),
{
    match router.make_service(method, path) {
        Dispatch::Handle(e) => e.handle(chunks),
        Dispatch::NotFound(resp) => Ok(resp),
    }
}

impl HttpResponse {
    /// The bytes of the response body, with the request body (given as its
    /// chunks) streamed through it where the body streams.
    pub fn body_bytes(&self, chunks: &Vec<Vec<u8>>) -> (r: Vec<u8>)
        ensures
            r@ == spec_body_bytes(self.body, chunks_view(chunks@)),
    {
        match &self.body {
            Body::Empty => Vec::new(),
            Body::Full(b) => vstd::slice::slice_to_vec(b.as_slice()),
            Body::Stream(t) => {
                let ghost cs = chunks_view(chunks@);
                let ghost f = |c: Seq<u8>| t.spec_apply(c);
                let mut out: Vec<u8> = Vec::new();
                let mut i: usize = 0;
                while i < chunks.len()
                    invariant
                        i <= chunks@.len(),
                        cs == chunks_view(chunks@),
                        f == (|c: Seq<u8>| t.spec_apply(c)),
                        out@ == flatten(cs.subrange(0, i as int).map_values(f)),
                    decreases chunks@.len() - i,
                {
                    let piece = t.apply(chunks[i].as_slice());
                    let ghost prev = out@;
                    append_bytes(&mut out, piece.as_slice());
                    proof {
                        let p1 = cs.subrange(0, i as int + 1).map_values(f);
                        assert(p1.drop_last() =~= cs.subrange(0, i as int).map_values(f));
                    }
                    i = i + 1;
                }
                assert(cs.subrange(0, i as int) == cs);
                out
            },
        }
    }
}

/// Streaming a body through the uppercase transformation yields the
/// uppercase of the whole body, however it was split into chunks.
pub proof fn lemma_uppercase_stream(chunks: Seq<Seq<u8>>)
    ensures
        spec_body_bytes(Body::Stream(Transform::Uppercase), chunks) == upper_bytes(flatten(chunks)),
{
    lemma_stream_concat(Transform::Uppercase, chunks);
}

/// Echoing returns byte for byte what was sent, however it was split into
/// chunks.
pub proof fn lemma_echo_identity(chunks: Seq<Seq<u8>>)
    ensures
        spec_body_bytes(Body::Stream(Transform::Identity), chunks) == flatten(chunks),
{
    lemma_stream_concat(Transform::Identity, chunks);
}

} // verus!
