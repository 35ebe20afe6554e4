use vstd::prelude::*;

use vstd::string::StringSliceAdditionalSpecFns;

use crate::error::LibError;
use crate::transform::Transform;

verus! {

/// The bytes of `s`, a text of ASCII characters.
pub open spec fn ascii_bytes(s: Seq<char>) -> Seq<u8> {
    Seq::new(s.len(), |i: int| s[i] as u8)
}

/// The name of the header that gives a body's media type.
pub open spec fn content_type_name() -> Seq<u8> {
    ascii_bytes(seq!['c', 'o', 'n', 't', 'e', 'n', 't', '-', 't', 'y', 'p', 'e'])
}

/// The media type of a JSON body.
pub open spec fn json_media_type() -> Seq<u8> {
    ascii_bytes(seq!['a', 'p', 'p', 'l', 'i', 'c', 'a', 't', 'i', 'o', 'n', '/', 'j', 's', 'o', 'n'])
}

fn content_type_header() -> (r: (&'static str, &'static str))
    ensures
        r.0.spec_bytes() == content_type_name(),
        r.1.spec_bytes() == json_media_type(),
        valid_header_name(content_type_name()),
        valid_header_value(json_media_type()),
{
    let n = "content-type";
    let v = "application/json";
    proof {
        reveal_strlit("content-type");
        reveal_strlit("application/json");
        vstd::string::is_ascii_spec_bytes(n);
        vstd::string::is_ascii_spec_bytes(v);
        assert(n.spec_bytes() =~= content_type_name());
        assert(v.spec_bytes() =~= json_media_type());
        assert(valid_header_name(content_type_name()));
        assert(valid_header_value(json_media_type()));
    }
    (n, v)
}

/// An ASCII uppercase letter mapped to lowercase; every other byte is kept.
pub open spec fn ascii_lower(b: u8) -> u8 {
    if 65 <= b && b <= 90 {
        (b + 32) as u8
    } else {
        b
    }
}

/// Header names are compared without regard to ASCII case.
pub open spec fn same_name(a: Seq<u8>, b: Seq<u8>) -> bool {
    a.len() == b.len() && forall|i: int| 0 <= i < a.len() ==> ascii_lower(#[trigger] a[i]) == ascii_lower(b[i])
}

/// A byte that may stand in a header name: a letter, a digit or one of
/// ``!#$%&'*+-.^_`|~``.
pub open spec fn is_token_byte(b: u8) -> bool {
    (48 <= b && b <= 57) || (65 <= b && b <= 90) || (97 <= b && b <= 122) || b == 33 || (35 <= b
        && b <= 39) || b == 42 || b == 43 || b == 45 || b == 46 || b == 94 || b == 95 || b == 96
        || b == 124 || b == 126
}

/// A header name that the HTTP engine accepts: 1 to 65535 token bytes.
pub open spec fn valid_header_name(n: Seq<u8>) -> bool {
    0 < n.len() <= 65535 && forall|i: int| 0 <= i < n.len() ==> is_token_byte(#[trigger] n[i])
}

/// A header value that the HTTP engine accepts: no control byte but tab.
pub open spec fn valid_header_value(v: Seq<u8>) -> bool {
    forall|i: int| 0 <= i < v.len() ==> ((#[trigger] v[i] >= 32 && v[i] != 127) || v[i] == 9)
}

/// The headers of `hs` whose name is not `n`, in their order.
pub open spec fn without_name(hs: Seq<(Seq<u8>, Seq<u8>)>, n: Seq<u8>) -> Seq<(Seq<u8>, Seq<u8>)>
    decreases hs.len(),
{
    if hs.len() == 0 {
        hs
    } else if same_name(hs.last().0, n) {
        without_name(hs.drop_last(), n)
    } else {
        without_name(hs.drop_last(), n).push(hs.last())
    }
}

/// The headers after `n` is set to `v`: every earlier value of `n` is
/// replaced by the new one.
pub open spec fn with_header(hs: Seq<(Seq<u8>, Seq<u8>)>, n: Seq<u8>, v: Seq<u8>) -> Seq<(Seq<u8>, Seq<u8>)> {
    without_name(hs, n).push((n, v))
}

/// The values that `hs` holds under the name `n`, in their order.
pub open spec fn values_of(hs: Seq<(Seq<u8>, Seq<u8>)>, n: Seq<u8>) -> Seq<Seq<u8>>
    decreases hs.len(),
{
    if hs.len() == 0 {
        Seq::empty()
    } else if same_name(hs.last().0, n) {
        values_of(hs.drop_last(), n).push(hs.last().1)
    } else {
        values_of(hs.drop_last(), n)
    }
}

/// One response header: its name and its value, as bytes.
#[derive(Debug)]
pub struct Header {
    pub name: Vec<u8>,
    pub value: Vec<u8>,
}

/// The view of a list of headers.
pub open spec fn headers_view(hs: Seq<Header>) -> Seq<(Seq<u8>, Seq<u8>)> {
    hs.map_values(|h: Header| (h.name@, h.value@))
}

/// The payload of a response.
#[derive(Debug)]
pub enum Body {
    /// No bytes.
    Empty,
    /// A fixed sequence of bytes.
    Full(Vec<u8>),
    /// The request body, streamed back chunk by chunk through a transformation.
    Stream(Transform),
}

/// A complete response: status code, headers and body.
#[derive(Debug)]
pub struct HttpResponse {
    pub status: u16,
    pub headers: Vec<Header>,
    pub body: Body,
}

/// Accumulates the status (200 by default) and headers (none by default) of
/// a response until one of its finishing methods gives the response.
pub struct HttpResponseBuilder {
    status: u16,
    headers: Vec<Header>,
}

/// Whether two header names are equal without regard to ASCII case.
pub fn names_match(a: &[u8], b: &[u8]) -> (r: bool)
    ensures
        r == same_name(a@, b@),
{
    if a.len() != b.len() {
        return false;
    }
    let mut i: usize = 0;
    while i < a.len()
        invariant
            i <= a@.len(),
            a@.len() == b@.len(),
            forall|k: int| 0 <= k < i ==> ascii_lower(#[trigger] a@[k]) == ascii_lower(b@[k]),
        decreases a@.len() - i,
    {
        let x = a[i];
        let y = b[i];
        let lx: u8 = if 65 <= x && x <= 90 { x + 32 } else { x };
        let ly: u8 = if 65 <= y && y <= 90 { y + 32 } else { y };
        if lx != ly {
            assert(!(ascii_lower(a@[i as int]) == ascii_lower(b@[i as int])));
            return false;
        }
        i = i + 1;
    }
    true
}

/// A copy of a header.
fn copy_header(h: &Header) -> (r: Header)
    ensures
        r.name@ == h.name@,
        r.value@ == h.value@,
{
    Header {
        name: vstd::slice::slice_to_vec(h.name.as_slice()),
        value: vstd::slice::slice_to_vec(h.value.as_slice()),
    }
}

/// Sets the header `name` to `value`, dropping every earlier value of it.
pub fn set_header(headers: &Vec<Header>, name: &[u8], value: &[u8]) -> (r: Vec<Header>)
    ensures
        headers_view(r@) == with_header(headers_view(headers@), name@, value@),
{
    let ghost hv = headers_view(headers@);
    let mut out: Vec<Header> = Vec::new();
    let mut i: usize = 0;
    while i < headers.len()
        invariant
            i <= headers@.len(),
            hv == headers_view(headers@),
            headers_view(out@) == without_name(hv.subrange(0, i as int), name@),
        decreases headers@.len() - i,
    {
        let ghost prev = out@;
        assert(hv.subrange(0, i as int + 1).drop_last() == hv.subrange(0, i as int));
        if !names_match(headers[i].name.as_slice(), name) {
            out.push(copy_header(&headers[i]));
            assert(headers_view(out@) =~= headers_view(prev).push(hv[i as int]));
        }
        i = i + 1;
    }
    assert(hv.subrange(0, headers@.len() as int) == hv);
    let ghost before = out@;
    out.push(Header { name: vstd::slice::slice_to_vec(name), value: vstd::slice::slice_to_vec(value) });
    assert(headers_view(out@) =~= headers_view(before).push((name@, value@)));
    out
}

/// An empty body.
pub fn empty() -> (r: Body)
    ensures
        r is Empty,
{
    Body::Empty
}

/// A body that holds `chunk`.
pub fn full(chunk: Vec<u8>) -> (r: Body)
    ensures
        r matches Body::Full(b) && b@ == chunk@,
{
    Body::Full(chunk)
}

/// A response with status 200, no headers and the given body.
pub fn create_response_body(body: Body) -> (r: HttpResponse)
    ensures
        r.status == 200,
        r.spec_headers() == Seq::<(Seq<u8>, Seq<u8>)>::empty(),
        r.body == body,
{
    let r = HttpResponse { status: 200, headers: Vec::new(), body };
    assert(r.spec_headers() =~= Seq::<(Seq<u8>, Seq<u8>)>::empty());
    r
}

/// Appends the bytes of `more` to `out`.
pub fn append_bytes(out: &mut Vec<u8>, more: &[u8])
    ensures
        final(out)@ == old(out)@ + more@,
{
    let mut i: usize = 0;
    while i < more.len()
        invariant
            i <= more@.len(),
            out@ == old(out)@ + more@.subrange(0, i as int),
        decreases more@.len() - i,
    {
        out.push(more[i]);
        i = i + 1;
        assert(out@ =~= old(out)@ + more@.subrange(0, i as int));
    }
    assert(more@.subrange(0, i as int) == more@);
}

/// Once a name is removed, it has no value left.
pub proof fn lemma_without_name_values(hs: Seq<(Seq<u8>, Seq<u8>)>, n: Seq<u8>)
    ensures
        values_of(without_name(hs, n), n) == Seq::<Seq<u8>>::empty(),
    decreases hs.len(),
{
    if hs.len() > 0 {
        lemma_without_name_values(hs.drop_last(), n);
        let rest = without_name(hs.drop_last(), n);
        if !same_name(hs.last().0, n) {
            assert(rest.push(hs.last()).drop_last() == rest);
        }
    }
}

/// A header that was set has exactly the value it was set to, whatever
/// values of that name came before.
pub proof fn lemma_set_header_overrides(hs: Seq<(Seq<u8>, Seq<u8>)>, n: Seq<u8>, v: Seq<u8>)
    ensures
        values_of(with_header(hs, n, v), n) == seq![v],
{
    lemma_without_name_values(hs, n);
    let w = without_name(hs, n);
    assert(w.push((n, v)).drop_last() == w);
    assert(Seq::<Seq<u8>>::empty().push(v) == seq![v]);
}

/// A JSON response carries `application/json` as its one content type,
/// whatever content type the builder was given before.
pub proof fn lemma_json_content_type(hs: Seq<(Seq<u8>, Seq<u8>)>)
    ensures
        values_of(with_header(hs, content_type_name(), json_media_type()), content_type_name())
            == seq![json_media_type()],
{
    lemma_set_header_overrides(hs, content_type_name(), json_media_type());
}

impl HttpResponse {
    /// A builder with status 200 and no headers.
    pub fn builder() -> (r: HttpResponseBuilder)
        ensures
            r.spec_status() == 200,
            r.spec_headers() == Seq::<(Seq<u8>, Seq<u8>)>::empty(),
    {
        HttpResponseBuilder::default()
    }

    /// The view of the response's headers.
    pub open spec fn spec_headers(&self) -> Seq<(Seq<u8>, Seq<u8>)> {
        headers_view(self.headers@)
    }

    /// The response for a request that no route matches: status 404, no
    /// headers, empty body.
    pub fn not_found() -> (r: HttpResponse)
        ensures
            r.status == 404,
            r.spec_headers() == Seq::<(Seq<u8>, Seq<u8>)>::empty(),
            r.body is Empty,
    {
        let r = HttpResponse { status: 404, headers: Vec::new(), body: Body::Empty };
        assert(r.spec_headers() =~= Seq::<(Seq<u8>, Seq<u8>)>::empty());
        r
    }
}

impl Default for HttpResponseBuilder {
    /// A builder with status 200 and no headers.
    fn default() -> (r: HttpResponseBuilder)
        ensures
            r.spec_status() == 200,
            r.spec_headers() == Seq::<(Seq<u8>, Seq<u8>)>::empty(),
    {
        let r = HttpResponseBuilder { status: 200, headers: Vec::new() };
        assert(r.spec_headers() =~= Seq::<(Seq<u8>, Seq<u8>)>::empty());
        r
    }
}

impl HttpResponseBuilder {
    /// The status accumulated so far.
    pub closed spec fn spec_status(&self) -> u16 {
        self.status
    }

    /// The headers accumulated so far.
    pub closed spec fn spec_headers(&self) -> Seq<(Seq<u8>, Seq<u8>)> {
        headers_view(self.headers@)
    }

    /// Sets the status code of the response.
    pub fn status_code(self, status: u16) -> (r: HttpResponseBuilder)
        requires
            100 <= status <= 999,
        ensures
            r.spec_status() == status,
            r.spec_headers() == self.spec_headers(),
    {
        HttpResponseBuilder { status, headers: self.headers }
    }

    /// Sets a header of the response, replacing every earlier value of that
    /// name (names compare without regard to ASCII case).
    pub fn header(self, header: (&str, &str)) -> (r: HttpResponseBuilder)
        requires
            valid_header_name(header.0.spec_bytes()),
            valid_header_value(header.1.spec_bytes()),
        ensures
            r.spec_status() == self.spec_status(),
            r.spec_headers() == with_header(
                self.spec_headers(),
                header.0.spec_bytes(),
                header.1.spec_bytes(),
            ),
    {
        let headers = set_header(&self.headers, header.0.as_bytes(), header.1.as_bytes());
        HttpResponseBuilder { status: self.status, headers }
    }

    /// Finishes the response with an empty body.
    pub fn empty(self) -> (r: HttpResponse)
        ensures
            r.status == self.spec_status(),
            r.spec_headers() == self.spec_headers(),
            r.body is Empty,
    {
        HttpResponse { status: self.status, headers: self.headers, body: Body::Empty }
    }

    /// Finishes the response with a fixed body.
    pub fn body(self, body: Vec<u8>) -> (r: Result<HttpResponse, LibError>)
        ensures
            r is Ok,
            r->Ok_0.status == self.spec_status(),
            r->Ok_0.spec_headers() == self.spec_headers(),
            r->Ok_0.body matches Body::Full(b) && b@ == body@,
    {
        Ok(HttpResponse { status: self.status, headers: self.headers, body: Body::Full(body) })
    }

    /// Finishes the response with the request body streamed back through `t`.
    pub fn stream(self, t: Transform) -> (r: HttpResponse)
        ensures
            r.status == self.spec_status(),
            r.spec_headers() == self.spec_headers(),
            r.body == Body::Stream(t),
    {
        HttpResponse { status: self.status, headers: self.headers, body: Body::Stream(t) }
    }

    /// Finishes a JSON response from the outcome of encoding its value: an
    /// encoding failure is reported, an encoded value becomes the body and the
    /// content-type header is set to `application/json`, whatever it was.
    pub fn json_encoded(self, encoded: Result<Vec<u8>, serde_json::Error>) -> (r: Result<
        HttpResponse,
        LibError,
    >)
        ensures
            r is Ok <==> encoded is Ok,
            encoded is Err ==> r->Err_0 is Serialization,
            encoded is Ok ==> ({
                let resp = r->Ok_0;
                &&& resp.status == self.spec_status()
                &&& resp.spec_headers() == with_header(
                    self.spec_headers(),
                    content_type_name(),
                    json_media_type(),
                )
                &&& resp.body matches Body::Full(b) && b@ == encoded->Ok_0@
            }),
    {
        match encoded {
            Ok(bytes) => {
                let b = self.header(content_type_header());
                b.body(bytes)
            },
            Err(e) => Err(LibError::Serialization(e)),
        }
    }
}

} // verus!
