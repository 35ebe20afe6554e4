use vstd::prelude::*;

use crate::body::{chunks_view, flatten};

verus! {

/// `b` with an ASCII lowercase letter mapped to its uppercase form; every
/// other byte is kept.
pub open spec fn ascii_upper(b: u8) -> u8 {
    if 97 <= b && b <= 122 {
        (b - 32) as u8
    } else {
        b
    }
}

/// Each byte of `s` mapped by [`ascii_upper`].
pub open spec fn upper_bytes(s: Seq<u8>) -> Seq<u8> {
    Seq::new(s.len(), |i: int| ascii_upper(s[i]))
}

/// The bytes of `s` in the opposite order.
pub open spec fn reversed(s: Seq<u8>) -> Seq<u8> {
    Seq::new(s.len(), |i: int| s[s.len() - 1 - i])
}

/// One byte in ASCII uppercase.
pub fn to_ascii_uppercase(b: u8) -> (r: u8)
    ensures
        r == ascii_upper(b),
{
    if 97 <= b && b <= 122 {
        b - 32
    } else {
        b
    }
}

/// A chunk with every byte in ASCII uppercase.
pub fn uppercase_chunk(chunk: &[u8]) -> (r: Vec<u8>)
    ensures
        r@ == upper_bytes(chunk@),
{
    let mut out: Vec<u8> = Vec::new();
    let mut i: usize = 0;
    while i < chunk.len()
        invariant
            i <= chunk@.len(),
            out@ == upper_bytes(chunk@.subrange(0, i as int)),
        decreases chunk@.len() - i,
    {
        out.push(to_ascii_uppercase(chunk[i]));
        i = i + 1;
        assert(out@ =~= upper_bytes(chunk@.subrange(0, i as int)));
    }
    assert(chunk@.subrange(0, i as int) == chunk@);
    out
}

/// The bytes of a body in the opposite order.
pub fn reverse_bytes(body: &[u8]) -> (r: Vec<u8>)
    ensures
        r@ == reversed(body@),
{
    let mut out: Vec<u8> = Vec::new();
    let mut i: usize = body.len();
    while i > 0
        invariant
            i <= body@.len(),
            out@.len() == body@.len() - i,
            forall|k: int| 0 <= k < out@.len() ==> out@[k] == body@[body@.len() - 1 - k],
        decreases i,
    {
        i = i - 1;
        out.push(body[i]);
    }
    assert(out@ =~= reversed(body@));
    out
}

/// A byte-level transformation applied to a body while it streams from the
/// request to the response, one chunk at a time.
#[derive(Clone, Copy, Debug, PartialEq, Eq, Structural)]
pub enum Transform {
    /// Every chunk passes unchanged.
    Identity,
    /// Every byte is mapped to ASCII uppercase.
    Uppercase,
}

/// One frame of a body stream: payload bytes, or a control frame (such as
/// trailers) that carries no payload.
#[derive(Debug)]
pub enum Frame {
    Data(Vec<u8>),
    Control,
}

impl Transform {
    /// What the transformation makes of one chunk.
    pub open spec fn spec_apply(self, s: Seq<u8>) -> Seq<u8> {
        match self {
            Transform::Identity => s,
            Transform::Uppercase => upper_bytes(s),
        }
    }

    /// What the transformation makes of one frame: the payload of a data
    /// frame is transformed, a control frame becomes an empty chunk so that
    /// the stream keeps its number of frames.
    pub open spec fn spec_frame(self, f: Frame) -> Seq<u8> {
        match f {
            Frame::Data(d) => self.spec_apply(d@),
            Frame::Control => Seq::empty(),
        }
    }

    /// Applies the transformation to one chunk.
    pub fn apply(&self, chunk: &[u8]) -> (r: Vec<u8>)
        ensures
            r@ == self.spec_apply(chunk@),
    {
        match self {
            Transform::Identity => vstd::slice::slice_to_vec(chunk),
            Transform::Uppercase => uppercase_chunk(chunk),
        }
    }

    /// Applies the transformation to one frame of the request body and
    /// gives the payload of the matching response frame.
    pub fn map_frame(&self, frame: &Frame) -> (r: Vec<u8>)
        ensures
            r@ == self.spec_frame(*frame),
    {
        match frame {
            Frame::Data(d) => self.apply(d.as_slice()),
            Frame::Control => Vec::new(),
        }
    }
}

/// The response frames that a transformation makes of a sequence of request
/// frames, one for one.
pub fn transform_stream(t: Transform, frames: &Vec<Frame>) -> (r: Vec<Vec<u8>>)
    ensures
        r@.len() == frames@.len(),
        forall|i: int| 0 <= i < frames@.len() ==> #[trigger] r@[i]@ == t.spec_frame(frames@[i]),
{
    let mut out: Vec<Vec<u8>> = Vec::new();
    let mut i: usize = 0;
    while i < frames.len()
        invariant
            i <= frames@.len(),
            out@.len() == i,
            forall|k: int| 0 <= k < i ==> #[trigger] out@[k]@ == t.spec_frame(frames@[k]),
        decreases frames@.len() - i,
    {
        out.push(t.map_frame(&frames[i]));
        i = i + 1;
    }
    out
}

/// Uppercasing two chunks one after the other gives the same bytes as
/// uppercasing their concatenation.
pub proof fn lemma_upper_concat(a: Seq<u8>, b: Seq<u8>)
    ensures
        upper_bytes(a + b) == upper_bytes(a) + upper_bytes(b),
{
    assert(upper_bytes(a + b) =~= upper_bytes(a) + upper_bytes(b));
}

/// A transformation distributes over the concatenation of two chunks.
pub proof fn lemma_apply_concat(t: Transform, a: Seq<u8>, b: Seq<u8>)
    ensures
        t.spec_apply(a + b) == t.spec_apply(a) + t.spec_apply(b),
{
    if t == Transform::Uppercase {
        lemma_upper_concat(a, b);
    }
}

/// Chunk boundaries do not matter: the concatenated output of a streamed
/// transformation equals the transformation of the concatenated input.
pub proof fn lemma_stream_concat(t: Transform, chunks: Seq<Seq<u8>>)
    ensures
        flatten(chunks.map_values(|c: Seq<u8>| t.spec_apply(c))) == t.spec_apply(flatten(chunks)),
    decreases chunks.len(),
{
    if chunks.len() > 0 {
        let f = |c: Seq<u8>| t.spec_apply(c);
        lemma_stream_concat(t, chunks.drop_last());
        assert(chunks.map_values(f).drop_last() == chunks.drop_last().map_values(f));
        lemma_apply_concat(t, flatten(chunks.drop_last()), chunks.last());
    } else {
        assert(flatten(chunks) == Seq::<u8>::empty());
        assert(t.spec_apply(Seq::<u8>::empty()) =~= Seq::<u8>::empty());
    }
}

/// Reversing a body twice gives the body back.
pub proof fn lemma_reverse_involution(s: Seq<u8>)
    ensures
        reversed(reversed(s)) == s,
{
    assert(reversed(reversed(s)) =~= s);
}

} // verus!
