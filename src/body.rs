use vstd::prelude::*;

use crate::error::LibError;

verus! {

/// Default ceiling on the size of a request body that is read into memory (64 KiB).
pub const MAX_BODY_SIZE: usize = 65536;

/// The concatenation of a sequence of chunks.
pub open spec fn flatten(chunks: Seq<Seq<u8>>) -> Seq<u8>
    decreases chunks.len(),
{
    if chunks.len() == 0 {
        Seq::empty()
    } else {
        flatten(chunks.drop_last()) + chunks.last()
    }
}

/// The views of a vector of chunks.
pub open spec fn chunks_view(chunks: Seq<Vec<u8>>) -> Seq<Seq<u8>> {
    chunks.map_values(|c: Vec<u8>| c@)
}

/// Accumulates a request body chunk by chunk and refuses it as soon as it
/// grows beyond its limit. A refused chunk leaves nothing behind.
pub struct BodyReader {
    limit: usize,
    data: Vec<u8>,
}

impl BodyReader {
    /// The limit that this reader enforces.
    pub closed spec fn spec_limit(&self) -> nat {
        self.limit as nat
    }

    /// The bytes accepted so far.
    pub closed spec fn spec_data(&self) -> Seq<u8> {
        self.data@
    }

    pub closed spec fn wf(&self) -> bool {
        self.data@.len() <= self.limit
    }

    /// A reader with nothing accepted yet.
    pub fn new(limit: usize) -> (r: BodyReader)
        ensures
            r.wf(),
            r.spec_limit() == limit,
            r.spec_data() == Seq::<u8>::empty(),
    {
        BodyReader { limit, data: Vec::new() }
    }

    /// The limit that this reader enforces.
    pub fn limit(&self) -> (r: usize)
        ensures
            r == self.spec_limit(),
    {
        self.limit
    }

    /// The number of bytes accepted so far.
    pub fn len(&self) -> (r: usize)
        requires
            self.wf(),
        ensures
            r == self.spec_data().len(),
    {
        self.data.len()
    }

    /// Checks the upper bound that the transport announces for the body, if
    /// any, before reading: a bound above the limit refuses the body at once.
    pub fn check_size_hint(&self, upper: Option<u64>) -> (r: Result<(), LibError>)
        ensures
            r is Err <==> (upper is Some && upper->0 > self.spec_limit()),
            r is Err ==> r->Err_0 is RequestBodyTooLarge,
    {
        match upper {
            Some(u) => {
                if u > self.limit as u64 {
                    Err(LibError::RequestBodyTooLarge)
                } else {
                    Ok(())
                }
            },
            None => Ok(()),
        }
    }

    /// Accepts one more chunk of the body, or refuses it when the total would
    /// exceed the limit; a refused chunk is not kept.
    pub fn push_chunk(&mut self, chunk: &[u8]) -> (r: Result<(), LibError>)
        requires
            old(self).wf(),
        ensures
            final(self).wf(),
            final(self).spec_limit() == old(self).spec_limit(),
            r is Ok <==> old(self).spec_data().len() + chunk@.len() <= old(self).spec_limit(),
            r is Ok ==> final(self).spec_data() == old(self).spec_data() + chunk@,
            r is Err ==> final(self).spec_data() == old(self).spec_data(),
            r is Err ==> r->Err_0 is RequestBodyTooLarge,
    {
        if chunk.len() > self.limit - self.data.len() {
            return Err(LibError::RequestBodyTooLarge);
        }
        let ghost before = self.data@;
        let mut i: usize = 0;
        while i < chunk.len()
            invariant
                i <= chunk@.len(),
                self.limit == old(self).limit,
                before == old(self).data@,
                before.len() + chunk@.len() <= self.limit,
                self.data@ == before + chunk@.subrange(0, i as int),
            decreases chunk@.len() - i,
        {
            self.data.push(chunk[i]);
            i = i + 1;
        }
        assert(chunk@.subrange(0, chunk@.len() as int) == chunk@);
        Ok(())
    }

    /// The whole body that was accepted.
    pub fn finish(self) -> (r: Vec<u8>)
        ensures
            r@ == self.spec_data(),
    {
        self.data
    }
}

/// Reads a body given as the sequence of its chunks into memory, refusing it
/// when its total size exceeds `limit`. No part of a refused body is returned.
pub fn read_body(chunks: &Vec<Vec<u8>>, limit: usize) -> (r: Result<Vec<u8>, LibError>)
    ensures
        r is Ok <==> flatten(chunks_view(chunks@)).len() <= limit,
        r is Ok ==> r->Ok_0@ == flatten(chunks_view(chunks@)),
        r is Err ==> r->Err_0 is RequestBodyTooLarge,
{
    let mut reader = BodyReader::new(limit);
    let mut i: usize = 0;
    while i < chunks.len()
        invariant
            i <= chunks@.len(),
            reader.wf(),
            reader.spec_limit() == limit,
            reader.spec_data() == flatten(chunks_view(chunks@).subrange(0, i as int)),
        decreases chunks@.len() - i,
    {
        proof {
            lemma_flatten_prefix_push(chunks_view(chunks@), i as int);
        }
        match reader.push_chunk(chunks[i].as_slice()) {
            Ok(()) => {},
            Err(e) => {
                proof {
                    lemma_flatten_prefix_monotone(chunks_view(chunks@), i as int + 1);
                }
                return Err(e);
            },
        }
        i = i + 1;
    }
    assert(chunks_view(chunks@).subrange(0, chunks@.len() as int) == chunks_view(chunks@));
    Ok(reader.finish())
}

/// Reads a request body with the default ceiling of [`MAX_BODY_SIZE`] bytes.
pub fn get_req_body(chunks: &Vec<Vec<u8>>) -> (r: Result<Vec<u8>, LibError>)
    ensures
        r is Ok <==> flatten(chunks_view(chunks@)).len() <= MAX_BODY_SIZE,
        r is Ok ==> r->Ok_0@ == flatten(chunks_view(chunks@)),
        r is Err ==> r->Err_0 is RequestBodyTooLarge,
{
    read_body(chunks, MAX_BODY_SIZE)
}

/// The flattening of one more chunk of a prefix.
pub proof fn lemma_flatten_prefix_push(cs: Seq<Seq<u8>>, i: int)
    requires
        0 <= i < cs.len(),
    ensures
        flatten(cs.subrange(0, i + 1)) == flatten(cs.subrange(0, i)) + cs[i],
{
    assert(cs.subrange(0, i + 1).drop_last() == cs.subrange(0, i));
}

/// A prefix never flattens to more bytes than the whole sequence.
pub proof fn lemma_flatten_prefix_monotone(cs: Seq<Seq<u8>>, i: int)
    requires
        0 <= i <= cs.len(),
    ensures
        flatten(cs.subrange(0, i)).len() <= flatten(cs).len(),
    decreases cs.len() - i,
{
    if i < cs.len() {
        lemma_flatten_prefix_push(cs, i);
        lemma_flatten_prefix_monotone(cs, i + 1);
    } else {
        assert(cs.subrange(0, i) == cs);
    }
}

} // verus!
