//! Byte sources: where input bytes come from.
//!
//! A [`ByteReader`] yields bytes on demand from a cursor over some underlying
//! stream. Two implementations are provided: [`BufferSource`], backed by a
//! fixed in-memory buffer, and [`ThrottledSource`], which serves the same
//! bytes but caps every read at a fixed chunk size, exercising the
//! partial-read behaviour of pull-style host callbacks. Host environments may
//! implement [`ByteReader`] themselves to pull bytes from an external
//! synchronous read callback.

use vstd::prelude::*;

verus! {

/// A failure signalled by the underlying byte stream, distinct from a plain
/// end-of-stream. It surfaces as a decode error in the token output.
pub struct ReadFailure {
    /// Human-readable description of the failure.
    pub message: String,
}

/// A pull-style source of bytes.
///
/// `remaining` is the sequence of bytes the source will still deliver. Every
/// successful read hands out a prefix of it — possibly a partial one — and a
/// successful empty read means the stream has ended.
pub trait ByteReader {
    /// The bytes not yet consumed from this source.
    spec fn remaining(&self) -> Seq<u8>;

    /// Whether this source can never signal a read failure. Reading preserves
    /// it, and a source for which it holds only ever returns `Ok`; the
    /// in-memory sources of this crate define it as true.
    spec fn infallible(&self) -> bool;

    /// Read up to `max` bytes from the current position, advancing past them.
    ///
    /// An `Ok` chunk is always a prefix of the remaining bytes; it may be
    /// shorter than `max` even when more bytes follow (a partial read). An
    /// empty `Ok` chunk is returned exactly when the stream is exhausted, so
    /// callers must keep requesting rather than treat a short read as the end.
    /// An `Err` can come only from a source that is not infallible.
    fn read_chunk(&mut self, max: usize) -> (r: Result<Vec<u8>, ReadFailure>)
        requires
            max >= 1,
        ensures
            match r {
                Ok(chunk) => {
                    &&& chunk@.len() <= max
                    &&& chunk@.len() <= old(self).remaining().len()
                    &&& chunk@ == old(self).remaining().take(chunk@.len() as int)
                    &&& final(self).remaining() == old(self).remaining().skip(
                        chunk@.len() as int,
                    )
                    &&& (chunk@.len() == 0 <==> old(self).remaining().len() == 0)
                    &&& final(self).infallible() == old(self).infallible()
                },
                Err(_) => !old(self).infallible(),
            },
    ;
}

/// A byte source over a fixed in-memory buffer: reads copy from the buffer
/// and advance a cursor; they never block and never fail.
pub struct BufferSource {
    data: Vec<u8>,
    cursor: usize,
}

impl BufferSource {
    /// Wrap a fixed byte buffer; reading starts at its first byte.
    pub fn new(data: Vec<u8>) -> (r: BufferSource)
        ensures
            r.remaining() == data@,
    {
        BufferSource { data, cursor: 0 }
    }
}

impl ByteReader for BufferSource {
    closed spec fn remaining(&self) -> Seq<u8> {
        if self.cursor <= self.data@.len() {
            self.data@.skip(self.cursor as int)
        } else {
            Seq::empty()
        }
    }

    open spec fn infallible(&self) -> bool {
        true
    }

    fn read_chunk(&mut self, max: usize) -> (r: Result<Vec<u8>, ReadFailure>)
        ensures
            r is Ok,
            r matches Ok(chunk) ==> chunk@.len() == vstd::math::min(
                max as int,
                old(self).remaining().len() as int,
            ),
    {
        let len = self.data.len();
        if self.cursor >= len {
            proof {
                assert(self.remaining() =~= Seq::<u8>::empty());
            }
            return Ok(Vec::new());
        }
        let avail = len - self.cursor;
        let take = if max < avail {
            max
        } else {
            avail
        };
        let mut chunk: Vec<u8> = Vec::new();
        let mut i: usize = 0;
        while i < take
            invariant
                i <= take,
                take >= 1,
                self.cursor + take <= self.data@.len(),
                self.data@.len() <= usize::MAX,
                chunk@ =~= self.data@.subrange(self.cursor as int, self.cursor + i),
            decreases take - i,
        {
            chunk.push(self.data[self.cursor + i]);
            i += 1;
        }
        let ghost pre = *self;
        self.cursor = self.cursor + take;
        proof {
            assert(chunk@ =~= pre.remaining().take(take as int));
            assert(self.remaining() =~= pre.remaining().skip(take as int));
        }
        Ok(chunk)
    }
}

/// A byte source over a fixed buffer that never returns more than
/// `chunk_limit` bytes per read, regardless of how many were requested. It
/// models a host callback that delivers data in small pieces.
pub struct ThrottledSource {
    data: Vec<u8>,
    cursor: usize,
    chunk_limit: usize,
}

impl ThrottledSource {
    /// The cap on the length of every returned chunk.
    pub closed spec fn chunk_cap(&self) -> int {
        if self.chunk_limit >= 1 {
            self.chunk_limit as int
        } else {
            1
        }
    }

    /// Wrap a fixed byte buffer, serving at most `chunk_limit` bytes per
    /// read; a limit of zero is treated as one.
    pub fn new(data: Vec<u8>, chunk_limit: usize) -> (r: ThrottledSource)
        ensures
            r.remaining() == data@,
            r.chunk_cap() == if chunk_limit >= 1 {
                chunk_limit as int
            } else {
                1int
            },
    {
        ThrottledSource { data, cursor: 0, chunk_limit }
    }
}

impl ByteReader for ThrottledSource {
    closed spec fn remaining(&self) -> Seq<u8> {
        if self.cursor <= self.data@.len() {
            self.data@.skip(self.cursor as int)
        } else {
            Seq::empty()
        }
    }

    open spec fn infallible(&self) -> bool {
        true
    }

    fn read_chunk(&mut self, max: usize) -> (r: Result<Vec<u8>, ReadFailure>)
        ensures
            r is Ok,
            final(self).chunk_cap() == old(self).chunk_cap(),
            r matches Ok(chunk) ==> chunk@.len() == vstd::math::min(
                vstd::math::min(max as int, old(self).chunk_cap()),
                old(self).remaining().len() as int,
            ),
    {
        let len = self.data.len();
        if self.cursor >= len {
            proof {
                assert(self.remaining() =~= Seq::<u8>::empty());
            }
            return Ok(Vec::new());
        }
        let limit = if self.chunk_limit >= 1 {
            self.chunk_limit
        } else {
            1
        };
        let cap = if max < limit {
            max
        } else {
            limit
        };
        let avail = len - self.cursor;
        let take = if cap < avail {
            cap
        } else {
            avail
        };
        let mut chunk: Vec<u8> = Vec::new();
        let mut i: usize = 0;
        while i < take
            invariant
                i <= take,
                take >= 1,
                self.cursor + take <= self.data@.len(),
                self.data@.len() <= usize::MAX,
                chunk@ =~= self.data@.subrange(self.cursor as int, self.cursor + i),
            decreases take - i,
        {
            chunk.push(self.data[self.cursor + i]);
            i += 1;
        }
        let ghost pre = *self;
        self.cursor = self.cursor + take;
        proof {
            assert(chunk@ =~= pre.remaining().take(take as int));
            assert(self.remaining() =~= pre.remaining().skip(take as int));
        }
        Ok(chunk)
    }
}

/// Drain a byte source to its end, tolerating partial reads: chunks are
/// requested until an empty one signals end-of-stream. Returns exactly the
/// bytes the source had remaining, or the source's failure.
pub fn read_all<S: ByteReader>(src: &mut S) -> (r: Result<Vec<u8>, ReadFailure>)
    ensures
        match r {
            Ok(data) => data@ == old(src).remaining(),
            Err(_) => !old(src).infallible(),
        },
{
    let mut out: Vec<u8> = Vec::new();
    loop
        invariant
            out@ + src.remaining() == old(src).remaining(),
            src.infallible() == old(src).infallible(),
        decreases src.remaining().len(),
    {
        let ghost rem0 = src.remaining();
        let ghost out0 = out@;
        match src.read_chunk(4096) {
            Err(f) => {
                return Err(f);
            },
            Ok(chunk) => {
                if chunk.len() == 0 {
                    proof {
                        assert(out@ + rem0 =~= out@);
                        assert(out@ =~= old(src).remaining());
                    }
                    return Ok(out);
                }
                let ghost k = chunk@.len() as int;
                let mut c = chunk;
                out.append(&mut c);
                proof {
                    assert(rem0.take(k) + rem0.skip(k) =~= rem0);
                    assert(out@ + src.remaining() =~= out0 + rem0);
                }
            },
        }
    }
}

} // verus!
