//! Lazily produced byte sequences.
//!
//! A stream yields its bytes one at a time, on a single forward pass. The adapters here
//! only forward: none of them buffers or looks ahead.

use vstd::prelude::*;
use vstd::std_specs::iter::IteratorSpecImpl;

verus! {

/// What one pull does to a stream: `before` and `after` are the bytes that the stream had
/// yet to yield before and after it, `out` is what it returned.
pub open spec fn pulled(before: Seq<u8>, out: Option<u8>, after: Seq<u8>) -> bool {
    match out {
        Some(b) => before.len() > 0 && b == before[0] && after == before.drop_first(),
        None => before.len() == 0 && after.len() == 0,
    }
}

/// A producer of bytes, one at a time.
///
/// `pending` is the sequence that the stream has yet to yield. A stream keeps to it where
/// it is `lawful`; an implementation that states neither is never `lawful`, and nothing is
/// claimed of it.
pub trait ByteStream {
    /// Whether the stream keeps to `pending`.
    open spec fn lawful(&self) -> bool {
        false
    }

    /// The bytes that the stream has yet to yield.
    open spec fn pending(&self) -> Seq<u8> {
        Seq::empty()
    }

    /// Yields the next byte, or `None` once the stream is exhausted.
    fn pull(&mut self) -> (out: Option<u8>)
        ensures
            final(self).lawful() == old(self).lawful(),
            old(self).lawful() ==> pulled(old(self).pending(), out, final(self).pending()),
    ;
}

/// The bytes of a buffer, from a position on.
pub struct Bytes {
    data: Vec<u8>,
    pos: usize,
}

impl Bytes {
    /// A stream that yields `data` from its start.
    pub fn new(data: Vec<u8>) -> (out: Self)
        ensures
            out.lawful(),
            out.pending() == data@,
    {
        let out = Bytes { data, pos: 0 };
        assert(out.pending() =~= data@);
        out
    }
}

impl ByteStream for Bytes {
    closed spec fn lawful(&self) -> bool {
        true
    }

    closed spec fn pending(&self) -> Seq<u8> {
        if self.pos <= self.data@.len() {
            self.data@.skip(self.pos as int)
        } else {
            Seq::empty()
        }
    }

    fn pull(&mut self) -> (out: Option<u8>) {
        if self.pos < self.data.len() {
            let b = self.data[self.pos];
            self.pos = self.pos + 1;
            assert(self.pending() =~= old(self).pending().drop_first());
            Some(b)
        } else {
            None
        }
    }
}

/// Two streams one after the other: the bytes of `first` until it is exhausted, then
/// those of `second`.
pub struct Chain<A, B> {
    pub first: A,
    pub second: B,
}

impl<A: ByteStream + 'static, B: ByteStream + 'static> Chain<A, B> {
    /// The chain behind a pointer, its type hidden.
    pub fn boxed(self) -> (out: MarshalIterator)
        ensures
            out.lawful() == self.lawful(),
            out.pending() == self.pending(),
    {
        MarshalIterator(Box::new(self))
    }
}

impl<A: ByteStream, B: ByteStream> ByteStream for Chain<A, B> {
    open spec fn lawful(&self) -> bool {
        self.first.lawful() && self.second.lawful()
    }

    open spec fn pending(&self) -> Seq<u8> {
        self.first.pending() + self.second.pending()
    }

    fn pull(&mut self) -> (out: Option<u8>) {
        match self.first.pull() {
            Some(b) => {
                assert(old(self).lawful() ==> self.pending() =~= old(self).pending().drop_first());
                Some(b)
            },
            None => {
                let out = self.second.pull();
                assert(old(self).lawful() ==> old(self).pending() =~= old(self).second.pending());
                assert(old(self).lawful() ==> self.pending() =~= self.second.pending());
                out
            },
        }
    }
}

/// One of two streams, of which exactly one is live.
pub enum Either<L, R> {
    Left(L),
    Right(R),
}

impl<L: ByteStream + 'static, R: ByteStream + 'static> Either<L, R> {
    /// The live stream behind a pointer, its type hidden.
    pub fn boxed(self) -> (out: MarshalIterator)
        ensures
            out.lawful() == self.lawful(),
            out.pending() == self.pending(),
    {
        MarshalIterator(Box::new(self))
    }
}

impl<L: ByteStream, R: ByteStream> ByteStream for Either<L, R> {
    open spec fn lawful(&self) -> bool {
        match self {
            Either::Left(s) => s.lawful(),
            Either::Right(s) => s.lawful(),
        }
    }

    open spec fn pending(&self) -> Seq<u8> {
        match self {
            Either::Left(s) => s.pending(),
            Either::Right(s) => s.pending(),
        }
    }

    fn pull(&mut self) -> (out: Option<u8>) {
        match self {
            Either::Left(s) => s.pull(),
            Either::Right(s) => s.pull(),
        }
    }
}

/// A stream behind a pointer, whatever its type: the one type under which every encoder
/// hands out its bytes.
pub struct MarshalIterator(pub Box<dyn ByteStream>);

impl ByteStream for MarshalIterator {
    open spec fn lawful(&self) -> bool {
        self.0.lawful()
    }

    open spec fn pending(&self) -> Seq<u8> {
        self.0.pending()
    }

    fn pull(&mut self) -> (out: Option<u8>) {
        self.0.pull()
    }
}

impl MarshalIterator {
    /// A stream that yields nothing.
    pub fn empty() -> (out: Self)
        ensures
            out.lawful(),
            out.pending() == Seq::<u8>::empty(),
    {
        MarshalIterator(Box::new(Bytes::new(Vec::new())))
    }

    /// A stream that yields `data`.
    pub fn from_vec(data: Vec<u8>) -> (out: Self)
        ensures
            out.lawful(),
            out.pending() == data@,
    {
        MarshalIterator(Box::new(Bytes::new(data)))
    }

    /// This stream, then `next`.
    pub fn chain(self, next: MarshalIterator) -> (out: Self)
        ensures
            out.lawful() == (self.lawful() && next.lawful()),
            out.pending() == self.pending() + next.pending(),
    {
        Chain { first: self, second: next }.boxed()
    }

    /// Drains the stream into a vector.
    pub fn into_vec(self) -> (out: Vec<u8>)
        requires
            self.lawful(),
        ensures
            out@ == self.pending(),
    {
        let mut stream = self;
        let mut out: Vec<u8> = Vec::new();
        loop
            invariant
                stream.lawful(),
                out@ + stream.pending() == self.pending(),
            decreases stream.pending().len(),
        {
            let ghost before = stream.pending();
            let ghost done = out@;
            match stream.pull() {
                Some(b) => {
                    out.push(b);
                    assert(out@ + stream.pending() =~= done + before);
                },
                None => {
                    assert(out@ + stream.pending() =~= out@);
                    return out;
                },
            }
        }
    }
}

impl Iterator for MarshalIterator {
    type Item = u8;

    fn next(&mut self) -> (ret: Option<u8>) {
        self.0.pull()
    }
}

impl IteratorSpecImpl for MarshalIterator {
    open spec fn obeys_prophetic_iter_laws(&self) -> bool {
        self.lawful()
    }

    open spec fn remaining(&self) -> Seq<u8> {
        self.pending()
    }

    open spec fn will_return_none(&self) -> bool {
        true
    }

    open spec fn decrease(&self) -> Option<nat> {
        Some(self.pending().len())
    }

    open spec fn initial_value_relation(&self, init: &Self) -> bool {
        init.pending() == self.pending()
    }

    open spec fn peek(&self, index: int) -> Option<u8> {
        if 0 <= index < self.pending().len() {
            Some(self.pending()[index])
        } else {
            None
        }
    }
}

} // verus!
