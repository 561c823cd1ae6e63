use crate::errors::DecodeError;
use crate::wire::in_range;
use vstd::prelude::*;

verus! {

/// A forward-only byte source: a buffer together with the position of the
/// next byte to consume.  Decoders advance the position by exactly the bytes
/// they consume on success; after a failure the position is unspecified.
pub struct ByteReader {
    data: Vec<u8>,
    pos: usize,
}

impl ByteReader {
    /// All the bytes this reader ranges over.
    pub closed spec fn data(&self) -> Seq<u8> {
        self.data@
    }

    /// The index of the next byte to be consumed.
    pub closed spec fn pos(&self) -> int {
        self.pos as int
    }

    /// A reader positioned at the start of `data`.
    pub fn new(data: Vec<u8>) -> (r: ByteReader)
        ensures
            r.data() == data@,
            r.pos() == 0,
    {
        ByteReader { data, pos: 0 }
    }

    /// The current position, for callers that snapshot it before a decode.
    pub fn position(&self) -> (p: usize)
        ensures
            p == self.pos(),
    {
        self.pos
    }

    /// Consume the next byte, or fail when none is left.
    pub fn take_byte(&mut self) -> (r: Result<u8, DecodeError>)
        ensures
            final(self).data() == old(self).data(),
            (match r {
                Ok(b) => in_range(old(self).data(), old(self).pos(), 1) && b == old(self).data()[
                    old(self).pos()
                ] && final(self).pos() == old(self).pos() + 1,
                Err(e) => e == DecodeError::UnexpectedEnd && !in_range(
                    old(self).data(),
                    old(self).pos(),
                    1,
                ) && final(self).pos() == old(self).pos(),
            }),
    {
        if self.pos < self.data.len() {
            let b = self.data[self.pos];
            self.pos = self.pos + 1;
            Ok(b)
        } else {
            Err(DecodeError::UnexpectedEnd)
        }
    }
}

/// A growable byte sink, the write-side dual of [`ByteReader`].
pub struct ByteWriter {
    data: Vec<u8>,
}

impl ByteWriter {
    /// All the bytes written so far.
    pub closed spec fn data(&self) -> Seq<u8> {
        self.data@
    }

    /// An empty sink.
    pub fn new() -> (w: ByteWriter)
        ensures
            w.data() == Seq::<u8>::empty(),
    {
        ByteWriter { data: Vec::new() }
    }

    /// Append one byte.
    pub fn push_byte(&mut self, b: u8)
        ensures
            final(self).data() == old(self).data().push(b),
    {
        self.data.push(b);
    }

    /// Hand the written bytes out.
    pub fn into_vec(self) -> (v: Vec<u8>)
        ensures
            v@ == self.data(),
    {
        self.data
    }
}

} // verus!
