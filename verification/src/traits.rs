use crate::errors::DecodeError;
use crate::stream::ByteReader;
use crate::stream::ByteWriter;
use vstd::prelude::*;

verus! {

/// The decode capability: a value of the implementing type can be produced
/// by consuming bytes from a reader.
///
/// `read_rel` is the type's decode relation: it says which outcomes the
/// format admits when decoding starts at `pos` in `data`.  A successful
/// outcome pairs the value with the position just past the bytes it
/// consumed; a failed one names the error.  Every implementation defines the
/// relation so that at most one outcome (up to the value's view) satisfies
/// it, and `read_from` promises to return such an outcome.
pub trait Readable: Sized {
    /// Which outcomes decoding at `pos` in `data` admits.
    spec fn read_rel(data: Seq<u8>, pos: int, out: Result<(Self, int), DecodeError>) -> bool;

    /// The least number of bytes below which no outcome but a short read is
    /// possible.
    spec fn min_len() -> int;

    /// With fewer than `min_len` bytes left, every admitted outcome is the
    /// short-read error: truncated input never panics and never yields a
    /// value.
    proof fn lemma_short_input(data: Seq<u8>, pos: int, out: Result<(Self, int), DecodeError>)
        requires
            Self::read_rel(data, pos, out),
            0 <= pos,
            data.len() < pos + Self::min_len(),
        ensures
            out == Err::<(Self, int), DecodeError>(DecodeError::UnexpectedEnd),
    ;

    /// Decode one value, advancing the reader past exactly the bytes the
    /// encoding defines; on failure the position is unspecified.
    fn read_from(reader: &mut ByteReader) -> (r: Result<Self, DecodeError>)
        ensures
            final(reader).data() == old(reader).data(),
            (match r {
                Ok(v) => Self::read_rel(
                    old(reader).data(),
                    old(reader).pos(),
                    Ok((v, final(reader).pos())),
                ),
                Err(e) => Self::read_rel(old(reader).data(), old(reader).pos(), Err(e)),
            }),
    ;
}

/// The encode capability, the dual of [`Readable`]: writing a value appends
/// the exact byte sequence its encoding defines.
pub trait Writable: Sized {
    /// The bytes that writing `self` appends.
    spec fn encoding(&self) -> Seq<u8>;

    /// Append the encoding of `self` and report how many bytes were written.
    fn write_to(&self, writer: &mut ByteWriter) -> (r: Result<usize, DecodeError>)
        ensures
            final(writer).data() == old(writer).data() + self.encoding(),
            (match r {
                Ok(n) => n == self.encoding().len(),
                Err(_) => false,
            }),
    ;
}

/// A type that can cross the wire in both directions.
pub trait Serializable: Readable + Writable {

}

impl<T: Readable + Writable> Serializable for T {

}

/// The decode helper on a byte source: `read_as::<T>()` forwards to the
/// capability implementation selected by `T`, with no state of its own.
pub trait ReadAs {
    /// All the bytes the source ranges over.
    spec fn source_data(&self) -> Seq<u8>;

    /// The index of the next byte to be consumed.
    spec fn source_pos(&self) -> int;

    /// Decode the next value as type `T`.
    fn read_as<T: Readable>(&mut self) -> (r: Result<T, DecodeError>)
        ensures
            final(self).source_data() == old(self).source_data(),
            (match r {
                Ok(v) => T::read_rel(
                    old(self).source_data(),
                    old(self).source_pos(),
                    Ok((v, final(self).source_pos())),
                ),
                Err(e) => T::read_rel(old(self).source_data(), old(self).source_pos(), Err(e)),
            }),
    ;
}

impl ReadAs for ByteReader {
    open spec fn source_data(&self) -> Seq<u8> {
        self.data()
    }

    open spec fn source_pos(&self) -> int {
        self.pos()
    }

    fn read_as<T: Readable>(&mut self) -> (r: Result<T, DecodeError>) {
        T::read_from(self)
    }
}

/// The encode helper on a byte sink, the dual of [`ReadAs`].
pub trait WriteObj {
    /// All the bytes written so far.
    spec fn sink_data(&self) -> Seq<u8>;

    /// Append the encoding of `obj`.
    fn write_obj<T: Writable>(&mut self, obj: &T) -> (r: Result<usize, DecodeError>)
        ensures
            final(self).sink_data() == old(self).sink_data() + obj.encoding(),
            (match r {
                Ok(n) => n == obj.encoding().len(),
                Err(_) => false,
            }),
    ;
}

impl WriteObj for ByteWriter {
    open spec fn sink_data(&self) -> Seq<u8> {
        self.data()
    }

    fn write_obj<T: Writable>(&mut self, obj: &T) -> (r: Result<usize, DecodeError>) {
        obj.write_to(self)
    }
}

} // verus!
