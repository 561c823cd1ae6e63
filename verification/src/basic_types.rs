use crate::errors::DecodeError;
use crate::stream::ByteReader;
use crate::stream::ByteWriter;
use crate::traits::Readable;
use crate::traits::Writable;
use crate::wire::in_range;
use crate::wire::le_bytes_of;
use crate::wire::le_val;
use crate::wire::lemma_le_bytes_of_round_trip;
use crate::wire::lemma_le_val_bound;
use crate::wire::lemma_pow256_values;
use crate::wire::pow256;
use crate::wire::to_signed;
use crate::wire::to_unsigned;
use vstd::prelude::*;

verus! {

impl Readable for u8 {
    open spec fn read_rel(data: Seq<u8>, pos: int, out: Result<(u8, int), DecodeError>) -> bool {
        if in_range(data, pos, 1) {
            out == Ok::<(u8, int), DecodeError>((data[pos], pos + 1))
        } else {
            out == Err::<(u8, int), DecodeError>(DecodeError::UnexpectedEnd)
        }
    }

    open spec fn min_len() -> int {
        1
    }

    proof fn lemma_short_input(data: Seq<u8>, pos: int, out: Result<(u8, int), DecodeError>) {
    }

    fn read_from(reader: &mut ByteReader) -> (r: Result<u8, DecodeError>) {
        let b = reader.take_byte()?;
        Ok(b)
    }
}

impl Readable for u16 {
    open spec fn read_rel(data: Seq<u8>, pos: int, out: Result<(u16, int), DecodeError>) -> bool {
        if in_range(data, pos, 2) {
            out == Ok::<(u16, int), DecodeError>((le_val(data, pos, 2) as u16, pos + 2))
        } else {
            out == Err::<(u16, int), DecodeError>(DecodeError::UnexpectedEnd)
        }
    }

    open spec fn min_len() -> int {
        2
    }

    proof fn lemma_short_input(data: Seq<u8>, pos: int, out: Result<(u16, int), DecodeError>) {
    }

    fn read_from(reader: &mut ByteReader) -> (r: Result<u16, DecodeError>) {
        let ghost d = reader.data();
        let ghost p = reader.pos();
        let b0 = reader.take_byte()?;
        let b1 = reader.take_byte()?;
        proof {
            assert(le_val(d, p + 2, 0) == 0);
            assert(le_val(d, p + 1, 1) == d[p + 1] + 256 * le_val(d, p + 2, 0));
            assert(le_val(d, p, 2) == d[p] + 256 * le_val(d, p + 1, 1));
        }
        Ok(b0 as u16 + 0x100 * (b1 as u16))
    }
}

impl Readable for u32 {
    open spec fn read_rel(data: Seq<u8>, pos: int, out: Result<(u32, int), DecodeError>) -> bool {
        if in_range(data, pos, 4) {
            out == Ok::<(u32, int), DecodeError>((le_val(data, pos, 4) as u32, pos + 4))
        } else {
            out == Err::<(u32, int), DecodeError>(DecodeError::UnexpectedEnd)
        }
    }

    open spec fn min_len() -> int {
        4
    }

    proof fn lemma_short_input(data: Seq<u8>, pos: int, out: Result<(u32, int), DecodeError>) {
    }

    fn read_from(reader: &mut ByteReader) -> (r: Result<u32, DecodeError>) {
        let ghost d = reader.data();
        let ghost p = reader.pos();
        let b0 = reader.take_byte()?;
        let b1 = reader.take_byte()?;
        let b2 = reader.take_byte()?;
        let b3 = reader.take_byte()?;
        proof {
            assert(le_val(d, p + 4, 0) == 0);
            assert(le_val(d, p + 3, 1) == d[p + 3] + 256 * le_val(d, p + 4, 0));
            assert(le_val(d, p + 2, 2) == d[p + 2] + 256 * le_val(d, p + 3, 1));
            assert(le_val(d, p + 1, 3) == d[p + 1] + 256 * le_val(d, p + 2, 2));
            assert(le_val(d, p, 4) == d[p] + 256 * le_val(d, p + 1, 3));
        }
        Ok(b0 as u32 + 0x100 * (b1 as u32) + 0x1_0000 * (b2 as u32) + 0x100_0000 * (b3 as u32))
    }
}

impl Readable for u64 {
    open spec fn read_rel(data: Seq<u8>, pos: int, out: Result<(u64, int), DecodeError>) -> bool {
        if in_range(data, pos, 8) {
            out == Ok::<(u64, int), DecodeError>((le_val(data, pos, 8) as u64, pos + 8))
        } else {
            out == Err::<(u64, int), DecodeError>(DecodeError::UnexpectedEnd)
        }
    }

    open spec fn min_len() -> int {
        8
    }

    proof fn lemma_short_input(data: Seq<u8>, pos: int, out: Result<(u64, int), DecodeError>) {
    }

    fn read_from(reader: &mut ByteReader) -> (r: Result<u64, DecodeError>) {
        let ghost d = reader.data();
        let ghost p = reader.pos();
        let b0 = reader.take_byte()?;
        let b1 = reader.take_byte()?;
        let b2 = reader.take_byte()?;
        let b3 = reader.take_byte()?;
        let b4 = reader.take_byte()?;
        let b5 = reader.take_byte()?;
        let b6 = reader.take_byte()?;
        let b7 = reader.take_byte()?;
        proof {
            assert(le_val(d, p + 8, 0) == 0);
            assert(le_val(d, p + 7, 1) == d[p + 7] + 256 * le_val(d, p + 8, 0));
            assert(le_val(d, p + 6, 2) == d[p + 6] + 256 * le_val(d, p + 7, 1));
            assert(le_val(d, p + 5, 3) == d[p + 5] + 256 * le_val(d, p + 6, 2));
            assert(le_val(d, p + 4, 4) == d[p + 4] + 256 * le_val(d, p + 5, 3));
            assert(le_val(d, p + 3, 5) == d[p + 3] + 256 * le_val(d, p + 4, 4));
            assert(le_val(d, p + 2, 6) == d[p + 2] + 256 * le_val(d, p + 3, 5));
            assert(le_val(d, p + 1, 7) == d[p + 1] + 256 * le_val(d, p + 2, 6));
            assert(le_val(d, p, 8) == d[p] + 256 * le_val(d, p + 1, 7));
        }
        Ok(
            b0 as u64 + 0x100 * (b1 as u64) + 0x1_0000 * (b2 as u64) + 0x100_0000 * (b3 as u64)
                + 0x1_0000_0000 * (b4 as u64) + 0x100_0000_0000 * (b5 as u64) + 0x1_0000_0000_0000
                * (b6 as u64) + 0x100_0000_0000_0000 * (b7 as u64),
        )
    }
}

impl Writable for u8 {
    open spec fn encoding(&self) -> Seq<u8> {
        le_bytes_of(*self as int, 1)
    }

    fn write_to(&self, writer: &mut ByteWriter) -> (r: Result<usize, DecodeError>) {
        writer.push_byte(*self);
        proof {
            let n = *self as int;
            assert(le_bytes_of(n / 256, 0) =~= Seq::<u8>::empty());
            assert(n % 256 == n);
            assert(le_bytes_of(n, 1) =~= seq![(n % 256) as u8]);
            assert(writer.data() =~= old(writer).data() + self.encoding());
        }
        Ok(1)
    }
}

impl Writable for u16 {
    open spec fn encoding(&self) -> Seq<u8> {
        le_bytes_of(*self as int, 2)
    }

    fn write_to(&self, writer: &mut ByteWriter) -> (r: Result<usize, DecodeError>) {
        let v0 = *self;
        let v1 = v0 / 256;
        writer.push_byte((v0 % 256) as u8);
        writer.push_byte((v1 % 256) as u8);
        proof {
            let n = *self as int;
            assert(le_bytes_of(n / 256 / 256, 0) =~= Seq::<u8>::empty());
            assert(le_bytes_of(n / 256, 1) =~= seq![(n / 256 % 256) as u8] + le_bytes_of(
                n / 256 / 256,
                0,
            ));
            assert(le_bytes_of(n, 2) =~= seq![(n % 256) as u8] + le_bytes_of(n / 256, 1));
            assert(writer.data() =~= old(writer).data() + self.encoding());
        }
        Ok(2)
    }
}

impl Writable for u32 {
    open spec fn encoding(&self) -> Seq<u8> {
        le_bytes_of(*self as int, 4)
    }

    fn write_to(&self, writer: &mut ByteWriter) -> (r: Result<usize, DecodeError>) {
        let v0 = *self;
        let v1 = v0 / 256;
        let v2 = v1 / 256;
        let v3 = v2 / 256;
        writer.push_byte((v0 % 256) as u8);
        writer.push_byte((v1 % 256) as u8);
        writer.push_byte((v2 % 256) as u8);
        writer.push_byte((v3 % 256) as u8);
        proof {
            let n = *self as int;
            assert(le_bytes_of(n / 256 / 256 / 256 / 256, 0) =~= Seq::<u8>::empty());
            assert(le_bytes_of(n / 256 / 256 / 256, 1) =~= seq![(n / 256 / 256 / 256 % 256) as u8]
                + le_bytes_of(n / 256 / 256 / 256 / 256, 0));
            assert(le_bytes_of(n / 256 / 256, 2) =~= seq![(n / 256 / 256 % 256) as u8]
                + le_bytes_of(n / 256 / 256 / 256, 1));
            assert(le_bytes_of(n / 256, 3) =~= seq![(n / 256 % 256) as u8] + le_bytes_of(
                n / 256 / 256,
                2,
            ));
            assert(le_bytes_of(n, 4) =~= seq![(n % 256) as u8] + le_bytes_of(n / 256, 3));
            assert(writer.data() =~= old(writer).data() + self.encoding());
        }
        Ok(4)
    }
}

impl Writable for u64 {
    open spec fn encoding(&self) -> Seq<u8> {
        le_bytes_of(*self as int, 8)
    }

    fn write_to(&self, writer: &mut ByteWriter) -> (r: Result<usize, DecodeError>) {
        let v0 = *self;
        let v1 = v0 / 256;
        let v2 = v1 / 256;
        let v3 = v2 / 256;
        let v4 = v3 / 256;
        let v5 = v4 / 256;
        let v6 = v5 / 256;
        let v7 = v6 / 256;
        writer.push_byte((v0 % 256) as u8);
        writer.push_byte((v1 % 256) as u8);
        writer.push_byte((v2 % 256) as u8);
        writer.push_byte((v3 % 256) as u8);
        writer.push_byte((v4 % 256) as u8);
        writer.push_byte((v5 % 256) as u8);
        writer.push_byte((v6 % 256) as u8);
        writer.push_byte((v7 % 256) as u8);
        proof {
            let n = *self as int;
            let n1 = n / 256;
            let n2 = n1 / 256;
            let n3 = n2 / 256;
            let n4 = n3 / 256;
            let n5 = n4 / 256;
            let n6 = n5 / 256;
            let n7 = n6 / 256;
            assert(le_bytes_of(n7 / 256, 0) =~= Seq::<u8>::empty());
            assert(le_bytes_of(n7, 1) =~= seq![(n7 % 256) as u8] + le_bytes_of(n7 / 256, 0));
            assert(le_bytes_of(n6, 2) =~= seq![(n6 % 256) as u8] + le_bytes_of(n6 / 256, 1));
            assert(le_bytes_of(n5, 3) =~= seq![(n5 % 256) as u8] + le_bytes_of(n5 / 256, 2));
            assert(le_bytes_of(n4, 4) =~= seq![(n4 % 256) as u8] + le_bytes_of(n4 / 256, 3));
            assert(le_bytes_of(n3, 5) =~= seq![(n3 % 256) as u8] + le_bytes_of(n3 / 256, 4));
            assert(le_bytes_of(n2, 6) =~= seq![(n2 % 256) as u8] + le_bytes_of(n2 / 256, 5));
            assert(le_bytes_of(n1, 7) =~= seq![(n1 % 256) as u8] + le_bytes_of(n1 / 256, 6));
            assert(le_bytes_of(n, 8) =~= seq![(n % 256) as u8] + le_bytes_of(n / 256, 7));
            assert(writer.data() =~= old(writer).data() + self.encoding());
        }
        Ok(8)
    }
}

impl Writable for i8 {
    open spec fn encoding(&self) -> Seq<u8> {
        le_bytes_of(to_unsigned(*self as int, 1), 1)
    }

    fn write_to(&self, writer: &mut ByteWriter) -> (r: Result<usize, DecodeError>) {
        proof {
            lemma_pow256_values();
        }
        let raw: u8 = if *self >= 0 {
            *self as u8
        } else {
            ((*self as i16) + 0x100) as u8
        };
        let n = raw.write_to(writer)?;
        Ok(n)
    }
}

impl Writable for i16 {
    open spec fn encoding(&self) -> Seq<u8> {
        le_bytes_of(to_unsigned(*self as int, 2), 2)
    }

    fn write_to(&self, writer: &mut ByteWriter) -> (r: Result<usize, DecodeError>) {
        proof {
            lemma_pow256_values();
        }
        let raw: u16 = if *self >= 0 {
            *self as u16
        } else {
            ((*self as i32) + 0x1_0000) as u16
        };
        let n = raw.write_to(writer)?;
        Ok(n)
    }
}

impl Writable for i32 {
    open spec fn encoding(&self) -> Seq<u8> {
        le_bytes_of(to_unsigned(*self as int, 4), 4)
    }

    fn write_to(&self, writer: &mut ByteWriter) -> (r: Result<usize, DecodeError>) {
        proof {
            lemma_pow256_values();
        }
        let raw: u32 = if *self >= 0 {
            *self as u32
        } else {
            ((*self as i64) + 0x1_0000_0000) as u32
        };
        let n = raw.write_to(writer)?;
        Ok(n)
    }
}

impl Writable for i64 {
    open spec fn encoding(&self) -> Seq<u8> {
        le_bytes_of(to_unsigned(*self as int, 8), 8)
    }

    fn write_to(&self, writer: &mut ByteWriter) -> (r: Result<usize, DecodeError>) {
        proof {
            lemma_pow256_values();
        }
        let raw: u64 = if *self >= 0 {
            *self as u64
        } else {
            ((*self as i128) + 0x1_0000_0000_0000_0000) as u64
        };
        let n = raw.write_to(writer)?;
        Ok(n)
    }
}

impl Writable for char {
    /// The low byte of the code point: faithful only for ASCII, like the
    /// decode side.
    open spec fn encoding(&self) -> Seq<u8> {
        le_bytes_of(((*self as u32) % 256) as int, 1)
    }

    fn write_to(&self, writer: &mut ByteWriter) -> (r: Result<usize, DecodeError>) {
        let c32 = *self as u32;
        let raw: u8 = (c32 % 256) as u8;
        let n = raw.write_to(writer)?;
        Ok(n)
    }
}

impl Readable for i8 {
    open spec fn read_rel(data: Seq<u8>, pos: int, out: Result<(i8, int), DecodeError>) -> bool {
        if in_range(data, pos, 1) {
            out == Ok::<(i8, int), DecodeError>(
                (to_signed(le_val(data, pos, 1), 1) as i8, pos + 1),
            )
        } else {
            out == Err::<(i8, int), DecodeError>(DecodeError::UnexpectedEnd)
        }
    }

    open spec fn min_len() -> int {
        1
    }

    proof fn lemma_short_input(data: Seq<u8>, pos: int, out: Result<(i8, int), DecodeError>) {
    }

    fn read_from(reader: &mut ByteReader) -> (r: Result<i8, DecodeError>) {
        let ghost d = reader.data();
        let ghost p = reader.pos();
        let raw = u8::read_from(reader)?;
        proof {
            lemma_pow256_values();
            lemma_le_val_bound(d, p, 1);
            assert(le_val(d, p + 1, 0) == 0);
            assert(le_val(d, p, 1) == d[p] + 256 * le_val(d, p + 1, 0));
        }
        if raw < 0x80 {
            Ok(raw as i8)
        } else {
            Ok(((raw as i16) - 0x100) as i8)
        }
    }
}

impl Readable for i16 {
    open spec fn read_rel(data: Seq<u8>, pos: int, out: Result<(i16, int), DecodeError>) -> bool {
        if in_range(data, pos, 2) {
            out == Ok::<(i16, int), DecodeError>(
                (to_signed(le_val(data, pos, 2), 2) as i16, pos + 2),
            )
        } else {
            out == Err::<(i16, int), DecodeError>(DecodeError::UnexpectedEnd)
        }
    }

    open spec fn min_len() -> int {
        2
    }

    proof fn lemma_short_input(data: Seq<u8>, pos: int, out: Result<(i16, int), DecodeError>) {
    }

    fn read_from(reader: &mut ByteReader) -> (r: Result<i16, DecodeError>) {
        let ghost d = reader.data();
        let ghost p = reader.pos();
        let raw = u16::read_from(reader)?;
        proof {
            lemma_pow256_values();
            lemma_le_val_bound(d, p, 2);
        }
        if raw < 0x8000 {
            Ok(raw as i16)
        } else {
            Ok(((raw as i32) - 0x1_0000) as i16)
        }
    }
}

impl Readable for i32 {
    open spec fn read_rel(data: Seq<u8>, pos: int, out: Result<(i32, int), DecodeError>) -> bool {
        if in_range(data, pos, 4) {
            out == Ok::<(i32, int), DecodeError>(
                (to_signed(le_val(data, pos, 4), 4) as i32, pos + 4),
            )
        } else {
            out == Err::<(i32, int), DecodeError>(DecodeError::UnexpectedEnd)
        }
    }

    open spec fn min_len() -> int {
        4
    }

    proof fn lemma_short_input(data: Seq<u8>, pos: int, out: Result<(i32, int), DecodeError>) {
    }

    fn read_from(reader: &mut ByteReader) -> (r: Result<i32, DecodeError>) {
        let ghost d = reader.data();
        let ghost p = reader.pos();
        let raw = u32::read_from(reader)?;
        proof {
            lemma_pow256_values();
            lemma_le_val_bound(d, p, 4);
        }
        if raw < 0x8000_0000 {
            Ok(raw as i32)
        } else {
            Ok(((raw as i64) - 0x1_0000_0000) as i32)
        }
    }
}

impl Readable for i64 {
    open spec fn read_rel(data: Seq<u8>, pos: int, out: Result<(i64, int), DecodeError>) -> bool {
        if in_range(data, pos, 8) {
            out == Ok::<(i64, int), DecodeError>(
                (to_signed(le_val(data, pos, 8), 8) as i64, pos + 8),
            )
        } else {
            out == Err::<(i64, int), DecodeError>(DecodeError::UnexpectedEnd)
        }
    }

    open spec fn min_len() -> int {
        8
    }

    proof fn lemma_short_input(data: Seq<u8>, pos: int, out: Result<(i64, int), DecodeError>) {
    }

    fn read_from(reader: &mut ByteReader) -> (r: Result<i64, DecodeError>) {
        let ghost d = reader.data();
        let ghost p = reader.pos();
        let raw = u64::read_from(reader)?;
        proof {
            lemma_pow256_values();
            lemma_le_val_bound(d, p, 8);
        }
        if raw < 0x8000_0000_0000_0000 {
            Ok(raw as i64)
        } else {
            Ok(((raw as i128) - 0x1_0000_0000_0000_0000) as i64)
        }
    }
}

impl Readable for char {
    /// One byte widened to a code point: ASCII-only by contract, a non-ASCII
    /// byte yields an incorrect but non-failing value.
    open spec fn read_rel(data: Seq<u8>, pos: int, out: Result<(char, int), DecodeError>) -> bool {
        if in_range(data, pos, 1) {
            out == Ok::<(char, int), DecodeError>((data[pos] as char, pos + 1))
        } else {
            out == Err::<(char, int), DecodeError>(DecodeError::UnexpectedEnd)
        }
    }

    open spec fn min_len() -> int {
        1
    }

    proof fn lemma_short_input(data: Seq<u8>, pos: int, out: Result<(char, int), DecodeError>) {
    }

    fn read_from(reader: &mut ByteReader) -> (r: Result<char, DecodeError>) {
        let b = u8::read_from(reader)?;
        Ok(b as char)
    }
}

/// Relies on `String::from_utf8`: it returns the string whose characters
/// decode the bytes as UTF-8 exactly when the bytes are valid UTF-8, and
/// rejects them otherwise.  `valid_utf8` and `decode_utf8` are vstd's
/// formalisation of the encoding.
#[verifier::external_body]
fn string_from_utf8(bytes: Vec<u8>) -> (r: Option<String>)
    ensures
        (match r {
            Some(s) => vstd::utf8::valid_utf8(bytes@) && s@ == vstd::utf8::decode_utf8(bytes@),
            None => !vstd::utf8::valid_utf8(bytes@),
        }),
{
    match String::from_utf8(bytes) {
        Ok(s) => Some(s),
        Err(_) => None,
    }
}

impl Readable for String {
    /// A 4-byte little-endian length prefix, then exactly that many bytes,
    /// which must be valid UTF-8.  A zero prefix yields the empty string.
    open spec fn read_rel(data: Seq<u8>, pos: int, out: Result<(String, int), DecodeError>) -> bool {
        if !in_range(data, pos, 4) {
            out == Err::<(String, int), DecodeError>(DecodeError::UnexpectedEnd)
        } else {
            let len = le_val(data, pos, 4);
            if !in_range(data, pos + 4, len) {
                out == Err::<(String, int), DecodeError>(DecodeError::UnexpectedEnd)
            } else {
                let bytes = data.subrange(pos + 4, pos + 4 + len);
                if vstd::utf8::valid_utf8(bytes) {
                    match out {
                        Ok((s, end)) => s@ == vstd::utf8::decode_utf8(bytes) && end == pos + 4
                            + len,
                        Err(_) => false,
                    }
                } else {
                    out == Err::<(String, int), DecodeError>(DecodeError::InvalidUtf8)
                }
            }
        }
    }

    open spec fn min_len() -> int {
        4
    }

    proof fn lemma_short_input(data: Seq<u8>, pos: int, out: Result<(String, int), DecodeError>) {
    }

    fn read_from(reader: &mut ByteReader) -> (r: Result<String, DecodeError>) {
        let ghost d = reader.data();
        let ghost p = reader.pos();
        let len = u32::read_from(reader)?;
        proof {
            lemma_pow256_values();
            lemma_le_val_bound(d, p, 4);
        }
        let mut buf: Vec<u8> = Vec::new();
        let mut i: u32 = 0;
        while i < len
            invariant
                d == old(reader).data(),
                p == old(reader).pos(),
                reader.data() == d,
                i <= len,
                reader.pos() == p + 4 + i,
                in_range(d, p, 4),
                len as int == le_val(d, p, 4),
                in_range(d, p + 4, i as int),
                buf@ == d.subrange(p + 4, p + 4 + i),
            decreases len - i,
        {
            let b = match reader.take_byte() {
                Ok(b) => b,
                Err(e) => {
                    return Err(e);
                },
            };
            buf.push(b);
            i = i + 1;
            proof {
                assert(buf@ =~= d.subrange(p + 4, p + 4 + i));
            }
        }
        match string_from_utf8(buf) {
            Some(s) => Ok(s),
            None => Err(DecodeError::InvalidUtf8),
        }
    }
}

/// A zero length prefix yields the empty string, never an error.
pub proof fn lemma_string_zero_length(data: Seq<u8>, pos: int, out: Result<(String, int), DecodeError>)
    requires
        String::read_rel(data, pos, out),
        in_range(data, pos, 4),
        le_val(data, pos, 4) == 0,
    ensures
        (match out {
            Ok((s, end)) => s@ == Seq::<char>::empty() && end == pos + 4,
            Err(_) => false,
        }),
{
    let bytes = data.subrange(pos + 4, pos + 4);
    assert(bytes =~= Seq::<u8>::empty());
    assert(vstd::utf8::valid_utf8(bytes));
    assert(vstd::utf8::decode_utf8(bytes) =~= Seq::<char>::empty());
}

/// A length prefix that promises more bytes than remain fails as a short
/// read.
pub proof fn lemma_string_length_overrun(
    data: Seq<u8>,
    pos: int,
    out: Result<(String, int), DecodeError>,
)
    requires
        String::read_rel(data, pos, out),
        in_range(data, pos, 4),
        !in_range(data, pos + 4, le_val(data, pos, 4)),
    ensures
        out == Err::<(String, int), DecodeError>(DecodeError::UnexpectedEnd),
{
}

/// A payload of the right length that is not valid UTF-8 fails as malformed
/// data, not as a short read.
pub proof fn lemma_string_invalid_utf8(
    data: Seq<u8>,
    pos: int,
    out: Result<(String, int), DecodeError>,
)
    requires
        String::read_rel(data, pos, out),
        in_range(data, pos, 4),
        in_range(data, pos + 4, le_val(data, pos, 4)),
        !vstd::utf8::valid_utf8(data.subrange(pos + 4, pos + 4 + le_val(data, pos, 4))),
    ensures
        out == Err::<(String, int), DecodeError>(DecodeError::InvalidUtf8),
{
}

/// Decoding the encoding of a `u8` yields the value back at the position
/// just past it, whatever bytes follow.
pub proof fn lemma_round_trip_u8(v: u8, rest: Seq<u8>)
    ensures
        u8::read_rel(v.encoding() + rest, 0, Ok((v, 1))),
{
    lemma_pow256_values();
    lemma_le_bytes_of_round_trip(v as int, 1, rest);
    let s = v.encoding() + rest;
    assert(le_val(s, 1, 0) == 0);
    assert(le_val(s, 0, 1) == s[0] + 256 * le_val(s, 1, 0));
}

/// Decoding the encoding of a `u16` yields the value back.
pub proof fn lemma_round_trip_u16(v: u16, rest: Seq<u8>)
    ensures
        u16::read_rel(v.encoding() + rest, 0, Ok((v, 2))),
{
    lemma_pow256_values();
    lemma_le_bytes_of_round_trip(v as int, 2, rest);
}

/// Decoding the encoding of a `u32` yields the value back.
pub proof fn lemma_round_trip_u32(v: u32, rest: Seq<u8>)
    ensures
        u32::read_rel(v.encoding() + rest, 0, Ok((v, 4))),
{
    lemma_pow256_values();
    lemma_le_bytes_of_round_trip(v as int, 4, rest);
}

/// Decoding the encoding of a `u64` yields the value back.
pub proof fn lemma_round_trip_u64(v: u64, rest: Seq<u8>)
    ensures
        u64::read_rel(v.encoding() + rest, 0, Ok((v, 8))),
{
    lemma_pow256_values();
    lemma_le_bytes_of_round_trip(v as int, 8, rest);
}

/// Decoding the encoding of an `i8` yields the value back.
pub proof fn lemma_round_trip_i8(v: i8, rest: Seq<u8>)
    ensures
        i8::read_rel(v.encoding() + rest, 0, Ok((v, 1))),
{
    lemma_pow256_values();
    let u = to_unsigned(v as int, 1);
    lemma_le_bytes_of_round_trip(u, 1, rest);
    let s = v.encoding() + rest;
    assert(le_val(s, 1, 0) == 0);
    assert(le_val(s, 0, 1) == s[0] + 256 * le_val(s, 1, 0));
    assert(pow256(1) / 2 == 0x80);
}

/// Decoding the encoding of an `i16` yields the value back.
pub proof fn lemma_round_trip_i16(v: i16, rest: Seq<u8>)
    ensures
        i16::read_rel(v.encoding() + rest, 0, Ok((v, 2))),
{
    lemma_pow256_values();
    let u = to_unsigned(v as int, 2);
    lemma_le_bytes_of_round_trip(u, 2, rest);
    assert(pow256(2) / 2 == 0x8000);
}

/// Decoding the encoding of an `i32` yields the value back.
pub proof fn lemma_round_trip_i32(v: i32, rest: Seq<u8>)
    ensures
        i32::read_rel(v.encoding() + rest, 0, Ok((v, 4))),
{
    lemma_pow256_values();
    let u = to_unsigned(v as int, 4);
    lemma_le_bytes_of_round_trip(u, 4, rest);
    assert(pow256(4) / 2 == 0x8000_0000);
}

/// Decoding the encoding of an `i64` yields the value back.
pub proof fn lemma_round_trip_i64(v: i64, rest: Seq<u8>)
    ensures
        i64::read_rel(v.encoding() + rest, 0, Ok((v, 8))),
{
    lemma_pow256_values();
    let u = to_unsigned(v as int, 8);
    lemma_le_bytes_of_round_trip(u, 8, rest);
    assert(pow256(8) / 2 == 0x8000_0000_0000_0000);
}

/// Decoding the encoding of an ASCII `char` yields the value back.  A code
/// point past the ASCII range does not survive the one-byte codec, which is
/// the codec's stated limitation; `'\u{100}'` for instance comes back as a
/// different character.
pub proof fn lemma_round_trip_char(v: char, rest: Seq<u8>)
    requires
        (v as u32) < 128,
    ensures
        char::read_rel(v.encoding() + rest, 0, Ok((v, 1))),
{
    lemma_pow256_values();
    let u = ((v as u32) % 256) as int;
    lemma_le_bytes_of_round_trip(u, 1, rest);
    let s = v.encoding() + rest;
    assert(le_val(s, 1, 0) == 0);
    assert(le_val(s, 0, 1) == s[0] + 256 * le_val(s, 1, 0));
    vstd::utf8::char_u32_cast(v, v as u32);
}

} // verus!
