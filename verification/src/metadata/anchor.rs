use crate::errors::DecodeError;
use crate::stream::ByteReader;
use crate::traits::Readable;
use crate::wire::be_val;
use crate::wire::in_range;
use vstd::prelude::*;

verus! {

/// The fixed root record of the container: a version quadruple and seven
/// 64-bit offsets and lengths, 64 bytes in all.  Alone in the format it is
/// serialized big-endian, so every field is read with the byte order
/// reversed.
#[derive(Debug)]
pub struct Anchor {
    pub version_epoch: u16,
    pub version_major: u16,
    pub version_minor: u16,
    pub version_patch: u16,
    pub seek_header: u64,
    pub nbytes_header: u64,
    pub len_header: u64,
    pub seek_footer: u64,
    pub nbytes_footer: u64,
    pub len_footer: u64,
    pub max_key_size: u64,
}

/// Two bytes read most significant first.
fn read_u16_be(reader: &mut ByteReader) -> (r: Result<u16, DecodeError>)
    ensures
        final(reader).data() == old(reader).data(),
        (match r {
            Ok(v) => in_range(old(reader).data(), old(reader).pos(), 2) && v == be_val(
                old(reader).data(),
                old(reader).pos(),
                2,
            ) && final(reader).pos() == old(reader).pos() + 2,
            Err(e) => e == DecodeError::UnexpectedEnd && !in_range(
                old(reader).data(),
                old(reader).pos(),
                2,
            ),
        }),
{
    let ghost d = reader.data();
    let ghost p = reader.pos();
    let b0 = reader.take_byte()?;
    let b1 = reader.take_byte()?;
    proof {
        assert(be_val(d, p, 0) == 0);
        assert(be_val(d, p, 1) == 256 * be_val(d, p, 0) + d[p + 1 - 1]);
        assert(be_val(d, p, 2) == 256 * be_val(d, p, 1) + d[p + 2 - 1]);
    }
    Ok(0x100 * (b0 as u16) + b1 as u16)
}

/// Eight bytes read most significant first.
fn read_u64_be(reader: &mut ByteReader) -> (r: Result<u64, DecodeError>)
    ensures
        final(reader).data() == old(reader).data(),
        (match r {
            Ok(v) => in_range(old(reader).data(), old(reader).pos(), 8) && v == be_val(
                old(reader).data(),
                old(reader).pos(),
                8,
            ) && final(reader).pos() == old(reader).pos() + 8,
            Err(e) => e == DecodeError::UnexpectedEnd && !in_range(
                old(reader).data(),
                old(reader).pos(),
                8,
            ),
        }),
{
    let ghost d = reader.data();
    let ghost p = reader.pos();
    let b0 = reader.take_byte()?;
    let b1 = reader.take_byte()?;
    let b2 = reader.take_byte()?;
    let b3 = reader.take_byte()?;
    let b4 = reader.take_byte()?;
    let b5 = reader.take_byte()?;
    let b6 = reader.take_byte()?;
    let b7 = reader.take_byte()?;
    proof {
        assert(be_val(d, p, 0) == 0);
        assert(be_val(d, p, 1) == 256 * be_val(d, p, 0) + d[p + 1 - 1]);
        assert(be_val(d, p, 2) == 256 * be_val(d, p, 1) + d[p + 2 - 1]);
        assert(be_val(d, p, 3) == 256 * be_val(d, p, 2) + d[p + 3 - 1]);
        assert(be_val(d, p, 4) == 256 * be_val(d, p, 3) + d[p + 4 - 1]);
        assert(be_val(d, p, 5) == 256 * be_val(d, p, 4) + d[p + 5 - 1]);
        assert(be_val(d, p, 6) == 256 * be_val(d, p, 5) + d[p + 6 - 1]);
        assert(be_val(d, p, 7) == 256 * be_val(d, p, 6) + d[p + 7 - 1]);
        assert(be_val(d, p, 8) == 256 * be_val(d, p, 7) + d[p + 8 - 1]);
    }
    Ok(
        0x100_0000_0000_0000 * (b0 as u64) + 0x1_0000_0000_0000 * (b1 as u64) + 0x100_0000_0000 * (
        b2 as u64) + 0x1_0000_0000 * (b3 as u64) + 0x100_0000 * (b4 as u64) + 0x1_0000 * (
        b5 as u64) + 0x100 * (b6 as u64) + b7 as u64,
    )
}

impl Readable for Anchor {
    /// Eleven big-endian fields in fixed order; any short read fails the
    /// whole record, and no field-level validation is performed.
    open spec fn read_rel(data: Seq<u8>, pos: int, out: Result<(Anchor, int), DecodeError>) -> bool {
        if in_range(data, pos, 64) {
            out == Ok::<(Anchor, int), DecodeError>(
                (
                    (Anchor {
                        version_epoch: be_val(data, pos, 2) as u16,
                        version_major: be_val(data, pos + 2, 2) as u16,
                        version_minor: be_val(data, pos + 4, 2) as u16,
                        version_patch: be_val(data, pos + 6, 2) as u16,
                        seek_header: be_val(data, pos + 8, 8) as u64,
                        nbytes_header: be_val(data, pos + 16, 8) as u64,
                        len_header: be_val(data, pos + 24, 8) as u64,
                        seek_footer: be_val(data, pos + 32, 8) as u64,
                        nbytes_footer: be_val(data, pos + 40, 8) as u64,
                        len_footer: be_val(data, pos + 48, 8) as u64,
                        max_key_size: be_val(data, pos + 56, 8) as u64,
                    }),
                    pos + 64,
                ),
            )
        } else {
            out == Err::<(Anchor, int), DecodeError>(DecodeError::UnexpectedEnd)
        }
    }

    open spec fn min_len() -> int {
        64
    }

    proof fn lemma_short_input(data: Seq<u8>, pos: int, out: Result<(Anchor, int), DecodeError>) {
    }

    fn read_from(reader: &mut ByteReader) -> (r: Result<Anchor, DecodeError>) {
        let version_epoch = read_u16_be(reader)?;
        let version_major = read_u16_be(reader)?;
        let version_minor = read_u16_be(reader)?;
        let version_patch = read_u16_be(reader)?;
        let seek_header = read_u64_be(reader)?;
        let nbytes_header = read_u64_be(reader)?;
        let len_header = read_u64_be(reader)?;
        let seek_footer = read_u64_be(reader)?;
        let nbytes_footer = read_u64_be(reader)?;
        let len_footer = read_u64_be(reader)?;
        let max_key_size = read_u64_be(reader)?;
        Ok(
            Anchor {
                version_epoch,
                version_major,
                version_minor,
                version_patch,
                seek_header,
                nbytes_header,
                len_header,
                seek_footer,
                nbytes_footer,
                len_footer,
                max_key_size,
            },
        )
    }
}

} // verus!
