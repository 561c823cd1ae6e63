use crate::errors::DecodeError;
use crate::stream::ByteReader;
use crate::traits::Readable;
use crate::wire::in_range;
use crate::wire::le_val;
use crate::wire::lemma_le_val_bound;
use crate::wire::lemma_pow256_values;
use crate::wire::to_signed;
use vstd::prelude::*;

verus! {

/// A self-describing wrapper around exactly one nested value: a signed
/// 64-bit size field that must be non-negative, then the value.  The size is
/// accounting metadata from the wire; it is not checked against the bytes
/// the content consumes.
#[derive(Debug)]
pub struct RecordFrame<T> {
    size: u64,
    pub content: T,
}

impl<T> RecordFrame<T> {
    /// The on-wire size field.
    pub closed spec fn spec_size(&self) -> u64 {
        self.size
    }

    /// The nested value.
    pub closed spec fn spec_content(&self) -> T {
        self.content
    }

    /// The on-wire size field.
    pub fn size(&self) -> (s: u64)
        ensures
            s == self.spec_size(),
    {
        self.size
    }
}

impl<T: Readable> Readable for RecordFrame<T> {
    /// A negative size is rejected before the content is touched; any
    /// content error propagates unchanged.
    open spec fn read_rel(
        data: Seq<u8>,
        pos: int,
        out: Result<(RecordFrame<T>, int), DecodeError>,
    ) -> bool {
        if !in_range(data, pos, 8) {
            out == Err::<(RecordFrame<T>, int), DecodeError>(DecodeError::UnexpectedEnd)
        } else {
            let sv = to_signed(le_val(data, pos, 8), 8);
            if sv < 0 {
                out == Err::<(RecordFrame<T>, int), DecodeError>(
                    DecodeError::NegativeFrameSize(sv as i64),
                )
            } else {
                match out {
                    Ok((frame, end)) => frame.spec_size() == sv && T::read_rel(
                        data,
                        pos + 8,
                        Ok((frame.spec_content(), end)),
                    ),
                    Err(e) => T::read_rel(data, pos + 8, Err::<(T, int), DecodeError>(e)),
                }
            }
        }
    }

    open spec fn min_len() -> int {
        8
    }

    proof fn lemma_short_input(
        data: Seq<u8>,
        pos: int,
        out: Result<(RecordFrame<T>, int), DecodeError>,
    ) {
    }

    fn read_from(reader: &mut ByteReader) -> (r: Result<RecordFrame<T>, DecodeError>) {
        let ghost d = reader.data();
        let ghost p = reader.pos();
        let sv = i64::read_from(reader)?;
        proof {
            lemma_pow256_values();
            lemma_le_val_bound(d, p, 8);
        }
        if sv < 0 {
            return Err(DecodeError::NegativeFrameSize(sv));
        }
        let content = T::read_from(reader)?;
        Ok(RecordFrame { size: sv as u64, content })
    }
}

/// A negative on-wire size fails a record frame with that size, before any
/// content is read.
pub proof fn lemma_record_frame_negative_size_rejected<T: Readable>(
    data: Seq<u8>,
    pos: int,
    out: Result<(RecordFrame<T>, int), DecodeError>,
)
    requires
        RecordFrame::<T>::read_rel(data, pos, out),
        in_range(data, pos, 8),
        to_signed(le_val(data, pos, 8), 8) < 0,
    ensures
        out == Err::<(RecordFrame<T>, int), DecodeError>(
            DecodeError::NegativeFrameSize(to_signed(le_val(data, pos, 8), 8) as i64),
        ),
{
}

} // verus!
