use crate::errors::DecodeError;
use crate::stream::ByteReader;
use crate::traits::ReadAs;
use crate::traits::Readable;
use crate::wire::in_range;
use crate::wire::le_val;
use crate::wire::lemma_le_val_bound;
use crate::wire::lemma_pow256_values;
use crate::wire::to_signed;
use vstd::prelude::*;

verus! {

/// The outcomes that decoding `n` successive values of `T` admits starting
/// at `pos`: the values in order together with the final position, or the
/// first error any of them raises.
pub open spec fn read_seq_rel<T: Readable>(
    data: Seq<u8>,
    pos: int,
    n: int,
    out: Result<(Seq<T>, int), DecodeError>,
) -> bool
    decreases n,
{
    if n <= 0 {
        out == Ok::<(Seq<T>, int), DecodeError>((Seq::empty(), pos))
    } else {
        match out {
            Ok((items, end)) => items.len() == n && exists|mid: int|
                #[trigger] T::read_rel(data, pos, Ok((items[0], mid))) && read_seq_rel(
                    data,
                    mid,
                    n - 1,
                    Ok((items.drop_first(), end)),
                ),
            Err(e) => T::read_rel(data, pos, Err::<(T, int), DecodeError>(e)) || exists|
                v: T,
                mid: int,
            |
                #[trigger] T::read_rel(data, pos, Ok((v, mid))) && read_seq_rel(
                    data,
                    mid,
                    n - 1,
                    Err::<(Seq<T>, int), DecodeError>(e),
                ),
        }
    }
}

/// Decoding one more value after `n` successfully decoded ones extends the
/// sequence at its back.
pub proof fn lemma_read_seq_snoc<T: Readable>(
    data: Seq<u8>,
    pos: int,
    n: int,
    items: Seq<T>,
    mid: int,
    v: T,
    end: int,
)
    requires
        0 <= n,
        items.len() == n,
        read_seq_rel::<T>(data, pos, n, Ok((items, mid))),
        T::read_rel(data, mid, Ok((v, end))),
    ensures
        read_seq_rel::<T>(data, pos, n + 1, Ok((items.push(v), end))),
    decreases n,
{
    if n == 0 {
        assert(items.push(v)[0] == v);
        assert(items.push(v).drop_first() =~= Seq::<T>::empty());
        assert(T::read_rel(data, pos, Ok((items.push(v)[0], end))) && read_seq_rel::<T>(
            data,
            end,
            n,
            Ok((items.push(v).drop_first(), end)),
        ));
    } else {
        let mid1 = choose|mid1: int|
            #[trigger] T::read_rel(data, pos, Ok((items[0], mid1))) && read_seq_rel::<T>(
                data,
                mid1,
                n - 1,
                Ok((items.drop_first(), mid)),
            );
        lemma_read_seq_snoc::<T>(data, mid1, n - 1, items.drop_first(), mid, v, end);
        assert(items.push(v)[0] == items[0]);
        assert(items.push(v).drop_first() =~= items.drop_first().push(v));
        assert(T::read_rel(data, pos, Ok((items.push(v)[0], mid1))) && read_seq_rel::<T>(
            data,
            mid1,
            n,
            Ok((items.push(v).drop_first(), end)),
        ));
    }
}

/// An error met after `n` successfully decoded values is the outcome of any
/// longer run that begins with them.
pub proof fn lemma_read_seq_err<T: Readable>(
    data: Seq<u8>,
    pos: int,
    n: int,
    items: Seq<T>,
    mid: int,
    e: DecodeError,
    total: int,
)
    requires
        0 <= n < total,
        items.len() == n,
        read_seq_rel::<T>(data, pos, n, Ok((items, mid))),
        T::read_rel(data, mid, Err::<(T, int), DecodeError>(e)),
    ensures
        read_seq_rel::<T>(data, pos, total, Err::<(Seq<T>, int), DecodeError>(e)),
    decreases n,
{
    if n == 0 {
        assert(T::read_rel(data, pos, Err::<(T, int), DecodeError>(e)));
    } else {
        let mid1 = choose|mid1: int|
            #[trigger] T::read_rel(data, pos, Ok((items[0], mid1))) && read_seq_rel::<T>(
                data,
                mid1,
                n - 1,
                Ok((items.drop_first(), mid)),
            );
        lemma_read_seq_err::<T>(data, mid1, n - 1, items.drop_first(), mid, e, total - 1);
        assert(T::read_rel(data, pos, Ok((items[0], mid1))) && read_seq_rel::<T>(
            data,
            mid1,
            total - 1,
            Err::<(Seq<T>, int), DecodeError>(e),
        ));
    }
}

/// A self-describing wrapper around a run of nested values: a signed 64-bit
/// size field that must be non-positive (its magnitude is kept as the size),
/// a 32-bit item count, then that many values in order.  The size is
/// accounting metadata from the wire; it is not checked against the bytes
/// the contents consume.
#[derive(Debug)]
pub struct ListFrame<T> {
    size: u64,
    num_items: u32,
    pub contents: Vec<T>,
}

impl<T> ListFrame<T> {
    /// The magnitude of the on-wire size field.
    pub closed spec fn spec_size(&self) -> u64 {
        self.size
    }

    /// The on-wire item count.
    pub closed spec fn spec_num_items(&self) -> u32 {
        self.num_items
    }

    /// The decoded items, in on-wire order.
    pub closed spec fn spec_contents(&self) -> Seq<T> {
        self.contents@
    }

    /// The magnitude of the on-wire size field.
    pub fn size(&self) -> (s: u64)
        ensures
            s == self.spec_size(),
    {
        self.size
    }

    /// The on-wire item count.
    pub fn num_items(&self) -> (n: u32)
        ensures
            n == self.spec_num_items(),
    {
        self.num_items
    }
}

impl<T: Readable> Readable for ListFrame<T> {
    /// A positive size is rejected before anything else is read; the item
    /// count governs how many values follow, and the first nested error
    /// propagates unchanged.
    open spec fn read_rel(
        data: Seq<u8>,
        pos: int,
        out: Result<(ListFrame<T>, int), DecodeError>,
    ) -> bool {
        if !in_range(data, pos, 8) {
            out == Err::<(ListFrame<T>, int), DecodeError>(DecodeError::UnexpectedEnd)
        } else {
            let sv = to_signed(le_val(data, pos, 8), 8);
            if sv > 0 {
                out == Err::<(ListFrame<T>, int), DecodeError>(
                    DecodeError::PositiveFrameSize(sv as i64),
                )
            } else if !in_range(data, pos + 8, 4) {
                out == Err::<(ListFrame<T>, int), DecodeError>(DecodeError::UnexpectedEnd)
            } else {
                let count = le_val(data, pos + 8, 4);
                match out {
                    Ok((frame, end)) => {
                        &&& frame.spec_size() == -sv
                        &&& frame.spec_num_items() == count
                        &&& read_seq_rel::<T>(
                            data,
                            pos + 12,
                            count,
                            Ok((frame.spec_contents(), end)),
                        )
                    },
                    Err(e) => read_seq_rel::<T>(
                        data,
                        pos + 12,
                        count,
                        Err::<(Seq<T>, int), DecodeError>(e),
                    ),
                }
            }
        }
    }

    open spec fn min_len() -> int {
        8
    }

    proof fn lemma_short_input(
        data: Seq<u8>,
        pos: int,
        out: Result<(ListFrame<T>, int), DecodeError>,
    ) {
    }

    fn read_from(reader: &mut ByteReader) -> (r: Result<ListFrame<T>, DecodeError>) {
        let ghost d = reader.data();
        let ghost p = reader.pos();
        let sv = i64::read_from(reader)?;
        proof {
            lemma_pow256_values();
            lemma_le_val_bound(d, p, 8);
        }
        if sv > 0 {
            return Err(DecodeError::PositiveFrameSize(sv));
        }
        let size: u64 = if sv == i64::MIN {
            0x8000_0000_0000_0000u64
        } else {
            (-sv) as u64
        };
        let num_items = reader.read_as::<u32>()?;
        proof {
            lemma_le_val_bound(d, p + 8, 4);
        }
        let mut contents: Vec<T> = Vec::new();
        let mut i: u32 = 0;
        while i < num_items
            invariant
                d == old(reader).data(),
                p == old(reader).pos(),
                reader.data() == d,
                i <= num_items,
                in_range(d, p, 8),
                in_range(d, p + 8, 4),
                to_signed(le_val(d, p, 8), 8) <= 0,
                size == -to_signed(le_val(d, p, 8), 8),
                num_items as int == le_val(d, p + 8, 4),
                contents@.len() == i as int,
                read_seq_rel::<T>(d, p + 12, i as int, Ok((contents@, reader.pos()))),
            decreases num_items - i,
        {
            let ghost mid = reader.pos();
            match T::read_from(reader) {
                Ok(item) => {
                    proof {
                        lemma_read_seq_snoc::<T>(
                            d,
                            p + 12,
                            i as int,
                            contents@,
                            mid,
                            item,
                            reader.pos(),
                        );
                    }
                    contents.push(item);
                    i = i + 1;
                },
                Err(e) => {
                    proof {
                        lemma_read_seq_err::<T>(
                            d,
                            p + 12,
                            i as int,
                            contents@,
                            mid,
                            e,
                            num_items as int,
                        );
                    }
                    return Err(e);
                },
            }
        }
        Ok(ListFrame { size, num_items, contents })
    }
}

/// A positive on-wire size fails a list frame with that size, before
/// anything else is read.
pub proof fn lemma_list_frame_positive_size_rejected<T: Readable>(
    data: Seq<u8>,
    pos: int,
    out: Result<(ListFrame<T>, int), DecodeError>,
)
    requires
        ListFrame::<T>::read_rel(data, pos, out),
        in_range(data, pos, 8),
        to_signed(le_val(data, pos, 8), 8) > 0,
    ensures
        out == Err::<(ListFrame<T>, int), DecodeError>(
            DecodeError::PositiveFrameSize(to_signed(le_val(data, pos, 8), 8) as i64),
        ),
{
}

} // verus!
