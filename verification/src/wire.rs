use vstd::prelude::*;

verus! {

/// The bytes `pos .. pos + n` all lie inside `data`.
pub open spec fn in_range(data: Seq<u8>, pos: int, n: int) -> bool {
    0 <= pos && pos + n <= data.len()
}

/// `256 ^ n`: one more than the largest value `n` bytes can hold.
pub open spec fn pow256(n: int) -> int
    decreases n,
{
    if n <= 0 {
        1
    } else {
        256 * pow256(n - 1)
    }
}

/// The unsigned value of the `n` bytes starting at `pos`, least significant
/// byte first (little-endian).
pub open spec fn le_val(data: Seq<u8>, pos: int, n: int) -> int
    decreases n,
{
    if n <= 0 {
        0
    } else {
        data[pos] + 256 * le_val(data, pos + 1, n - 1)
    }
}

/// The unsigned value of the `n` bytes starting at `pos`, most significant
/// byte first (big-endian).
pub open spec fn be_val(data: Seq<u8>, pos: int, n: int) -> int
    decreases n,
{
    if n <= 0 {
        0
    } else {
        256 * be_val(data, pos, n - 1) + data[pos + n - 1]
    }
}

/// The two's-complement reading of an unsigned `n`-byte value `v`.
pub open spec fn to_signed(v: int, n: int) -> int {
    if v < pow256(n) / 2 {
        v
    } else {
        v - pow256(n)
    }
}

/// The unsigned `n`-byte pattern that stands for `v` in two's complement.
pub open spec fn to_unsigned(v: int, n: int) -> int {
    if v < 0 {
        v + pow256(n)
    } else {
        v
    }
}

/// The `n` little-endian bytes of the value `v`.
pub open spec fn le_bytes_of(v: int, n: int) -> Seq<u8>
    decreases n,
{
    if n <= 0 {
        Seq::empty()
    } else {
        seq![(v % 256) as u8] + le_bytes_of(v / 256, n - 1)
    }
}

/// The values of `pow256` at the byte counts this format uses.
pub proof fn lemma_pow256_values()
    ensures
        pow256(1) == 0x100,
        pow256(2) == 0x1_0000,
        pow256(4) == 0x1_0000_0000,
        pow256(8) == 0x1_0000_0000_0000_0000,
{
    assert(pow256(0) == 1);
    assert(pow256(1) == 256 * pow256(0));
    assert(pow256(2) == 256 * pow256(1));
    assert(pow256(3) == 256 * pow256(2));
    assert(pow256(4) == 256 * pow256(3));
    assert(pow256(5) == 256 * pow256(4));
    assert(pow256(6) == 256 * pow256(5));
    assert(pow256(7) == 256 * pow256(6));
    assert(pow256(8) == 256 * pow256(7));
}

/// An `n`-byte little-endian value is below `256 ^ n`.
pub proof fn lemma_le_val_bound(data: Seq<u8>, pos: int, n: int)
    requires
        0 <= n,
        in_range(data, pos, n),
    ensures
        0 <= le_val(data, pos, n) < pow256(n),
    decreases n,
{
    if n > 0 {
        lemma_le_val_bound(data, pos + 1, n - 1);
    }
}

/// A little-endian value depends only on the bytes in its window.
pub proof fn lemma_le_val_window(d1: Seq<u8>, p1: int, d2: Seq<u8>, p2: int, n: int)
    requires
        0 <= n,
        in_range(d1, p1, n),
        in_range(d2, p2, n),
        forall|i: int| 0 <= i < n ==> #[trigger] d1[p1 + i] == d2[p2 + i],
    ensures
        le_val(d1, p1, n) == le_val(d2, p2, n),
    decreases n,
{
    if n > 0 {
        assert(d1[p1 + 0] == d2[p2 + 0]);
        assert forall|i: int| 0 <= i < n - 1 implies #[trigger] d1[(p1 + 1) + i] == d2[(p2 + 1)
            + i] by {
            assert(d1[p1 + (i + 1)] == d2[p2 + (i + 1)]);
            assert((p1 + 1) + i == p1 + (i + 1));
        }
        lemma_le_val_window(d1, p1 + 1, d2, p2 + 1, n - 1);
    }
}

/// Decoding the `n` little-endian bytes of `v` gives `v` back, whatever
/// follows them.
pub proof fn lemma_le_bytes_of_round_trip(v: int, n: int, rest: Seq<u8>)
    requires
        0 <= n,
        0 <= v < pow256(n),
    ensures
        le_bytes_of(v, n).len() == n,
        le_val(le_bytes_of(v, n) + rest, 0, n) == v,
    decreases n,
{
    if n > 0 {
        let s = le_bytes_of(v, n) + rest;
        let q = v / 256;
        let r = v % 256;
        vstd::arithmetic::div_mod::lemma_fundamental_div_mod(v, 256);
        vstd::arithmetic::div_mod::lemma_mod_bound(v, 256);
        assert(0 <= q < pow256(n - 1)) by (nonlinear_arith)
            requires
                0 <= v < 256 * pow256(n - 1),
                v == 256 * q + r,
                0 <= r < 256,
        ;
        lemma_le_bytes_of_round_trip(q, n - 1, rest);
        let tail = le_bytes_of(q, n - 1) + rest;
        assert(s =~= seq![(r as u8)] + tail);
        assert(forall|i: int| 0 <= i < n - 1 ==> #[trigger] s[1 + i] == tail[0 + i]);
        lemma_le_val_window(s, 1, tail, 0, n - 1);
        assert(le_val(s, 0, n) == s[0] + 256 * le_val(s, 1, n - 1));
    }
}

} // verus!
