//! Bit facts used by the ready-queue bitmaps.
use vstd::prelude::*;

verus! {

/// Whether bit `b` of `w` is set.
pub open spec fn bit_of(w: u64, b: u64) -> bool {
    (w >> b) & 1u64 == 1u64
}

pub proof fn lemma_bit_or(w: u64, b: u64, c: u64)
    requires
        b < 64,
        c < 64,
    ensures
        bit_of(w | (1u64 << b), c) == (bit_of(w, c) || c == b),
{
    assert(((w | (1u64 << b)) >> c) & 1u64 == 1u64 <==> (((w >> c) & 1u64 == 1u64) || c == b))
        by (bit_vector) requires b < 64, c < 64;
}

pub proof fn lemma_bit_and_not(w: u64, b: u64, c: u64)
    requires
        b < 64,
        c < 64,
    ensures
        bit_of(w & !(1u64 << b), c) == (bit_of(w, c) && c != b),
{
    assert(((w & !(1u64 << b)) >> c) & 1u64 == 1u64 <==> (((w >> c) & 1u64 == 1u64) && c != b))
        by (bit_vector) requires b < 64, c < 64;
}

pub proof fn lemma_bit_nonzero(w: u64, c: u64)
    requires
        c < 64,
        bit_of(w, c),
    ensures
        w != 0,
{
    assert((w >> c) & 1u64 == 1u64 ==> w != 0) by (bit_vector) requires c < 64;
}

pub proof fn lemma_zero_no_bits(w: u64, c: u64)
    requires
        c < 64,
        w == 0,
    ensures
        !bit_of(w, c),
{
    assert(w == 0 ==> (w >> c) & 1u64 == 0u64) by (bit_vector);
}

/// A non-zero word shifted right by `63` minus its leading zeros is 1.
pub(crate) proof fn lemma_leading_zeros_shift(w: u64)
    requires
        w != 0,
    ensures
        0 <= vstd::std_specs::bits::u64_leading_zeros(w) < 64,
        w >> ((63 - vstd::std_specs::bits::u64_leading_zeros(w)) as u64) == 1,
    decreases w,
{
    reveal(vstd::std_specs::bits::u64_leading_zeros);
    if w == 1 {
        assert(vstd::std_specs::bits::u64_leading_zeros(0) == 64);
        assert(w >> 0u64 == 1) by (bit_vector) requires w == 1;
    } else {
        let v = w / 2;
        assert(v != 0);
        lemma_leading_zeros_shift(v);
        let h = (63 - vstd::std_specs::bits::u64_leading_zeros(v)) as u64;
        assert(h < 63) by {
            assert(v <= 0x7fff_ffff_ffff_ffffu64);
            assert(v >> h == 1);
            assert(v <= 0x7fff_ffff_ffff_ffffu64 && v >> h == 1 ==> h < 63) by (bit_vector);
        }
        assert(w >> ((h + 1) as u64) == (w / 2) >> h) by (bit_vector) requires h < 63;
    }
}

/// The highest set bit of a non-zero word is `63` minus its leading zeros.
pub proof fn lemma_highest_bit(w: u64)
    requires
        w != 0,
    ensures
        0 <= vstd::std_specs::bits::u64_leading_zeros(w) < 64,
        bit_of(w, (63 - vstd::std_specs::bits::u64_leading_zeros(w)) as u64),
        forall|c: u64|
            63 - vstd::std_specs::bits::u64_leading_zeros(w) < c < 64 ==> !#[trigger] bit_of(w, c),
{
    lemma_leading_zeros_shift(w);
    let h = (63 - vstd::std_specs::bits::u64_leading_zeros(w)) as u64;
    assert(w >> h == 1 ==> (w >> h) & 1u64 == 1u64) by (bit_vector);
    assert forall|c: u64| h < c < 64 implies !#[trigger] bit_of(w, c) by {
        assert(w >> h == 1 && h < c && c < 64 ==> (w >> c) & 1u64 == 0u64) by (bit_vector);
    }
}

/// A priority below 256 is its word index times 64 plus its bit index.
pub proof fn lemma_prio_split(p: u64)
    requires
        p < 256,
    ensures
        p >> 6u64 == p / 64,
        p & 63u64 == p % 64,
        p >> 6u64 < 4,
{
    assert(p >> 6u64 == p / 64) by (bit_vector);
    assert(p & 63u64 == p % 64) by (bit_vector);
}

/// Joining a word index below 4 and a bit index gives their priority.
pub proof fn lemma_prio_join(l: u64, b: u64)
    requires
        l < 4,
        b < 64,
    ensures
        (l << 6u64) | b == l * 64 + b,
{
    assert((l << 6u64) | b == l * 64 + b) by (bit_vector) requires l < 4, b < 64;
}


/// Setting a priority's bits with `addToBitmap` and clearing them with `removeFromBitmap`
/// gives back both words, when the priority's second-level bit was clear and the first-level
/// bit marked exactly whether the second-level word was non-zero (as the bitmap invariant
/// keeps it): `l2` is the second-level word, `l1` the first-level word, `b2` and `b1` the bit
/// positions `prio % 64` and `prio / 64`.
pub proof fn lemma_bitmap_add_remove(l1: u64, l2: u64, b1: u64, b2: u64)
    requires
        b1 < 64,
        b2 < 64,
        l2 & (1u64 << b2) == 0,
        (l1 & (1u64 << b1) != 0) == (l2 != 0),
    ensures
        ({
            let a1 = l1 | (1u64 << b1);
            let a2 = l2 | (1u64 << b2);
            let r2 = a2 & !(1u64 << b2);
            &&& r2 == l2
            &&& (if r2 == 0 { a1 & !(1u64 << b1) } else { a1 }) == l1
        }),
{
    assert(((l2 | (1u64 << b2)) & !(1u64 << b2)) == l2) by (bit_vector)
        requires
            b2 < 64,
            l2 & (1u64 << b2) == 0,
    ;
    assert(l2 == 0 ==> ((l1 | (1u64 << b1)) & !(1u64 << b1)) == l1) by (bit_vector)
        requires
            b1 < 64,
            (l1 & (1u64 << b1) != 0) == (l2 != 0),
    ;
    assert(l2 != 0 ==> (l1 | (1u64 << b1)) == l1) by (bit_vector)
        requires
            b1 < 64,
            (l1 & (1u64 << b1) != 0) == (l2 != 0),
    ;
}

/// Two words with the same bits from `n` up agree from `n` up.
proof fn lemma_bits_agree_from(x: u64, y: u64, n: u64)
    requires
        n < 64,
        forall|b: u64| n <= b < 64 ==> #[trigger] bit_of(x, b) == bit_of(y, b),
    ensures
        x >> n == y >> n,
    decreases 64 - n,
{
    assert(bit_of(x, n) == bit_of(y, n));
    if n == 63 {
        assert(x >> 63u64 == y >> 63u64) by (bit_vector)
            requires
                ((x >> 63u64) & 1u64 == 1u64) == ((y >> 63u64) & 1u64 == 1u64),
        ;
    } else {
        let m = (n + 1) as u64;
        lemma_bits_agree_from(x, y, m);
        assert(x >> n == y >> n) by (bit_vector)
            requires
                n < 63,
                m == n + 1,
                x >> m == y >> m,
                ((x >> n) & 1u64 == 1u64) == ((y >> n) & 1u64 == 1u64),
        ;
    }
}

/// Two words with the same bits are equal.
pub proof fn lemma_bits_equal(x: u64, y: u64)
    requires
        forall|b: u64| b < 64 ==> #[trigger] bit_of(x, b) == bit_of(y, b),
    ensures
        x == y,
{
    lemma_bits_agree_from(x, y, 0);
    assert(x >> 0u64 == x && y >> 0u64 == y) by (bit_vector);
}
} // verus!
