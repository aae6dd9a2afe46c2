//! Little-endian positional notation in base 256: what a run of bytes denotes
//! as a number, and the bytes of a number at a given width.

use vstd::arithmetic::div_mod::lemma_div_denominator;
use vstd::prelude::*;
use vstd::slice::slice_index_get;

verus! {

/// 256 to the power `n`: how many values `n` bytes can tell apart.
pub open spec fn pow256(n: nat) -> nat
    decreases n,
{
    if n == 0 {
        1
    } else {
        256 * pow256((n - 1) as nat)
    }
}

/// The number that `bytes` denote when the first byte is the least significant.
pub open spec fn le_value(bytes: Seq<u8>) -> nat
    decreases bytes.len(),
{
    if bytes.len() == 0 {
        0
    } else {
        bytes[0] as nat + 256 * le_value(bytes.drop_first())
    }
}

/// The `width` low-order bytes of `value`, least significant first.
pub open spec fn le_bytes(value: nat, width: nat) -> Seq<u8>
    decreases width,
{
    if width == 0 {
        Seq::empty()
    } else {
        seq![(value % 256) as u8] + le_bytes(value / 256, (width - 1) as nat)
    }
}

/// `n` zero bytes.
pub open spec fn zeros(n: nat) -> Seq<u8> {
    Seq::new(n, |i: int| 0u8)
}

/// No power of 256 is zero.
pub proof fn lemma_pow256_positive(n: nat)
    ensures
        pow256(n) >= 1,
    decreases n,
{
    if n > 0 {
        lemma_pow256_positive((n - 1) as nat);
    }
}

/// A higher power of 256 is no smaller.
pub proof fn lemma_pow256_monotonic(a: nat, b: nat)
    requires
        a <= b,
    ensures
        pow256(a) <= pow256(b),
    decreases b,
{
    if a < b {
        lemma_pow256_monotonic(a, (b - 1) as nat);
    }
}

/// A number written out at a width takes that many bytes.
pub proof fn lemma_le_bytes_len(value: nat, width: nat)
    ensures
        le_bytes(value, width).len() == width,
    decreases width,
{
    if width > 0 {
        lemma_le_bytes_len(value / 256, (width - 1) as nat);
    }
}

/// A run of bytes denotes a number below 256 to the power of its length.
pub proof fn lemma_le_value_bound(bytes: Seq<u8>)
    ensures
        le_value(bytes) < pow256(bytes.len()),
    decreases bytes.len(),
{
    if bytes.len() > 0 {
        lemma_le_value_bound(bytes.drop_first());
    }
}

/// Writing out the number that `bytes` denote, at their own length, gives
/// `bytes` back.
pub proof fn lemma_le_bytes_of_value(bytes: Seq<u8>)
    ensures
        le_bytes(le_value(bytes), bytes.len()) == bytes,
    decreases bytes.len(),
{
    if bytes.len() > 0 {
        let rest = bytes.drop_first();
        lemma_le_bytes_of_value(rest);
        let v = le_value(bytes);
        assert(v % 256 == bytes[0] as nat && v / 256 == le_value(rest));
        assert(le_bytes(v, bytes.len()) =~= bytes);
    }
}

/// Reading back the bytes of a number that fits the width gives the number.
pub proof fn lemma_le_value_of_bytes(value: nat, width: nat)
    requires
        value < pow256(width),
    ensures
        le_value(le_bytes(value, width)) == value,
    decreases width,
{
    if width > 0 {
        let rest = le_bytes(value / 256, (width - 1) as nat);
        assert(value / 256 < pow256((width - 1) as nat));
        lemma_le_value_of_bytes(value / 256, (width - 1) as nat);
        let all = le_bytes(value, width);
        assert(all.drop_first() =~= rest);
    }
}

/// The value of two runs laid end to end.
pub proof fn lemma_le_value_concat(low: Seq<u8>, high: Seq<u8>)
    ensures
        le_value(low + high) == le_value(low) + pow256(low.len()) * le_value(high),
    decreases low.len(),
{
    if low.len() == 0 {
        assert(low + high =~= high);
    } else {
        let h = le_value(high);
        let rest = low.drop_first();
        lemma_le_value_concat(rest, high);
        assert((low + high).drop_first() =~= rest + high);
        let p = pow256(rest.len());
        assert(pow256(low.len()) == 256 * p);
        assert(256 * (le_value(rest) + p * h) == 256 * le_value(rest) + (256 * p) * h)
            by (nonlinear_arith);
    }
}

/// Zero bytes denote zero.
pub proof fn lemma_le_value_zeros(n: nat)
    ensures
        le_value(zeros(n)) == 0,
    decreases n,
{
    if n > 0 {
        lemma_le_value_zeros((n - 1) as nat);
        assert(zeros(n).drop_first() =~= zeros((n - 1) as nat));
    }
}

/// Zero bytes after the most significant one add nothing.
pub proof fn lemma_le_value_padded(bytes: Seq<u8>, n: nat)
    ensures
        le_value(bytes + zeros(n)) == le_value(bytes),
{
    lemma_le_value_concat(bytes, zeros(n));
    lemma_le_value_zeros(n);
}

/// A run whose last byte is not zero denotes a number that needs its whole
/// length.
pub proof fn lemma_le_value_needs_len(bytes: Seq<u8>)
    requires
        bytes.len() > 0,
        bytes.last() != 0,
    ensures
        le_value(bytes) >= pow256((bytes.len() - 1) as nat),
{
    let low = bytes.drop_last();
    let high = seq![bytes.last()];
    assert(bytes =~= low + high);
    lemma_le_value_concat(low, high);
    assert(le_value(high) == bytes.last() as nat) by {
        assert(high.drop_first() =~= Seq::<u8>::empty());
        reveal_with_fuel(le_value, 2);
    }
    let p = pow256(low.len());
    let h = le_value(high);
    assert(p * h >= p) by (nonlinear_arith)
        requires
            h >= 1,
            p >= 0,
    ;
}

/// The powers of 256 that count the values of the machine's integers.
pub proof fn lemma_pow256_small()
    ensures
        pow256(0) == 1,
        pow256(1) == 0x100,
        pow256(2) == 0x1_0000,
        pow256(3) == 0x100_0000,
        pow256(4) == 0x1_0000_0000,
        pow256(5) == 0x100_0000_0000,
        pow256(6) == 0x1_0000_0000_0000,
        pow256(7) == 0x100_0000_0000_0000,
        pow256(8) == 0x1_0000_0000_0000_0000,
{
    reveal_with_fuel(pow256, 9);
}

/// One more byte of width adds the byte that stands at that position.
pub proof fn lemma_le_bytes_extend(value: nat, width: nat)
    ensures
        le_bytes(value, width + 1) == le_bytes(value, width).push(
            ((value / pow256(width)) % 256) as u8,
        ),
    decreases width,
{
    if width == 0 {
        reveal_with_fuel(le_bytes, 2);
        assert(pow256(0) == 1);
        assert(value / 1 == value);
    } else {
        let w = (width - 1) as nat;
        lemma_le_bytes_extend(value / 256, w);
        lemma_pow256_positive(w);
        lemma_div_denominator(value as int, 256, pow256(w) as int);
        assert(pow256(width) == 256 * pow256(w));
    }
}

/// Appends the `width` low-order bytes of `x`, least significant first.
pub fn push_le(out: &mut Vec<u8>, x: u64, width: usize)
    requires
        width <= 8,
    ensures
        final(out)@ == old(out)@ + le_bytes(x as nat, width as nat),
{
    let mut rest: u64 = x;
    let mut i: usize = 0;
    assert(out@ =~= old(out)@ + le_bytes(x as nat, 0));
    assert(x as nat / pow256(0) == x as nat) by {
        assert(pow256(0) == 1);
    }
    while i < width
        invariant
            i <= width <= 8,
            rest as nat == x as nat / pow256(i as nat),
            out@ == old(out)@ + le_bytes(x as nat, i as nat),
        decreases width - i,
    {
        out.push((rest % 256) as u8);
        proof {
            lemma_le_bytes_extend(x as nat, i as nat);
            lemma_pow256_positive(i as nat);
            lemma_div_denominator(x as int, pow256(i as nat) as int, 256);
            assert(pow256((i + 1) as nat) == 256 * pow256(i as nat));
            assert(pow256(i as nat) * 256 == 256 * pow256(i as nat)) by (nonlinear_arith);
            assert(out@ =~= old(out)@ + le_bytes(x as nat, (i + 1) as nat));
        }
        rest = rest / 256;
        i += 1;
    }
}

/// The number that the `width` bytes of `bytes` from `at` on denote, least
/// significant first.
pub fn read_le(bytes: &[u8], at: usize, width: usize) -> (value: u64)
    requires
        width <= 8,
        at + width <= bytes@.len(),
    ensures
        value as nat == le_value(bytes@.subrange(at as int, at + width)),
{
    let len: usize = bytes.len();
    let mut value: u64 = 0;
    let mut i: usize = width;
    while i > 0
        invariant
            i <= width <= 8,
            at + width <= bytes@.len(),
            len == bytes@.len(),
            value as nat == le_value(bytes@.subrange(at + i, at + width)),
        decreases i,
    {
        let byte: u8 = *slice_index_get(bytes, at + i - 1);
        proof {
            let above = bytes@.subrange(at + i, at + width);
            let with = bytes@.subrange(at + i - 1, at + width);
            assert(with.drop_first() =~= above);
            lemma_le_value_bound(above);
            lemma_pow256_monotonic(above.len(), 7);
            lemma_pow256_small();
        }
        value = value * 256 + byte as u64;
        i -= 1;
    }
    value
}

} // verus!
