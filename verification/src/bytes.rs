//! Integers as bytes, little-endian and big-endian.

use vstd::prelude::*;

verus! {

/// 256 to the power of `n`.
pub open spec fn pow256(n: nat) -> nat
    decreases n,
{
    if n == 0 {
        1
    } else {
        256 * pow256((n - 1) as nat)
    }
}

/// The number that `s` spells with its least significant byte first.
pub open spec fn le_value(s: Seq<u8>) -> nat
    decreases s.len(),
{
    if s.len() == 0 {
        0
    } else {
        s[0] as nat + 256 * le_value(s.drop_first())
    }
}

/// The number that `s` spells with its most significant byte first.
pub open spec fn be_value(s: Seq<u8>) -> nat
    decreases s.len(),
{
    if s.len() == 0 {
        0
    } else {
        256 * be_value(s.drop_last()) + s.last() as nat
    }
}

/// The `width` low bytes of `v`, least significant first.
pub open spec fn le_bytes(v: nat, width: nat) -> Seq<u8>
    decreases width,
{
    if width == 0 {
        Seq::empty()
    } else {
        seq![(v % 256) as u8] + le_bytes(v / 256, (width - 1) as nat)
    }
}

/// A little-endian number of `n` bytes is below 256 to the `n`.
pub proof fn lemma_le_value_bound(s: Seq<u8>)
    ensures
        le_value(s) < pow256(s.len()),
    decreases s.len(),
{
    if s.len() > 0 {
        lemma_le_value_bound(s.drop_first());
    }
}

/// A big-endian number of `n` bytes is below 256 to the `n`.
pub proof fn lemma_be_value_bound(s: Seq<u8>)
    ensures
        be_value(s) < pow256(s.len()),
    decreases s.len(),
{
    if s.len() > 0 {
        lemma_be_value_bound(s.drop_last());
    }
}

/// Eight bytes hold every 64-bit number, and no more.
pub proof fn lemma_pow256_8()
    ensures
        pow256(0) == 1,
        pow256(1) == 0x100,
        pow256(2) == 0x1_0000,
        pow256(4) == 0x1_0000_0000,
        pow256(8) == 0x1_0000_0000_0000_0000,
{
    reveal_with_fuel(pow256, 9);
}

/// `le_bytes` has the width asked for.
pub proof fn lemma_le_bytes_len(v: nat, width: nat)
    ensures
        le_bytes(v, width).len() == width,
    decreases width,
{
    if width > 0 {
        lemma_le_bytes_len(v / 256, (width - 1) as nat);
    }
}

/// Reading back what `le_bytes` wrote gives the number, where it fits.
pub proof fn lemma_le_round_trip(v: nat, width: nat)
    requires
        v < pow256(width),
    ensures
        le_value(le_bytes(v, width)) == v,
    decreases width,
{
    if width > 0 {
        let rest = le_bytes(v / 256, (width - 1) as nat);
        let all = le_bytes(v, width);
        assert(all.drop_first() =~= rest);
        lemma_le_round_trip(v / 256, (width - 1) as nat);
    }
}

/// Reads `width` bytes at `at`, least significant first.
pub fn read_le(bytes: &Vec<u8>, at: usize, width: usize) -> (v: u64)
    requires
        width <= 8,
        at + width <= bytes@.len(),
    ensures
        v == le_value(bytes@.subrange(at as int, at + width)),
{
    let ghost whole = bytes@.subrange(at as int, at + width);
    let n = bytes.len();
    let mut v: u64 = 0;
    let mut i: usize = width;
    assert(whole.skip(width as int) =~= Seq::<u8>::empty());
    while i > 0
        invariant
            i <= width <= 8,
            at + width <= bytes@.len() == n,
            whole == bytes@.subrange(at as int, at + width),
            v == le_value(whole.skip(i as int)),
        decreases i,
    {
        proof {
            lemma_le_value_bound(whole.skip(i as int));
            lemma_pow_monotone((width - i) as nat, 7);
            lemma_pow256_7();
            assert(whole.skip(i - 1).drop_first() =~= whole.skip(i as int));
        }
        i -= 1;
        v = v * 256 + bytes[at + i] as u64;
    }
    assert(whole.skip(0) =~= whole);
    v
}

/// Reads `width` bytes at `at`, most significant first.
pub fn read_be(bytes: &Vec<u8>, at: usize, width: usize) -> (v: u64)
    requires
        width <= 8,
        at + width <= bytes@.len(),
    ensures
        v == be_value(bytes@.subrange(at as int, at + width)),
{
    let ghost whole = bytes@.subrange(at as int, at + width);
    let n = bytes.len();
    let mut v: u64 = 0;
    let mut i: usize = 0;
    assert(whole.take(0) =~= Seq::<u8>::empty());
    while i < width
        invariant
            i <= width <= 8,
            at + width <= bytes@.len() == n,
            whole == bytes@.subrange(at as int, at + width),
            v == be_value(whole.take(i as int)),
        decreases width - i,
    {
        proof {
            lemma_be_value_bound(whole.take(i as int));
            lemma_pow_monotone(i as nat, 7);
            lemma_pow256_7();
            assert(whole.take(i + 1).drop_last() =~= whole.take(i as int));
        }
        v = v * 256 + bytes[at + i] as u64;
        i += 1;
    }
    assert(whole.take(width as int) =~= whole);
    v
}

/// Appends the eight bytes of `v`, least significant first.
pub fn push_le_u64(out: &mut Vec<u8>, v: u64)
    ensures
        final(out)@ == old(out)@ + le_bytes(v as nat, 8),
{
    let ghost before = out@;
    let mut rest: u64 = v;
    let mut i: usize = 0;
    assert(le_bytes(rest as nat, 0) =~= Seq::<u8>::empty());
    while i < 8
        invariant
            i <= 8,
            out@ + le_bytes(rest as nat, (8 - i) as nat) == before + le_bytes(v as nat, 8),
        decreases 8 - i,
    {
        let ghost tail = le_bytes(rest as nat, (8 - i) as nat);
        let ghost prev = out@;
        out.push((rest % 256) as u8);
        rest = rest / 256;
        i += 1;
        assert(out@ + le_bytes(rest as nat, (8 - i) as nat) =~= prev + tail);
    }
    assert(out@ + le_bytes(rest as nat, 0) =~= out@);
}

/// Overwrites the eight bytes at `at` with `v`, least significant first.
pub fn store_le_u64(out: &mut Vec<u8>, at: usize, v: u64)
    requires
        at + 8 <= old(out)@.len(),
    ensures
        final(out)@ == old(out)@.take(at as int) + le_bytes(v as nat, 8) + old(out)@.skip(at + 8),
{
    let ghost before = out@;
    let n = out.len();
    let mut rest: u64 = v;
    let mut i: usize = 0;
    assert(le_bytes(rest as nat, 0) =~= Seq::<u8>::empty());
    assert(before.take(at as int) + before.skip(at as int) =~= before);
    while i < 8
        invariant
            i <= 8,
            at + 8 <= before.len() == n,
            out@.len() == n,
            out@.take(at + i) + le_bytes(rest as nat, (8 - i) as nat) + before.skip(at + 8) == before.take(
                at as int,
            ) + le_bytes(v as nat, 8) + before.skip(at + 8),
            out@.skip(at + i) == before.skip(at + i),
        decreases 8 - i,
    {
        let ghost prev = out@;
        let ghost tail = le_bytes(rest as nat, (8 - i) as nat);
        out.set(at + i, (rest % 256) as u8);
        rest = rest / 256;
        i += 1;
        proof {
            assert(out@.take(at + i) =~= prev.take(at + i - 1).push(tail[0]));
            assert(out@.take(at + i) + le_bytes(rest as nat, (8 - i) as nat) =~= prev.take(at + i - 1)
                + tail);
            assert(out@.skip(at + i) =~= prev.skip(at + i - 1).skip(1));
            assert(before.skip(at + i) =~= before.skip(at + i - 1).skip(1));
        }
    }
    assert(out@.take(at + 8) + before.skip(at + 8) =~= out@);
    assert(out@.take(at + 8) + le_bytes(rest as nat, 0) =~= out@.take(at + 8));
}

proof fn lemma_pow_monotone(a: nat, b: nat)
    requires
        a <= b,
    ensures
        pow256(a) <= pow256(b),
    decreases b,
{
    if a < b {
        lemma_pow_monotone(a, (b - 1) as nat);
    }
}

proof fn lemma_pow256_7()
    ensures
        pow256(7) == 0x100_0000_0000_0000,
{
    reveal_with_fuel(pow256, 8);
}

} // verus!
