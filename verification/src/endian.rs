//! Fixed-width integers as byte sequences, in either byte order.
//!
//! A byte sequence is read as a numeral in base 256. The functions that move
//! integers in and out of buffers are stated against that reading.

use vstd::prelude::*;

verus! {

/// The number that `s` spells in base 256, least significant digit first.
pub open spec fn le_value(s: Seq<u8>) -> nat
    decreases s.len(),
{
    if s.len() == 0 {
        0
    } else {
        s[0] as nat + 256 * le_value(s.drop_first())
    }
}

/// The number that `s` spells in base 256, most significant digit first.
pub open spec fn be_value(s: Seq<u8>) -> nat
    decreases s.len(),
{
    if s.len() == 0 {
        0
    } else {
        256 * be_value(s.drop_last()) + s.last() as nat
    }
}

/// The number that `s` spells in the given byte order.
pub open spec fn value_of(s: Seq<u8>, big_endian: bool) -> nat {
    if big_endian {
        be_value(s)
    } else {
        le_value(s)
    }
}

/// The `len` lowest digits of `x` in base 256, least significant first.
pub open spec fn le_bytes(x: nat, len: nat) -> Seq<u8>
    decreases len,
{
    if len == 0 {
        Seq::empty()
    } else {
        seq![(x % 256) as u8] + le_bytes(x / 256, (len - 1) as nat)
    }
}

/// 256 to the power `len`: the number of values that `len` bytes can spell.
pub open spec fn radix_pow(len: nat) -> nat
    decreases len,
{
    if len == 0 {
        1
    } else {
        256 * radix_pow((len - 1) as nat)
    }
}

/// The bit pattern of a signed 32-bit number in two's complement, as the
/// unsigned number with the same bits.
pub open spec fn twos_complement(x: i32) -> nat {
    if x < 0 {
        (x + 0x1_0000_0000) as nat
    } else {
        x as nat
    }
}

/// The signed number whose two's-complement bit pattern is `bits`.
pub open spec fn from_twos_complement(bits: nat) -> int
    recommends
        bits < 0x1_0000_0000,
{
    if bits >= 0x8000_0000 {
        bits - 0x1_0000_0000
    } else {
        bits as int
    }
}

/// `le_bytes` gives as many bytes as it is asked for.
pub proof fn lemma_le_bytes_len(x: nat, len: nat)
    ensures
        le_bytes(x, len).len() == len,
    decreases len,
{
    if len > 0 {
        lemma_le_bytes_len(x / 256, (len - 1) as nat);
    }
}

/// Bytes spell a number below 256 to the power of their count.
pub proof fn lemma_value_bound(s: Seq<u8>, big_endian: bool)
    ensures
        value_of(s, big_endian) < radix_pow(s.len()),
    decreases s.len(),
{
    if s.len() > 0 {
        if big_endian {
            lemma_value_bound(s.drop_last(), true);
        } else {
            lemma_value_bound(s.drop_first(), false);
        }
    }
}

/// A number that fits in `len` bytes is the number that its `len`
/// little-endian bytes spell.
pub proof fn lemma_le_round_trip(x: nat, len: nat)
    requires
        x < radix_pow(len),
    ensures
        le_value(le_bytes(x, len)) == x,
    decreases len,
{
    if len > 0 {
        let rest = le_bytes(x / 256, (len - 1) as nat);
        lemma_le_round_trip(x / 256, (len - 1) as nat);
        assert(le_bytes(x, len).drop_first() =~= rest);
    }
}

/// Four bytes spell every 32-bit number, eight every 64-bit number.
pub proof fn lemma_radix_pow_values()
    ensures
        radix_pow(4) == 0x1_0000_0000,
        radix_pow(8) == 0x1_0000_0000_0000_0000,
{
    reveal_with_fuel(radix_pow, 9);
}

/// A signed 32-bit number is the number whose bit pattern is its own.
pub proof fn lemma_twos_complement_round_trip(x: i32)
    ensures
        twos_complement(x) < 0x1_0000_0000,
        from_twos_complement(twos_complement(x)) == x,
{
}

/// The four bytes that spell `s`, by position.
proof fn lemma_value_4(s: Seq<u8>)
    requires
        s.len() == 4,
    ensures
        le_value(s) == s[0] + 0x100 * s[1] + 0x1_0000 * s[2] + 0x100_0000 * s[3],
        be_value(s) == s[3] + 0x100 * s[2] + 0x1_0000 * s[1] + 0x100_0000 * s[0],
{
    reveal_with_fuel(le_value, 5);
    reveal_with_fuel(be_value, 5);
    let l1 = s.drop_first();
    let l2 = l1.drop_first();
    let l3 = l2.drop_first();
    assert(l3.drop_first().len() == 0);
    let b1 = s.drop_last();
    let b2 = b1.drop_last();
    let b3 = b2.drop_last();
    assert(b3.drop_last().len() == 0);
}

/// The eight bytes that spell `s`, by position.
proof fn lemma_value_8(s: Seq<u8>)
    requires
        s.len() == 8,
    ensures
        le_value(s) == s[0] + 0x100 * s[1] + 0x1_0000 * s[2] + 0x100_0000 * s[3] + 0x1_0000_0000
            * s[4] + 0x100_0000_0000 * s[5] + 0x1_0000_0000_0000 * s[6] + 0x100_0000_0000_0000
            * s[7],
        be_value(s) == s[7] + 0x100 * s[6] + 0x1_0000 * s[5] + 0x100_0000 * s[4] + 0x1_0000_0000
            * s[3] + 0x100_0000_0000 * s[2] + 0x1_0000_0000_0000 * s[1] + 0x100_0000_0000_0000
            * s[0],
{
    let low = s.subrange(0, 4);
    let high = s.subrange(4, 8);
    lemma_value_4(low);
    lemma_value_4(high);
    lemma_le_value_concat(low, high);
    lemma_be_value_concat(low, high);
    lemma_radix_pow_values();
    assert(low + high =~= s);
}

/// The little-endian reading of two runs of bytes, one after the other.
pub proof fn lemma_le_value_concat(low: Seq<u8>, high: Seq<u8>)
    ensures
        le_value(low + high) == le_value(low) + radix_pow(low.len()) * le_value(high),
    decreases low.len(),
{
    if low.len() == 0 {
        assert(low + high =~= high);
        assert(1 * le_value(high) == le_value(high)) by (nonlinear_arith);
    } else {
        let rest = low.drop_first();
        lemma_le_value_concat(rest, high);
        assert((low + high).drop_first() =~= rest + high);
        assert((low + high)[0] == low[0]);
        let p = radix_pow(rest.len());
        let h = le_value(high);
        assert(radix_pow(low.len()) == 256 * p);
        assert(256 * (p * h) == (256 * p) * h) by (nonlinear_arith);
        assert(le_value(low + high) == low[0] + 256 * (le_value(rest) + p * h));
    }
}

/// The big-endian reading of two runs of bytes, one after the other.
pub proof fn lemma_be_value_concat(high: Seq<u8>, low: Seq<u8>)
    ensures
        be_value(high + low) == radix_pow(low.len()) * be_value(high) + be_value(low),
    decreases low.len(),
{
    if low.len() == 0 {
        assert(high + low =~= high);
        assert(1 * be_value(high) == be_value(high)) by (nonlinear_arith);
    } else {
        let rest = low.drop_last();
        lemma_be_value_concat(high, rest);
        assert((high + low).drop_last() =~= high + rest);
        assert((high + low).last() == low.last());
        let p = radix_pow(rest.len());
        let h = be_value(high);
        assert(radix_pow(low.len()) == 256 * p);
        assert(256 * (p * h) == (256 * p) * h) by (nonlinear_arith);
        assert(be_value(high + low) == 256 * (p * h + be_value(rest)) + low.last());
    }
}

/// The two's-complement bit pattern of `x`.
pub fn i32_to_bits(x: i32) -> (bits: u32)
    ensures
        bits == twos_complement(x),
{
    let bits: u32 = #[verifier::truncate] (x as u32);
    assert(bits == (if x < 0 {
        x + 0x1_0000_0000
    } else {
        x as int
    })) by (bit_vector)
        requires
            bits == x as u32,
    ;
    bits
}

/// The signed number whose two's-complement bit pattern is `bits`.
pub fn i32_from_bits(bits: u32) -> (x: i32)
    ensures
        x == from_twos_complement(bits as nat),
{
    let x: i32 = #[verifier::truncate] (bits as i32);
    assert(x == (if bits >= 0x8000_0000 {
        bits - 0x1_0000_0000
    } else {
        bits as int
    })) by (bit_vector)
        requires
            x == bits as i32,
    ;
    x
}

/// Appends the four bytes of `x` to `out`, least significant first.
pub fn push_u32_le(out: &mut Vec<u8>, x: u32)
    ensures
        final(out)@ == old(out)@ + le_bytes(x as nat, 4),
{
    proof {
        reveal_with_fuel(le_bytes, 5);
        assert(x & 0xff == x % 256 && (x >> 8) & 0xff == (x / 256) % 256 && (x >> 16) & 0xff == (x
            / 256 / 256) % 256 && (x >> 24) & 0xff == (x / 256 / 256 / 256) % 256) by (bit_vector);
    }
    out.push((x & 0xff) as u8);
    out.push(((x >> 8) & 0xff) as u8);
    out.push(((x >> 16) & 0xff) as u8);
    out.push(((x >> 24) & 0xff) as u8);
}

/// Appends the eight bytes of `x` to `out`, least significant first.
pub fn push_u64_le(out: &mut Vec<u8>, x: u64)
    ensures
        final(out)@ == old(out)@ + le_bytes(x as nat, 8),
{
    proof {
        reveal_with_fuel(le_bytes, 9);
        assert(x & 0xff == x % 256 && (x >> 8) & 0xff == (x / 256) % 256 && (x >> 16) & 0xff == (x
            / 256 / 256) % 256 && (x >> 24) & 0xff == (x / 256 / 256 / 256) % 256) by (bit_vector);
        assert((x >> 32) & 0xff == (x / 256 / 256 / 256 / 256) % 256 && (x >> 40) & 0xff == (x
            / 256 / 256 / 256 / 256 / 256) % 256 && (x >> 48) & 0xff == (x / 256 / 256 / 256 / 256
            / 256 / 256) % 256 && (x >> 56) & 0xff == (x / 256 / 256 / 256 / 256 / 256 / 256 / 256)
            % 256) by (bit_vector);
    }
    out.push((x & 0xff) as u8);
    out.push(((x >> 8) & 0xff) as u8);
    out.push(((x >> 16) & 0xff) as u8);
    out.push(((x >> 24) & 0xff) as u8);
    out.push(((x >> 32) & 0xff) as u8);
    out.push(((x >> 40) & 0xff) as u8);
    out.push(((x >> 48) & 0xff) as u8);
    out.push(((x >> 56) & 0xff) as u8);
}

/// Reads the 32-bit number that starts at index `at` of `bytes`.
pub fn read_u32(bytes: &[u8], at: usize, big_endian: bool) -> (x: u32)
    requires
        at + 4 <= bytes@.len(),
    ensures
        x == value_of(bytes@.subrange(at as int, at + 4), big_endian),
{
    let b0: u32 = bytes[at] as u32;
    let b1: u32 = bytes[at + 1] as u32;
    let b2: u32 = bytes[at + 2] as u32;
    let b3: u32 = bytes[at + 3] as u32;
    proof {
        lemma_value_4(bytes@.subrange(at as int, at + 4));
        assert(b0 < 256 && b1 < 256 && b2 < 256 && b3 < 256 ==> (b0 | b1 << 8 | b2 << 16 | b3
            << 24) == b0 + 0x100 * b1 + 0x1_0000 * b2 + 0x100_0000 * b3) by (bit_vector);
        assert(b0 < 256 && b1 < 256 && b2 < 256 && b3 < 256 ==> (b0 << 24 | b1 << 16 | b2 << 8
            | b3) == b3 + 0x100 * b2 + 0x1_0000 * b1 + 0x100_0000 * b0) by (bit_vector);
    }
    if big_endian {
        b0 << 24 | b1 << 16 | b2 << 8 | b3
    } else {
        b0 | b1 << 8 | b2 << 16 | b3 << 24
    }
}

/// Reads the 64-bit number that starts at index `at` of `bytes`.
pub fn read_u64(bytes: &[u8], at: usize, big_endian: bool) -> (x: u64)
    requires
        at + 8 <= bytes@.len(),
    ensures
        x == value_of(bytes@.subrange(at as int, at + 8), big_endian),
{
    let b0: u64 = bytes[at] as u64;
    let b1: u64 = bytes[at + 1] as u64;
    let b2: u64 = bytes[at + 2] as u64;
    let b3: u64 = bytes[at + 3] as u64;
    let b4: u64 = bytes[at + 4] as u64;
    let b5: u64 = bytes[at + 5] as u64;
    let b6: u64 = bytes[at + 6] as u64;
    let b7: u64 = bytes[at + 7] as u64;
    proof {
        lemma_value_8(bytes@.subrange(at as int, at + 8));
        assert(b0 < 256 && b1 < 256 && b2 < 256 && b3 < 256 && b4 < 256 && b5 < 256 && b6 < 256
            && b7 < 256 ==> (b0 | b1 << 8 | b2 << 16 | b3 << 24 | b4 << 32 | b5 << 40 | b6 << 48
            | b7 << 56) == b0 + 0x100 * b1 + 0x1_0000 * b2 + 0x100_0000 * b3 + 0x1_0000_0000 * b4
            + 0x100_0000_0000 * b5 + 0x1_0000_0000_0000 * b6 + 0x100_0000_0000_0000 * b7)
            by (bit_vector);
        assert(b0 < 256 && b1 < 256 && b2 < 256 && b3 < 256 && b4 < 256 && b5 < 256 && b6 < 256
            && b7 < 256 ==> (b0 << 56 | b1 << 48 | b2 << 40 | b3 << 32 | b4 << 24 | b5 << 16 | b6
            << 8 | b7) == b7 + 0x100 * b6 + 0x1_0000 * b5 + 0x100_0000 * b4 + 0x1_0000_0000 * b3
            + 0x100_0000_0000 * b2 + 0x1_0000_0000_0000 * b1 + 0x100_0000_0000_0000 * b0)
            by (bit_vector);
    }
    if big_endian {
        b0 << 56 | b1 << 48 | b2 << 40 | b3 << 32 | b4 << 24 | b5 << 16 | b6 << 8 | b7
    } else {
        b0 | b1 << 8 | b2 << 16 | b3 << 24 | b4 << 32 | b5 << 40 | b6 << 48 | b7 << 56
    }
}

} // verus!
