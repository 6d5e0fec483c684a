//! Fixed-width integers in a stream's byte order.
use vstd::prelude::*;

verus! {

/// The order in which the bytes of every multi-byte field of a stream are laid out.
#[derive(Debug, Clone, Copy, PartialEq, Eq, Structural)]
pub enum Endianness {
    Big,
    Little,
}

/// The value of two bytes read in order `e`.
#[verifier::opaque]
pub open spec fn u16_of(b: Seq<u8>, e: Endianness) -> u16 {
    match e {
        Endianness::Big => ((b[0] as u16) << 8u16) | (b[1] as u16),
        Endianness::Little => ((b[1] as u16) << 8u16) | (b[0] as u16),
    }
}

/// The value of four bytes read in order `e`.
#[verifier::opaque]
pub open spec fn u32_of(b: Seq<u8>, e: Endianness) -> u32 {
    match e {
        Endianness::Big => ((b[0] as u32) << 24u32) | ((b[1] as u32) << 16u32) | ((b[2] as u32)
            << 8u32) | (b[3] as u32),
        Endianness::Little => ((b[3] as u32) << 24u32) | ((b[2] as u32) << 16u32) | ((b[1] as u32)
            << 8u32) | (b[0] as u32),
    }
}

/// The two bytes of `v` in order `e`.
#[verifier::opaque]
pub open spec fn u16_bytes(v: u16, e: Endianness) -> Seq<u8> {
    let hi = ((v >> 8u16) & 0xffu16) as u8;
    let lo = (v & 0xffu16) as u8;
    match e {
        Endianness::Big => seq![hi, lo],
        Endianness::Little => seq![lo, hi],
    }
}

/// The four bytes of `v` in order `e`.
#[verifier::opaque]
pub open spec fn u32_bytes(v: u32, e: Endianness) -> Seq<u8> {
    let b3 = ((v >> 24u32) & 0xffu32) as u8;
    let b2 = ((v >> 16u32) & 0xffu32) as u8;
    let b1 = ((v >> 8u32) & 0xffu32) as u8;
    let b0 = (v & 0xffu32) as u8;
    match e {
        Endianness::Big => seq![b3, b2, b1, b0],
        Endianness::Little => seq![b0, b1, b2, b3],
    }
}

/// The 32-bit two's-complement pattern of `v`.
pub open spec fn i32_bits(v: i32) -> u32 {
    if v < 0 {
        (v + 0x1_0000_0000int) as u32
    } else {
        v as u32
    }
}

/// The signed value whose two's-complement pattern is `x`.
pub open spec fn i32_from_bits(x: u32) -> i32 {
    if x >= 0x8000_0000u32 {
        (x - 0x1_0000_0000int) as i32
    } else {
        x as i32
    }
}

pub proof fn lemma_u16_round_trip(v: u16, e: Endianness)
    ensures
        u16_bytes(v, e).len() == 2,
        u16_of(u16_bytes(v, e), e) == v,
{
    reveal(u16_of);
    reveal(u16_bytes);
    let hi = ((v >> 8u16) & 0xffu16) as u8;
    let lo = (v & 0xffu16) as u8;
    assert((((((v >> 8u16) & 0xffu16) as u8) as u16) << 8u16) | (((v & 0xffu16) as u8) as u16)
        == v) by (bit_vector);
    assert(u16_bytes(v, e)[0] == if e == Endianness::Big { hi } else { lo });
    assert(u16_bytes(v, e)[1] == if e == Endianness::Big { lo } else { hi });
}

pub proof fn lemma_u32_round_trip(v: u32, e: Endianness)
    ensures
        u32_bytes(v, e).len() == 4,
        u32_of(u32_bytes(v, e), e) == v,
{
    reveal(u32_of);
    reveal(u32_bytes);
    assert((((((v >> 24u32) & 0xffu32) as u8) as u32) << 24u32) | (((((v >> 16u32) & 0xffu32)
        as u8) as u32) << 16u32) | (((((v >> 8u32) & 0xffu32) as u8) as u32) << 8u32) | (((v
        & 0xffu32) as u8) as u32) == v) by (bit_vector);
}

pub proof fn lemma_i32_round_trip(v: i32)
    ensures
        i32_from_bits(i32_bits(v)) == v,
{
}

/// Reading a 32-bit value and writing it back gives the same four bytes.
pub proof fn lemma_u32_bytes_of(b: Seq<u8>, e: Endianness)
    requires
        b.len() == 4,
    ensures
        u32_bytes(u32_of(b, e), e) == b,
{
    reveal(u32_of);
    reveal(u32_bytes);
    let (b0, b1, b2, b3) = (b[0], b[1], b[2], b[3]);
    let v = ((b0 as u32) << 24u32) | ((b1 as u32) << 16u32) | ((b2 as u32) << 8u32) | (b3 as u32);
    assert(((v >> 24u32) & 0xffu32) as u8 == b0 && ((v >> 16u32) & 0xffu32) as u8 == b1 && ((v
        >> 8u32) & 0xffu32) as u8 == b2 && (v & 0xffu32) as u8 == b3) by (bit_vector)
        requires
            v == ((b0 as u32) << 24u32) | ((b1 as u32) << 16u32) | ((b2 as u32) << 8u32) | (
            b3 as u32),
    ;
    let w = ((b3 as u32) << 24u32) | ((b2 as u32) << 16u32) | ((b1 as u32) << 8u32) | (b0 as u32);
    assert(((w >> 24u32) & 0xffu32) as u8 == b3 && ((w >> 16u32) & 0xffu32) as u8 == b2 && ((w
        >> 8u32) & 0xffu32) as u8 == b1 && (w & 0xffu32) as u8 == b0) by (bit_vector)
        requires
            w == ((b3 as u32) << 24u32) | ((b2 as u32) << 16u32) | ((b1 as u32) << 8u32) | (
            b0 as u32),
    ;
    assert(u32_bytes(u32_of(b, e), e) =~= b);
}

/// Reading a 16-bit value and writing it back gives the same two bytes.
pub proof fn lemma_u16_bytes_of(b: Seq<u8>, e: Endianness)
    requires
        b.len() == 2,
    ensures
        u16_bytes(u16_of(b, e), e) == b,
{
    reveal(u16_of);
    reveal(u16_bytes);
    let (b0, b1) = (b[0], b[1]);
    let v = ((b0 as u16) << 8u16) | (b1 as u16);
    assert(((v >> 8u16) & 0xffu16) as u8 == b0 && (v & 0xffu16) as u8 == b1) by (bit_vector)
        requires
            v == ((b0 as u16) << 8u16) | (b1 as u16),
    ;
    let w = ((b1 as u16) << 8u16) | (b0 as u16);
    assert(((w >> 8u16) & 0xffu16) as u8 == b1 && (w & 0xffu16) as u8 == b0) by (bit_vector)
        requires
            w == ((b1 as u16) << 8u16) | (b0 as u16),
    ;
    assert(u16_bytes(u16_of(b, e), e) =~= b);
}

pub proof fn lemma_i32_bits_of(x: u32)
    ensures
        i32_bits(i32_from_bits(x)) == x,
{
}

/// Reads two bytes of `b` at `at` in order `e`.
pub fn read_u16(b: &Vec<u8>, at: usize, e: Endianness) -> (r: u16)
    requires
        at + 2 <= b.len(),
    ensures
        r == u16_of(b@.subrange(at as int, at + 2), e),
{
    reveal(u16_of);
    let ghost s = b@.subrange(at as int, at + 2);
    let b0 = b[at];
    let b1 = b[at + 1];
    assert(s[0] == b0 && s[1] == b1);
    match e {
        Endianness::Big => ((b0 as u16) << 8u16) | (b1 as u16),
        Endianness::Little => ((b1 as u16) << 8u16) | (b0 as u16),
    }
}

/// Reads four bytes of `b` at `at` in order `e`.
pub fn read_u32(b: &Vec<u8>, at: usize, e: Endianness) -> (r: u32)
    requires
        at + 4 <= b.len(),
    ensures
        r == u32_of(b@.subrange(at as int, at + 4), e),
{
    reveal(u32_of);
    let ghost s = b@.subrange(at as int, at + 4);
    let b0 = b[at];
    let b1 = b[at + 1];
    let b2 = b[at + 2];
    let b3 = b[at + 3];
    assert(s[0] == b0 && s[1] == b1 && s[2] == b2 && s[3] == b3);
    match e {
        Endianness::Big => ((b0 as u32) << 24u32) | ((b1 as u32) << 16u32) | ((b2 as u32) << 8u32)
            | (b3 as u32),
        Endianness::Little => ((b3 as u32) << 24u32) | ((b2 as u32) << 16u32) | ((b1 as u32)
            << 8u32) | (b0 as u32),
    }
}

/// Appends the two bytes of `v` in order `e`.
pub fn push_u16(out: &mut Vec<u8>, v: u16, e: Endianness)
    ensures
        final(out)@ == old(out)@ + u16_bytes(v, e),
{
    let hi = ((v >> 8u16) & 0xffu16) as u8;
    let lo = (v & 0xffu16) as u8;
    match e {
        Endianness::Big => {
            out.push(hi);
            out.push(lo);
        },
        Endianness::Little => {
            out.push(lo);
            out.push(hi);
        },
    }
    reveal(u16_bytes);
    assert(final(out)@ =~= old(out)@ + u16_bytes(v, e));
}

/// Appends the four bytes of `v` in order `e`.
pub fn push_u32(out: &mut Vec<u8>, v: u32, e: Endianness)
    ensures
        final(out)@ == old(out)@ + u32_bytes(v, e),
{
    let b3 = ((v >> 24u32) & 0xffu32) as u8;
    let b2 = ((v >> 16u32) & 0xffu32) as u8;
    let b1 = ((v >> 8u32) & 0xffu32) as u8;
    let b0 = (v & 0xffu32) as u8;
    match e {
        Endianness::Big => {
            out.push(b3);
            out.push(b2);
            out.push(b1);
            out.push(b0);
        },
        Endianness::Little => {
            out.push(b0);
            out.push(b1);
            out.push(b2);
            out.push(b3);
        },
    }
    reveal(u32_bytes);
    assert(final(out)@ =~= old(out)@ + u32_bytes(v, e));
}

/// The two's-complement pattern of `v`.
pub fn i32_to_bits(v: i32) -> (r: u32)
    ensures
        r == i32_bits(v),
{
    if v < 0 {
        ((v as i64) + 0x1_0000_0000i64) as u32
    } else {
        v as u32
    }
}

/// The signed value of the two's-complement pattern `x`.
pub fn i32_of_bits(x: u32) -> (r: i32)
    ensures
        r == i32_from_bits(x),
{
    if x >= 0x8000_0000u32 {
        ((x as i64) - 0x1_0000_0000i64) as i32
    } else {
        x as i32
    }
}

} // verus!
