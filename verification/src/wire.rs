//! Little-endian images of the scalar types that MSP puts on the wire.
//!
//! Every scalar is described by arithmetic on its value: byte `k` of an
//! unsigned value `x` is `x / 256^k % 256`, and a signed value travels as its
//! two's complement.

use vstd::prelude::*;

verus! {

/// The unsigned 16-bit word that carries a signed one.
pub open spec fn i16_bits(x: i16) -> u16 {
    if x >= 0 {
        x as u16
    } else {
        (x + 0x1_0000) as u16
    }
}

/// The signed 16-bit word that an unsigned one carries.
pub open spec fn i16_of_bits(w: u16) -> i16 {
    if w < 0x8000 {
        w as i16
    } else {
        (w - 0x1_0000) as i16
    }
}

/// The unsigned 32-bit word that carries a signed one.
pub open spec fn i32_bits(x: i32) -> u32 {
    if x >= 0 {
        x as u32
    } else {
        (x + 0x1_0000_0000) as u32
    }
}

/// The signed 32-bit word that an unsigned one carries.
pub open spec fn i32_of_bits(w: u32) -> i32 {
    if w < 0x8000_0000 {
        w as i32
    } else {
        (w - 0x1_0000_0000) as i32
    }
}

/// Wire image of a `u16`: low byte first.
pub open spec fn u16_le(x: u16) -> Seq<u8> {
    seq![(x % 256) as u8, (x / 256) as u8]
}

/// The `u16` whose image starts at index `at` of `s`.
pub open spec fn u16_at(s: Seq<u8>, at: int) -> u16 {
    (s[at] as int + 256 * (s[at + 1] as int)) as u16
}

/// Wire image of a `u32`: low byte first.
pub open spec fn u32_le(x: u32) -> Seq<u8> {
    seq![
        (x % 256) as u8,
        (x / 0x100 % 256) as u8,
        (x / 0x1_0000 % 256) as u8,
        (x / 0x100_0000) as u8,
    ]
}

/// The `u32` whose image starts at index `at` of `s`.
pub open spec fn u32_at(s: Seq<u8>, at: int) -> u32 {
    (s[at] as int + 0x100 * (s[at + 1] as int) + 0x1_0000 * (s[at + 2] as int) + 0x100_0000 * (s[at
        + 3] as int)) as u32
}

/// Wire image of an `i16`.
pub open spec fn i16_le(x: i16) -> Seq<u8> {
    u16_le(i16_bits(x))
}

/// The `i16` whose image starts at index `at` of `s`.
pub open spec fn i16_at(s: Seq<u8>, at: int) -> i16 {
    i16_of_bits(u16_at(s, at))
}

/// Wire image of an `i32`.
pub open spec fn i32_le(x: i32) -> Seq<u8> {
    u32_le(i32_bits(x))
}

/// The `i32` whose image starts at index `at` of `s`.
pub open spec fn i32_at(s: Seq<u8>, at: int) -> i32 {
    i32_of_bits(u32_at(s, at))
}

/// A `u16` is read back from its image wherever the image stands.
pub proof fn lemma_u16_round_trip(x: u16, s: Seq<u8>, at: int)
    requires
        0 <= at,
        at + 2 <= s.len(),
        s.subrange(at, at + 2) == u16_le(x),
    ensures
        u16_at(s, at) == x,
{
    assert(s[at] == s.subrange(at, at + 2)[0]);
    assert(s[at + 1] == s.subrange(at, at + 2)[1]);
}

/// Two bytes are the image of the `u16` read from them.
pub proof fn lemma_u16_image(s: Seq<u8>, at: int)
    requires
        0 <= at,
        at + 2 <= s.len(),
    ensures
        u16_le(u16_at(s, at)) == s.subrange(at, at + 2),
{
    assert(u16_le(u16_at(s, at)) =~= s.subrange(at, at + 2));
}

/// A `u32` is read back from its image wherever the image stands.
pub proof fn lemma_u32_round_trip(x: u32, s: Seq<u8>, at: int)
    requires
        0 <= at,
        at + 4 <= s.len(),
        s.subrange(at, at + 4) == u32_le(x),
    ensures
        u32_at(s, at) == x,
{
    assert(s[at] == s.subrange(at, at + 4)[0]);
    assert(s[at + 1] == s.subrange(at, at + 4)[1]);
    assert(s[at + 2] == s.subrange(at, at + 4)[2]);
    assert(s[at + 3] == s.subrange(at, at + 4)[3]);
}

/// Four bytes are the image of the `u32` read from them.
pub proof fn lemma_u32_image(s: Seq<u8>, at: int)
    requires
        0 <= at,
        at + 4 <= s.len(),
    ensures
        u32_le(u32_at(s, at)) == s.subrange(at, at + 4),
{
    lemma_four_bytes(s[at], s[at + 1], s[at + 2], s[at + 3]);
    assert(u32_le(u32_at(s, at)) =~= s.subrange(at, at + 4));
}

/// The four base-256 digits of a number are found again by division.
proof fn lemma_four_bytes(b0: u8, b1: u8, b2: u8, b3: u8)
    ensures
        ({
            let x = b0 as int + 0x100 * (b1 as int) + 0x1_0000 * (b2 as int) + 0x100_0000 * (
            b3 as int);
            &&& 0 <= x <= u32::MAX
            &&& x % 256 == b0
            &&& x / 0x100 % 256 == b1
            &&& x / 0x1_0000 % 256 == b2
            &&& x / 0x100_0000 == b3
        }),
{
    let x3 = b3 as int;
    let x2 = b2 as int + 256 * x3;
    let x1 = b1 as int + 256 * x2;
    let x = b0 as int + 256 * x1;
    assert(x / 256 == x1 && x % 256 == b0);
    assert(x1 / 256 == x2 && x1 % 256 == b1);
    assert(x2 / 256 == x3 && x2 % 256 == b2);
    assert(x / 0x1_0000 == x2) by {
        assert(x / 0x1_0000 == (x / 256) / 256);
    }
    assert(x / 0x100_0000 == x3) by {
        assert(x / 0x100_0000 == (x / 0x1_0000) / 256);
    }
}

/// Two bytes are the image of the `i16` read from them.
pub proof fn lemma_i16_image(s: Seq<u8>, at: int)
    requires
        0 <= at,
        at + 2 <= s.len(),
    ensures
        i16_le(i16_at(s, at)) == s.subrange(at, at + 2),
{
    lemma_u16_image(s, at);
}

/// Four bytes are the image of the `i32` read from them.
pub proof fn lemma_i32_image(s: Seq<u8>, at: int)
    requires
        0 <= at,
        at + 4 <= s.len(),
    ensures
        i32_le(i32_at(s, at)) == s.subrange(at, at + 4),
{
    lemma_u32_image(s, at);
}

/// An `i16` is read back from its image wherever the image stands.
pub proof fn lemma_i16_round_trip(x: i16, s: Seq<u8>, at: int)
    requires
        0 <= at,
        at + 2 <= s.len(),
        s.subrange(at, at + 2) == i16_le(x),
    ensures
        i16_at(s, at) == x,
{
    lemma_u16_round_trip(i16_bits(x), s, at);
}

/// An `i32` is read back from its image wherever the image stands.
pub proof fn lemma_i32_round_trip(x: i32, s: Seq<u8>, at: int)
    requires
        0 <= at,
        at + 4 <= s.len(),
        s.subrange(at, at + 4) == i32_le(x),
    ensures
        i32_at(s, at) == x,
{
    lemma_u32_round_trip(i32_bits(x), s, at);
}

/// Appends the image of a `u16`.
pub fn put_u16(out: &mut Vec<u8>, x: u16)
    ensures
        final(out)@ == old(out)@ + u16_le(x),
{
    out.push((x % 256) as u8);
    out.push((x / 256) as u8);
    assert(out@ =~= old(out)@ + u16_le(x));
}

/// Appends the image of a `u32`.
pub fn put_u32(out: &mut Vec<u8>, x: u32)
    ensures
        final(out)@ == old(out)@ + u32_le(x),
{
    out.push((x % 256) as u8);
    out.push((x / 0x100 % 256) as u8);
    out.push((x / 0x1_0000 % 256) as u8);
    out.push((x / 0x100_0000) as u8);
    assert(out@ =~= old(out)@ + u32_le(x));
}

/// Appends the image of an `i16`.
pub fn put_i16(out: &mut Vec<u8>, x: i16)
    ensures
        final(out)@ == old(out)@ + i16_le(x),
{
    let w: u16 = if x >= 0 {
        x as u16
    } else {
        (x as i32 + 0x1_0000) as u16
    };
    put_u16(out, w);
}

/// Appends the image of an `i32`.
pub fn put_i32(out: &mut Vec<u8>, x: i32)
    ensures
        final(out)@ == old(out)@ + i32_le(x),
{
    let w: u32 = if x >= 0 {
        x as u32
    } else {
        (x as i64 + 0x1_0000_0000) as u32
    };
    put_u32(out, w);
}

/// Reads the `u16` whose image starts at `at`.
pub fn get_u16(s: &[u8], at: usize) -> (x: u16)
    requires
        at + 2 <= s.len(),
    ensures
        x == u16_at(s@, at as int),
{
    s[at] as u16 + 256 * (s[at + 1] as u16)
}

/// Reads the `u32` whose image starts at `at`.
pub fn get_u32(s: &[u8], at: usize) -> (x: u32)
    requires
        at + 4 <= s.len(),
    ensures
        x == u32_at(s@, at as int),
{
    s[at] as u32 + 0x100 * (s[at + 1] as u32) + 0x1_0000 * (s[at + 2] as u32) + 0x100_0000 * (s[at
        + 3] as u32)
}

/// Reads the `i16` whose image starts at `at`.
pub fn get_i16(s: &[u8], at: usize) -> (x: i16)
    requires
        at + 2 <= s.len(),
    ensures
        x == i16_at(s@, at as int),
{
    let w = get_u16(s, at);
    if w < 0x8000 {
        w as i16
    } else {
        (w as i32 - 0x1_0000) as i16
    }
}

/// Reads the `i32` whose image starts at `at`.
pub fn get_i32(s: &[u8], at: usize) -> (x: i32)
    requires
        at + 4 <= s.len(),
    ensures
        x == i32_at(s@, at as int),
{
    let w = get_u32(s, at);
    if w < 0x8000_0000 {
        w as i32
    } else {
        (w as i64 - 0x1_0000_0000) as i32
    }
}

} // verus!
