//! Big-endian integers as byte sequences: the arithmetic that every length
//! prefix and every integer field of the wire format rests on.

use vstd::prelude::*;

verus! {

/// The integer that two bytes spell, most significant byte first.
pub open spec fn u16_from_be(s: Seq<u8>) -> u16
    recommends
        s.len() >= 2,
{
    (s[0] as int * 256 + s[1] as int) as u16
}

/// The two bytes that spell `v`, most significant byte first.
pub open spec fn u16_to_be(v: u16) -> Seq<u8> {
    seq![(v / 256) as u8, (v % 256) as u8]
}

/// The integer below 2^24 that three bytes spell, most significant byte first.
pub open spec fn u24_from_be(s: Seq<u8>) -> u32
    recommends
        s.len() >= 3,
{
    (s[0] as int * 65536 + s[1] as int * 256 + s[2] as int) as u32
}

/// The three bytes that spell the low 24 bits of `v`, most significant byte first.
pub open spec fn u24_to_be(v: u32) -> Seq<u8> {
    seq![((v / 65536) % 256) as u8, ((v / 256) % 256) as u8, (v % 256) as u8]
}

/// The integer that four bytes spell, most significant byte first.
pub open spec fn u32_from_be(s: Seq<u8>) -> u32
    recommends
        s.len() >= 4,
{
    (s[0] as int * 16777216 + s[1] as int * 65536 + s[2] as int * 256 + s[3] as int) as u32
}

/// The four bytes that spell `v`, most significant byte first.
pub open spec fn u32_to_be(v: u32) -> Seq<u8> {
    seq![
        (v / 16777216) as u8,
        ((v / 65536) % 256) as u8,
        ((v / 256) % 256) as u8,
        (v % 256) as u8,
    ]
}

/// Reading back the two bytes written for `v` gives `v`, whatever follows them.
pub proof fn lemma_u16_read_of_written(v: u16, rest: Seq<u8>)
    ensures
        u16_to_be(v).len() == 2,
        u16_from_be(u16_to_be(v) + rest) == v,
{
    let s = u16_to_be(v) + rest;
    assert(s[0] == (v / 256) as u8);
    assert(s[1] == (v % 256) as u8);
}

/// Writing the integer read from the first two bytes of `s` gives those two bytes.
pub proof fn lemma_u16_written_of_read(s: Seq<u8>)
    requires
        s.len() >= 2,
    ensures
        u16_to_be(u16_from_be(s)) == s.take(2),
{
    assert(u16_to_be(u16_from_be(s)) =~= s.take(2));
}

/// Reading back the three bytes written for `v` gives `v` when `v` is below 2^24.
pub proof fn lemma_u24_read_of_written(v: u32, rest: Seq<u8>)
    requires
        v < 0x100_0000,
    ensures
        u24_to_be(v).len() == 3,
        u24_from_be(u24_to_be(v) + rest) == v,
{
    let s = u24_to_be(v) + rest;
    assert(s[0] == ((v / 65536) % 256) as u8);
    assert(s[1] == ((v / 256) % 256) as u8);
    assert(s[2] == (v % 256) as u8);
}

/// Writing the integer read from the first three bytes of `s` gives those
/// three bytes, and that integer is below 2^24.
pub proof fn lemma_u24_written_of_read(s: Seq<u8>)
    requires
        s.len() >= 3,
    ensures
        u24_from_be(s) < 0x100_0000,
        u24_to_be(u24_from_be(s)) == s.take(3),
{
    assert(u24_to_be(u24_from_be(s)) =~= s.take(3));
}

/// Reading back the four bytes written for `v` gives `v`, whatever follows them.
pub proof fn lemma_u32_read_of_written(v: u32, rest: Seq<u8>)
    ensures
        u32_to_be(v).len() == 4,
        u32_from_be(u32_to_be(v) + rest) == v,
{
    let s = u32_to_be(v) + rest;
    assert(s[0] == (v / 16777216) as u8);
    assert(s[1] == ((v / 65536) % 256) as u8);
    assert(s[2] == ((v / 256) % 256) as u8);
    assert(s[3] == (v % 256) as u8);
}

/// Writing the integer read from the first four bytes of `s` gives those four bytes.
pub proof fn lemma_u32_written_of_read(s: Seq<u8>)
    requires
        s.len() >= 4,
    ensures
        u32_to_be(u32_from_be(s)) == s.take(4),
{
    let a = s[0] as int;
    let b = s[1] as int;
    let c = s[2] as int;
    let d = s[3] as int;
    let low = b * 65536 + c * 256 + d;
    let v = a * 16777216 + low;
    assert(0 <= low < 16777216);
    assert(v / 16777216 == a && v % 16777216 == low) by (nonlinear_arith)
        requires
            v == a * 16777216 + low,
            0 <= low < 16777216,
    ;
    assert((v / 65536) % 256 == b);
    assert((v / 256) % 256 == c);
    assert(v % 256 == d);
    assert(u32_to_be(u32_from_be(s)) =~= s.take(4));
}

} // verus!
