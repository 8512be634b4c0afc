//! Big-endian integers as they stand on the wire.

use vstd::prelude::*;

verus! {

/// The two bytes of a 16-bit integer, most significant first.
pub open spec fn u16_bytes(v: u16) -> Seq<u8> {
    seq![(v / 256) as u8, (v % 256) as u8]
}

/// The four bytes of a 32-bit integer, most significant first.
pub open spec fn u32_bytes(v: u32) -> Seq<u8> {
    seq![
        (v / 16777216) as u8,
        ((v / 65536) % 256) as u8,
        ((v / 256) % 256) as u8,
        (v % 256) as u8,
    ]
}

/// The 16-bit integer that the first two bytes of `s` spell.
pub open spec fn u16_at(s: Seq<u8>, at: int) -> u16 {
    (s[at] * 256 + s[at + 1]) as u16
}

/// The 32-bit integer that four bytes of `s` spell.
pub open spec fn u32_at(s: Seq<u8>, at: int) -> u32 {
    (s[at] * 16777216 + s[at + 1] * 65536 + s[at + 2] * 256 + s[at + 3]) as u32
}

/// Reading back the bytes of a 16-bit integer gives the integer, wherever
/// the bytes stand.
pub proof fn lemma_u16_round_trip(v: u16, before: Seq<u8>, after: Seq<u8>)
    ensures
        u16_at(before + u16_bytes(v) + after, before.len() as int) == v,
        u16_bytes(v).len() == 2,
{
    let s = before + u16_bytes(v) + after;
    let at = before.len() as int;
    assert(s[at] == u16_bytes(v)[0]);
    assert(s[at + 1] == u16_bytes(v)[1]);
}

/// Reading back the bytes of a 32-bit integer gives the integer, wherever
/// the bytes stand.
pub proof fn lemma_u32_round_trip(v: u32, before: Seq<u8>, after: Seq<u8>)
    ensures
        u32_at(before + u32_bytes(v) + after, before.len() as int) == v,
        u32_bytes(v).len() == 4,
{
    let s = before + u32_bytes(v) + after;
    let at = before.len() as int;
    assert(s[at] == u32_bytes(v)[0]);
    assert(s[at + 1] == u32_bytes(v)[1]);
    assert(s[at + 2] == u32_bytes(v)[2]);
    assert(s[at + 3] == u32_bytes(v)[3]);
}

/// Writing out the integer read at a place gives the two bytes at that place.
pub proof fn lemma_u16_bytes_of_read(s: Seq<u8>, at: int)
    requires
        0 <= at,
        at + 2 <= s.len(),
    ensures
        u16_bytes(u16_at(s, at)) == s.subrange(at, at + 2),
{
    assert(u16_bytes(u16_at(s, at)) =~= s.subrange(at, at + 2));
}

/// What is read at a place in the second of two joined sequences is what
/// is read at the same place in the second alone.
pub proof fn lemma_read_after_prefix(before: Seq<u8>, s: Seq<u8>, at: int)
    requires
        0 <= at,
    ensures
        at + 2 <= s.len() ==> u16_at(before + s, before.len() + at) == u16_at(s, at),
        at + 4 <= s.len() ==> u32_at(before + s, before.len() + at) == u32_at(s, at),
{
    let joined = before + s;
    let base = before.len() as int;
    if at + 2 <= s.len() {
        assert(joined[base + at] == s[at]);
        assert(joined[base + at + 1] == s[at + 1]);
    }
    if at + 4 <= s.len() {
        assert(joined[base + at + 2] == s[at + 2]);
        assert(joined[base + at + 3] == s[at + 3]);
    }
}

} // verus!
