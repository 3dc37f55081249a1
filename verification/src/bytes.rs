//! Fixed-width integer readers over a byte buffer.
//!
//! Every reader comes in two forms: a spec function that says which value
//! the bytes at a position denote, and an executable reader proved to give
//! that value. Readers that may run past the end of the buffer return
//! `None` exactly when the bytes are not there.
use vstd::prelude::*;

verus! {

/// Big-endian value of two bytes.
pub open spec fn be16(b0: u8, b1: u8) -> u16 {
    (b0 as int * 0x100 + b1 as int) as u16
}

/// Big-endian value of three bytes.
pub open spec fn be24(b0: u8, b1: u8, b2: u8) -> u32 {
    (b0 as int * 0x1_0000 + b1 as int * 0x100 + b2 as int) as u32
}

/// Big-endian value of four bytes.
pub open spec fn be32(b0: u8, b1: u8, b2: u8, b3: u8) -> u32 {
    (b0 as int * 0x100_0000 + b1 as int * 0x1_0000 + b2 as int * 0x100 + b3 as int) as u32
}

/// Little-endian value of two bytes.
pub open spec fn le16(b0: u8, b1: u8) -> u16 {
    be16(b1, b0)
}

/// Little-endian value of four bytes.
pub open spec fn le32(b0: u8, b1: u8, b2: u8, b3: u8) -> u32 {
    be32(b3, b2, b1, b0)
}

/// The `u16` stored big-endian at index `i` of `s`.
pub open spec fn u16_at(s: Seq<u8>, i: int) -> u16 {
    be16(s[i], s[i + 1])
}

/// The 24-bit value stored big-endian at index `i` of `s`.
pub open spec fn u24_at(s: Seq<u8>, i: int) -> u32 {
    be24(s[i], s[i + 1], s[i + 2])
}

/// The `u32` stored big-endian at index `i` of `s`.
pub open spec fn u32_at(s: Seq<u8>, i: int) -> u32 {
    be32(s[i], s[i + 1], s[i + 2], s[i + 3])
}

/// The `u64` stored big-endian at index `i` of `s`.
pub open spec fn u64_at(s: Seq<u8>, i: int) -> u64 {
    (u32_at(s, i) as int * 0x1_0000_0000 + u32_at(s, i + 4) as int) as u64
}

/// The `u16` stored little-endian at index `i` of `s`.
pub open spec fn u16le_at(s: Seq<u8>, i: int) -> u16 {
    le16(s[i], s[i + 1])
}

/// The `u32` stored little-endian at index `i` of `s`.
pub open spec fn u32le_at(s: Seq<u8>, i: int) -> u32 {
    le32(s[i], s[i + 1], s[i + 2], s[i + 3])
}

/// An executable parse result `r` agrees with the specified outcome `want`:
/// both fail, or both succeed with the same value (by view) and the same
/// end position.
pub open spec fn agrees<T: View>(r: Option<(T, usize)>, want: Option<(T::V, int)>) -> bool {
    match r {
        Some((v, n)) => want == Some((v@, n as int)),
        None => want is None,
    }
}

/// Whether `n` bytes are available at position `pos` of `s`.
pub open spec fn avail(s: Seq<u8>, pos: int, n: int) -> bool {
    0 <= pos && pos + n <= s.len()
}

/// Two's-complement reading of an 8-bit pattern.
pub open spec fn to_i8(u: u8) -> i8 {
    (if u >= 0x80 { u as int - 0x100 } else { u as int }) as i8
}

/// Two's-complement reading of a 16-bit pattern.
pub open spec fn to_i16(u: u16) -> i16 {
    (if u >= 0x8000 { u as int - 0x1_0000 } else { u as int }) as i16
}

/// Two's-complement reading of a 32-bit pattern.
pub open spec fn to_i32(u: u32) -> i32 {
    (if u >= 0x8000_0000 { u as int - 0x1_0000_0000 } else { u as int }) as i32
}

/// Two's-complement reading of a 64-bit pattern.
pub open spec fn to_i64(u: u64) -> i64 {
    (if u >= 0x8000_0000_0000_0000 {
        u as int - 0x1_0000_0000_0000_0000
    } else {
        u as int
    }) as i64
}

pub fn get_u8(s: &[u8], i: usize) -> (v: u8)
    requires
        i < s@.len(),
    ensures
        v == s@[i as int],
{
    s[i]
}

pub fn get_u16be(s: &[u8], i: usize) -> (v: u16)
    requires
        i + 2 <= s@.len(),
    ensures
        v == u16_at(s@, i as int),
{
    (s[i] as u16) * 0x100 + (s[i + 1] as u16)
}

pub fn get_u24be(s: &[u8], i: usize) -> (v: u32)
    requires
        i + 3 <= s@.len(),
    ensures
        v == u24_at(s@, i as int),
        v < 0x100_0000,
{
    (s[i] as u32) * 0x1_0000 + (s[i + 1] as u32) * 0x100 + (s[i + 2] as u32)
}

pub fn get_u32be(s: &[u8], i: usize) -> (v: u32)
    requires
        i + 4 <= s@.len(),
    ensures
        v == u32_at(s@, i as int),
{
    (s[i] as u32) * 0x100_0000 + (s[i + 1] as u32) * 0x1_0000 + (s[i + 2] as u32) * 0x100 + (
    s[i + 3] as u32)
}

pub fn get_u64be(s: &[u8], i: usize) -> (v: u64)
    requires
        i + 8 <= s@.len(),
    ensures
        v == u64_at(s@, i as int),
{
    let _n = s.len();
    let hi = get_u32be(s, i);
    let lo = get_u32be(s, i + 4);
    (hi as u64) * 0x1_0000_0000 + (lo as u64)
}

pub fn get_u16le(s: &[u8], i: usize) -> (v: u16)
    requires
        i + 2 <= s@.len(),
    ensures
        v == u16le_at(s@, i as int),
{
    let _n = s.len();
    (s[i + 1] as u16) * 0x100 + (s[i] as u16)
}

pub fn get_u32le(s: &[u8], i: usize) -> (v: u32)
    requires
        i + 4 <= s@.len(),
    ensures
        v == u32le_at(s@, i as int),
{
    let _n = s.len();
    (s[i + 3] as u32) * 0x100_0000 + (s[i + 2] as u32) * 0x1_0000 + (s[i + 1] as u32) * 0x100 + (
    s[i] as u32)
}

/// Whether `n` bytes are available at `pos`; never overflows.
pub fn has_bytes(s: &[u8], pos: usize, n: usize) -> (b: bool)
    ensures
        b == avail(s@, pos as int, n as int),
        s@.len() <= usize::MAX,
{
    pos <= s.len() && n <= s.len() - pos
}

pub fn as_i8(u: u8) -> (v: i8)
    ensures
        v == to_i8(u),
{
    if u >= 0x80 {
        ((u as i16) - 0x100) as i8
    } else {
        u as i8
    }
}

pub fn as_i16(u: u16) -> (v: i16)
    ensures
        v == to_i16(u),
{
    if u >= 0x8000 {
        ((u as i32) - 0x1_0000) as i16
    } else {
        u as i16
    }
}

pub fn as_i32(u: u32) -> (v: i32)
    ensures
        v == to_i32(u),
{
    if u >= 0x8000_0000 {
        ((u as i64) - 0x1_0000_0000) as i32
    } else {
        u as i32
    }
}

pub fn as_i64(u: u64) -> (v: i64)
    ensures
        v == to_i64(u),
{
    if u >= 0x8000_0000_0000_0000 {
        ((u as i128) - 0x1_0000_0000_0000_0000) as i64
    } else {
        u as i64
    }
}

/// The big-endian `u32` spelled by a four-byte tag such as `b"head"`.
pub fn magic(tag: &[u8; 4]) -> (v: u32)
    ensures
        v == be32(tag@[0], tag@[1], tag@[2], tag@[3]),
{
    (tag[0] as u32) * 0x100_0000 + (tag[1] as u32) * 0x1_0000 + (tag[2] as u32) * 0x100 + (
    tag[3] as u32)
}

/// Reading a `u32` at a position where the four bytes of a tag stand gives
/// the tag's `magic` value.
pub proof fn lemma_magic_matches_read(s: Seq<u8>, i: int, tag: Seq<u8>)
    requires
        tag.len() == 4,
        0 <= i,
        i + 4 <= s.len(),
        s.subrange(i, i + 4) == tag,
    ensures
        u32_at(s, i) == be32(tag[0], tag[1], tag[2], tag[3]),
{
    assert(s[i] == s.subrange(i, i + 4)[0]);
    assert(s[i + 1] == s.subrange(i, i + 4)[1]);
    assert(s[i + 2] == s.subrange(i, i + 4)[2]);
    assert(s[i + 3] == s.subrange(i, i + 4)[3]);
}

/// Decoding a 16-bit pattern as two's complement and reinterpreting it as
/// unsigned gives back the pattern.
pub proof fn lemma_to_i16_bits(u: u16)
    ensures
        to_i16(u) as int == u as int || to_i16(u) as int == u as int - 0x1_0000,
        -0x8000 <= to_i16(u) as int <= 0x7fff,
{
}

/// Whether `count` records of `size` bytes fit at `p` of `s`; never
/// overflows.
pub fn fits(s: &[u8], p: usize, count: u32, size: usize) -> (b: bool)
    requires
        1 <= size <= 16,
    ensures
        b == avail(s@, p as int, size * count),
        s@.len() <= usize::MAX,
{
    if p > s.len() {
        return false;
    }
    let room = s.len() - p;
    if (count as usize) > room / size {
        assert(size * count > room) by (nonlinear_arith)
            requires
                count > room / size,
                size >= 1,
        ;
        false
    } else {
        assert(size * count <= room) by (nonlinear_arith)
            requires
                count <= room / size,
                size >= 1,
        ;
        true
    }
}


/// Prefixes `done` to the items of a parse result that yields items and an
/// end position.
pub open spec fn prepend_parsed<T>(done: Seq<T>, r: Option<(Seq<T>, int)>) -> Option<(Seq<T>, int)> {
    match r {
        None => None,
        Some((rest, e)) => Some((done + rest, e)),
    }
}


/// The number that bytes `k` and `k + 1` of `s` spell, high byte first.
pub open spec fn word_at(s: Seq<u8>, k: int) -> int {
    256 * s[k] + s[k + 1]
}

/// The two's-complement number that bytes `k` and `k + 1` of `s` spell,
/// high byte first: negative exactly when the high bit is set.
pub open spec fn signed_word_at(s: Seq<u8>, k: int) -> int {
    if s[k] < 128 {
        256 * s[k] + s[k + 1]
    } else {
        256 * s[k] + s[k + 1] - 65536
    }
}

/// The two's-complement number that byte `b` holds.
pub open spec fn signed_byte(b: u8) -> int {
    if b < 128 {
        b as int
    } else {
        b - 256
    }
}

/// The readers of big-endian 16-bit fields and of signed bytes give the
/// numbers those bytes spell.
pub proof fn lemma_readers_spell(s: Seq<u8>, k: int)
    requires
        0 <= k && k + 2 <= s.len(),
    ensures
        u16_at(s, k) == word_at(s, k),
        to_i16(u16_at(s, k)) == signed_word_at(s, k),
        to_i8(s[k]) == signed_byte(s[k]),
{
}


/// The number that bytes `k` to `k + 3` of `s` spell, high byte first.
pub open spec fn dword_at(s: Seq<u8>, k: int) -> int {
    65536 * word_at(s, k) + word_at(s, k + 2)
}

/// The reader of big-endian 32-bit fields gives the number those bytes
/// spell.
pub proof fn lemma_dword_spells(s: Seq<u8>, k: int)
    requires
        0 <= k && k + 4 <= s.len(),
    ensures
        u32_at(s, k) == dword_at(s, k),
{
}

/// The number that bytes `k` to `k + 2` of `s` spell, high byte first.
pub open spec fn triple_at(s: Seq<u8>, k: int) -> int {
    65536 * s[k] + 256 * s[k + 1] + s[k + 2]
}

/// The reader of big-endian 24-bit fields gives the number those bytes
/// spell.
pub proof fn lemma_triple_spells(s: Seq<u8>, k: int)
    requires
        0 <= k && k + 3 <= s.len(),
    ensures
        u24_at(s, k) == triple_at(s, k),
{
}

} // verus!
