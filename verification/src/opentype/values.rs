//! OpenType primitive field types and the value-level helpers that the
//! table grammars are built from.
use vstd::prelude::*;
use crate::bytes::{
    agrees, as_i16, as_i32, as_i64, as_i8, get_u16be, get_u24be, get_u32be, get_u64be, get_u8, avail,
    has_bytes, to_i16, to_i32, to_i64, to_i8, u16_at, u24_at, u32_at, u64_at,
};

verus! {

/// A signed 16.16 fixed-point number, kept as its raw big-endian `u32`.
#[derive(Clone, Copy, Debug, PartialEq, Eq)]
pub struct Fixed32(pub u32);

/// A signed 2.14 fixed-point number, kept as its raw big-endian `u16`.
#[derive(Clone, Copy, Debug, PartialEq, Eq)]
pub struct F2Dot14(pub u16);

impl View for Fixed32 {
    type V = Fixed32;

    open spec fn view(&self) -> Fixed32 {
        *self
    }
}

impl View for F2Dot14 {
    type V = F2Dot14;

    open spec fn view(&self) -> F2Dot14 {
        *self
    }
}

/// Reads a big-endian `u32` at `pos` as a `Fixed32`.
pub open spec fn spec_fixed32be(s: Seq<u8>, pos: int) -> Option<(Fixed32, int)> {
    if avail(s, pos, 4) {
        Some((Fixed32(u32_at(s, pos)), pos + 4))
    } else {
        None
    }
}

/// Reads a big-endian `u16` at `pos`.
pub open spec fn spec_u16be(s: Seq<u8>, pos: int) -> Option<(u16, int)> {
    if avail(s, pos, 2) {
        Some((u16_at(s, pos), pos + 2))
    } else {
        None
    }
}

/// Reads a big-endian `u32` at `pos`.
pub open spec fn spec_u32be(s: Seq<u8>, pos: int) -> Option<(u32, int)> {
    if avail(s, pos, 4) {
        Some((u32_at(s, pos), pos + 4))
    } else {
        None
    }
}

pub fn u16be(s: &[u8], pos: usize) -> (res: Option<(u16, usize)>)
    ensures
        agrees(res, spec_u16be(s@, pos as int)),
{
    if has_bytes(s, pos, 2) {
        Some((get_u16be(s, pos), pos + 2))
    } else {
        None
    }
}

pub fn u32be(s: &[u8], pos: usize) -> (res: Option<(u32, usize)>)
    ensures
        agrees(res, spec_u32be(s@, pos as int)),
{
    if has_bytes(s, pos, 4) {
        Some((get_u32be(s, pos), pos + 4))
    } else {
        None
    }
}

/// Parses a big-endian `u32` as the raw form of a 16.16 fixed-point number.
pub fn fixed32be(s: &[u8], pos: usize) -> (res: Option<(Fixed32, usize)>)
    ensures
        agrees(res, spec_fixed32be(s@, pos as int)),
{
    if has_bytes(s, pos, 4) {
        Some((Fixed32(get_u32be(s, pos)), pos + 4))
    } else {
        None
    }
}

/// Parses a big-endian `u16` as the raw form of a 2.14 fixed-point number.
pub fn f2dot14(s: &[u8], pos: usize) -> (res: Option<(F2Dot14, usize)>)
    ensures
        match res {
            Some((v, n)) => avail(s@, pos as int, 2) && v == F2Dot14(u16_at(s@, pos as int)) && n
                == pos + 2,
            None => !avail(s@, pos as int, 2),
        },
{
    if has_bytes(s, pos, 2) {
        Some((F2Dot14(get_u16be(s, pos)), pos + 2))
    } else {
        None
    }
}

/// Parses one byte as a signed 8-bit integer.
pub fn s8(s: &[u8], pos: usize) -> (res: Option<(i8, usize)>)
    ensures
        match res {
            Some((v, n)) => avail(s@, pos as int, 1) && v == to_i8(s@[pos as int]) && n == pos + 1,
            None => !avail(s@, pos as int, 1),
        },
{
    if has_bytes(s, pos, 1) {
        Some((as_i8(get_u8(s, pos)), pos + 1))
    } else {
        None
    }
}

/// Parses a big-endian signed 16-bit integer.
pub fn s16be(s: &[u8], pos: usize) -> (res: Option<(i16, usize)>)
    ensures
        match res {
            Some((v, n)) => avail(s@, pos as int, 2) && v == to_i16(u16_at(s@, pos as int)) && n
                == pos + 2,
            None => !avail(s@, pos as int, 2),
        },
{
    if has_bytes(s, pos, 2) {
        Some((as_i16(get_u16be(s, pos)), pos + 2))
    } else {
        None
    }
}

/// Parses a big-endian signed 32-bit integer.
pub fn s32be(s: &[u8], pos: usize) -> (res: Option<(i32, usize)>)
    ensures
        match res {
            Some((v, n)) => avail(s@, pos as int, 4) && v == to_i32(u32_at(s@, pos as int)) && n
                == pos + 4,
            None => !avail(s@, pos as int, 4),
        },
{
    if has_bytes(s, pos, 4) {
        Some((as_i32(get_u32be(s, pos)), pos + 4))
    } else {
        None
    }
}

/// Parses a big-endian signed 64-bit integer.
pub fn s64be(s: &[u8], pos: usize) -> (res: Option<(i64, usize)>)
    ensures
        match res {
            Some((v, n)) => avail(s@, pos as int, 8) && v == to_i64(u64_at(s@, pos as int)) && n
                == pos + 8,
            None => !avail(s@, pos as int, 8),
        },
{
    if has_bytes(s, pos, 8) {
        Some((as_i64(get_u64be(s, pos)), pos + 8))
    } else {
        None
    }
}

/// Parses a big-endian 24-bit unsigned integer into a `u32`.
pub fn u24be(s: &[u8], pos: usize) -> (res: Option<(u32, usize)>)
    ensures
        match res {
            Some((v, n)) => avail(s@, pos as int, 3) && v == u24_at(s@, pos as int) && v
                < 0x100_0000 && n == pos + 3,
            None => !avail(s@, pos as int, 3),
        },
{
    if has_bytes(s, pos, 3) {
        Some((get_u24be(s, pos), pos + 3))
    } else {
        None
    }
}

/// Parses a `(u16, u16)` version pair packed as one big-endian `u32`.
pub fn version16_16(s: &[u8], pos: usize) -> (res: Option<(u32, usize)>)
    ensures
        agrees(res, spec_u32be(s@, pos as int)),
{
    u32be(s, pos)
}

/// Parses a four-byte OpenType tag as its big-endian `u32`.
pub fn opentype_tag(s: &[u8], pos: usize) -> (res: Option<(u32, usize)>)
    ensures
        agrees(res, spec_u32be(s@, pos as int)),
{
    u32be(s, pos)
}

/// Reads a `u16` that must equal `val`.
pub open spec fn spec_expect_u16be(s: Seq<u8>, pos: int, val: u16) -> Option<(u16, int)> {
    if avail(s, pos, 2) && u16_at(s, pos) == val {
        Some((val, pos + 2))
    } else {
        None
    }
}

/// Reads a `u16` that must be one of `vals`.
pub open spec fn spec_expects_u16be(s: Seq<u8>, pos: int, vals: Seq<u16>) -> Option<(u16, int)> {
    if avail(s, pos, 2) && vals.contains(u16_at(s, pos)) {
        Some((u16_at(s, pos), pos + 2))
    } else {
        None
    }
}

/// Reads a `u16` that must lie in `lo..=hi`.
pub open spec fn spec_u16be_between(s: Seq<u8>, pos: int, lo: u16, hi: u16) -> Option<(u16, int)> {
    if avail(s, pos, 2) && lo <= u16_at(s, pos) <= hi {
        Some((u16_at(s, pos), pos + 2))
    } else {
        None
    }
}

/// Parses a big-endian `u16` that is expected to equal `val`.
pub fn expect_u16be(s: &[u8], pos: usize, val: u16) -> (res: Option<(u16, usize)>)
    ensures
        agrees(res, spec_expect_u16be(s@, pos as int, val)),
{
    if has_bytes(s, pos, 2) && get_u16be(s, pos) == val {
        Some((val, pos + 2))
    } else {
        None
    }
}

/// Parses a big-endian `u16` that is expected to equal one of `vals`.
pub fn expects_u16be(s: &[u8], pos: usize, vals: &[u16]) -> (res: Option<(u16, usize)>)
    ensures
        agrees(res, spec_expects_u16be(s@, pos as int, vals@)),
{
    if !has_bytes(s, pos, 2) {
        return None;
    }
    let v = get_u16be(s, pos);
    let mut i: usize = 0;
    while i < vals.len()
        invariant
            0 <= i <= vals@.len(),
            v == u16_at(s@, pos as int),
            avail(s@, pos as int, 2),
            s@.len() <= usize::MAX,
            forall|j: int| 0 <= j < i ==> vals@[j] != v,
        decreases vals@.len() - i,
    {
        if vals[i] == v {
            assert(vals@.contains(v));
            return Some((v, pos + 2));
        }
        i = i + 1;
    }
    assert(!vals@.contains(v));
    None
}

/// Parses a big-endian `u16` that must lie in `lo..=hi`.
pub fn u16be_between(s: &[u8], pos: usize, lo: u16, hi: u16) -> (res: Option<(u16, usize)>)
    ensures
        agrees(res, spec_u16be_between(s@, pos as int, lo, hi)),
{
    if has_bytes(s, pos, 2) {
        let v = get_u16be(s, pos);
        if lo <= v && v <= hi {
            return Some((v, pos + 2));
        }
    }
    None
}

/// The 16-bit pattern that `u8_to_i16` produces: `x` itself for a positive
/// sign bit, otherwise the two's-complement pattern of `-x`.
pub open spec fn spec_u8_to_i16(x: u8, is_positive: bool) -> u16 {
    if is_positive {
        x as u16
    } else if x == 0 {
        0
    } else {
        (0x1_0000 - x as int) as u16
    }
}

/// Converts an unsigned byte magnitude and a sign flag (`true` for positive)
/// into the 16-bit pattern of the signed value.
pub fn u8_to_i16(x: u8, is_positive: bool) -> (r: u16)
    ensures
        r == spec_u8_to_i16(x, is_positive),
{
    if is_positive {
        x as u16
    } else {
        match x {
            0 => 0,
            n => u16::MAX - ((n as u16) - 1),
        }
    }
}

/// Read as a signed 16-bit number, the pattern that `u8_to_i16` produces is
/// `x` for a positive sign flag and `-x` otherwise.
pub proof fn lemma_u8_to_i16_signed(x: u8, is_positive: bool)
    ensures
        to_i16(spec_u8_to_i16(x, is_positive)) as int == if is_positive {
            x as int
        } else {
            -(x as int)
        },
{
}

/// Doubles a `u16` into a `u32`.
pub fn scale2(half: u16) -> (r: u32)
    ensures
        r == 2 * half,
{
    (half as u32) * 2
}

/// Adds a `u16` offset to a `u32` position; `None` where the sum does not
/// fit in a `u32`.
pub fn pos_add_u16(pos32: u32, offset16: u16) -> (r: Option<u32>)
    ensures
        r == if pos32 + offset16 <= u32::MAX {
            Some((pos32 + offset16) as u32)
        } else {
            None::<u32>
        },
{
    pos32.checked_add(offset16 as u32)
}

/// The largest `y / 8` over `seq`, folding from the front (`0` for an empty
/// sequence).
pub open spec fn max_div8(seq: Seq<u16>) -> u16
    decreases seq.len(),
{
    if seq.len() == 0 {
        0
    } else if seq.len() == 1 {
        seq[0] / 8
    } else {
        let m = max_div8(seq.drop_last());
        let y = seq.last() / 8;
        if m >= y {
            m
        } else {
            y
        }
    }
}

/// Computes the maximum value of `y / 8` over `seq`: the index of the last
/// sub-header that a `cmap` format 2 key array refers to; `None` for an
/// empty list, which has no maximum.
pub fn subheader_index(seq: &[u16]) -> (r: Option<u16>)
    ensures
        r == if seq@.len() == 0 {
            None
        } else {
            Some(max_div8(seq@))
        },
{
    if seq.len() == 0 {
        return None;
    }
    let mut acc: u16 = seq[0] / 8;
    let mut i: usize = 1;
    assert(seq@.take(1).drop_last() =~= seq@.take(0));
    while i < seq.len()
        invariant
            1 <= i <= seq@.len(),
            acc == max_div8(seq@.take(i as int)),
        decreases seq@.len() - i,
    {
        let y = seq[i] / 8;
        assert(seq@.take(i + 1).drop_last() =~= seq@.take(i as int));
        if y > acc {
            acc = y;
        }
        i = i + 1;
    }
    assert(seq@.take(i as int) =~= seq@);
    Some(acc)
}

/// `max_div8` bounds every `y / 8` of a non-empty sequence and is attained
/// by one of them.
pub proof fn lemma_max_div8_is_max(seq: Seq<u16>)
    requires
        seq.len() > 0,
    ensures
        forall|i: int| 0 <= i < seq.len() ==> #[trigger] seq[i] / 8 <= max_div8(seq),
        exists|i: int| 0 <= i < seq.len() && seq[i] / 8 == max_div8(seq),
    decreases seq.len(),
{
    if seq.len() == 1 {
        assert(seq[0] / 8 == max_div8(seq));
    } else {
        let init = seq.drop_last();
        lemma_max_div8_is_max(init);
        assert forall|i: int| 0 <= i < seq.len() implies #[trigger] seq[i] / 8 <= max_div8(seq) by {
            if i < seq.len() - 1 {
                assert(seq[i] == init[i]);
            }
        }
        if max_div8(init) >= seq.last() / 8 {
            let k = choose|k: int| 0 <= k < init.len() && init[k] / 8 == max_div8(init);
            assert(seq[k] == init[k]);
        } else {
            assert(seq[seq.len() - 1] / 8 == max_div8(seq));
        }
    }
}

/// The final element of a non-empty sequence.
pub fn last_elem(seq: &[u16]) -> (r: u16)
    requires
        seq@.len() > 0,
    ensures
        r == seq@.last(),
{
    seq[seq.len() - 1]
}

/// Splits a `u16` into its high flag bit and its low 15 bits.
pub fn hi_flag_u15be(raw: u16) -> (r: (bool, u16))
    ensures
        r.0 == (raw >= 0x8000),
        r.1 == raw % 0x8000,
        (if r.0 { 0x8000int } else { 0 }) + r.1 == raw,
{
    (raw >= 0x8000, raw % 0x8000)
}

} // verus!
