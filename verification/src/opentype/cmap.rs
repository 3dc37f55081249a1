//! The character-to-glyph mapping table (`cmap`) and its subtable formats.
//!
//! Most subtable formats declare their own byte length: their fields are
//! first peeked up to the length field, and the whole subtable is then read
//! within a slice of that many bytes (`slice_record`), whatever it holds
//! beyond its fields being skipped.
use vstd::prelude::*;
use vstd::slice::{slice_subrange, slice_to_vec};
use crate::bytes::{
    agrees, avail, as_i16, fits, get_u16be, get_u24be, get_u32be, get_u8, has_bytes, to_i16, u16_at, u24_at,
    u32_at,
};
use crate::opentype::links::{Link32, offset32, spec_offset32};
use crate::opentype::values::{max_div8, subheader_index};

verus! {

/// The end of a record of `length` bytes starting at `p`, provided it lies
/// within `s`: the record is then read from `s` cut off at that end.
pub open spec fn spec_slice_record(s: Seq<u8>, p: int, length: int) -> Option<int> {
    if 0 <= p && 0 <= length && p + length <= s.len() {
        Some(p + length)
    } else {
        None
    }
}

/// The end of a record of `length` bytes starting at `p`, when it lies
/// within `s`.
pub fn slice_record(s: &[u8], p: usize, length: usize) -> (r: Option<usize>)
    ensures
        match r {
            Some(e) => spec_slice_record(s@, p as int, length as int) == Some(e as int),
            None => spec_slice_record(s@, p as int, length as int) is None,
        },
{
    if has_bytes(s, p, length) {
        Some(p + length)
    } else {
        None
    }
}

/// `n` big-endian `u16`s at `p`.
pub open spec fn u16s_at(s: Seq<u8>, p: int, n: int) -> Seq<u16> {
    Seq::new(n as nat, |i: int| u16_at(s, p + 2 * i))
}

/// Reads `n` big-endian `u16`s at `p`.
pub fn read_u16s(s: &[u8], p: usize, n: usize) -> (v: Vec<u16>)
    requires
        avail(s@, p as int, 2 * n),
    ensures
        v@ == u16s_at(s@, p as int, n as int),
{
    let _len = s.len();
    let mut v: Vec<u16> = Vec::new();
    let mut i: usize = 0;
    while i < n
        invariant
            0 <= i <= n,
            avail(s@, p as int, 2 * n),
            s@.len() <= usize::MAX,
            v@ =~= Seq::new(i as nat, |j: int| u16_at(s@, p + 2 * j)),
        decreases n - i,
    {
        v.push(get_u16be(s, p + 2 * i));
        i = i + 1;
        assert(v@ =~= Seq::new(i as nat, |j: int| u16_at(s@, p + 2 * j)));
    }
    v
}

/// The big-endian `u16`s filling `q..` of `t`, as many as fit.
pub open spec fn u16s_to_end(t: Seq<u8>, q: int) -> Seq<u16> {
    u16s_at(t, q, (t.len() - q) / 2)
}

/// A format 0 subtable: byte-encoded glyph ids for the first 256 codes.
#[derive(Clone, Debug, PartialEq, Eq)]
pub struct CmapFormat0 {
    pub format: u16,
    pub length: u16,
    pub language: u16,
    pub glyph_id_array: Vec<u8>,
}

/// Mathematical form of `CmapFormat0`.
pub struct SpecCmapFormat0 {
    pub format: u16,
    pub length: u16,
    pub language: u16,
    pub glyph_id_array: Seq<u8>,
}

impl View for CmapFormat0 {
    type V = SpecCmapFormat0;

    open spec fn view(&self) -> SpecCmapFormat0 {
        SpecCmapFormat0 {
            format: self.format,
            length: self.length,
            language: self.language,
            glyph_id_array: self.glyph_id_array@,
        }
    }
}

/// A format 0 subtable at `p`, within its declared length.
pub open spec fn spec_cmap_format0(s: Seq<u8>, p: int) -> Option<(SpecCmapFormat0, int)> {
    if !avail(s, p, 4) {
        None
    } else {
        match spec_slice_record(s, p, u16_at(s, p + 2) as int) {
            None => None,
            Some(end) => {
                if p + 262 <= end {
                    Some((SpecCmapFormat0 {
                        format: u16_at(s, p),
                        length: u16_at(s, p + 2),
                        language: u16_at(s, p + 4),
                        glyph_id_array: s.subrange(p + 6, p + 262),
                    }, end))
                } else {
                    None
                }
            },
        }
    }
}

/// Parses a format 0 subtable at `p`.
pub fn cmap_format0(s: &[u8], p: usize) -> (r: Option<(CmapFormat0, usize)>)
    ensures
        agrees(r, spec_cmap_format0(s@, p as int)),
{
    if !has_bytes(s, p, 4) {
        return None;
    }
    let length = get_u16be(s, p + 2);
    let end = match slice_record(s, p, length as usize) {
        Some(e) => e,
        None => return None,
    };
    if end - p < 262 {
        return None;
    }
    let t = CmapFormat0 {
        format: get_u16be(s, p),
        length,
        language: get_u16be(s, p + 4),
        glyph_id_array: slice_to_vec(slice_subrange(s, p + 6, p + 262)),
    };
    Some((t, end))
}

/// A sub-header of a format 2 subtable.
#[derive(Clone, Copy, Debug, PartialEq, Eq)]
pub struct SubHeader {
    pub first_code: u16,
    pub entry_count: u16,
    pub id_delta: i16,
    pub id_range_offset: u16,
}

/// The sub-header stored at `p`.
pub open spec fn sub_header_at(s: Seq<u8>, p: int) -> SubHeader {
    SubHeader {
        first_code: u16_at(s, p),
        entry_count: u16_at(s, p + 2),
        id_delta: to_i16(u16_at(s, p + 4)),
        id_range_offset: u16_at(s, p + 6),
    }
}

/// A format 2 subtable: high-byte mapping through sub-headers.
#[derive(Clone, Debug, PartialEq, Eq)]
pub struct CmapFormat2 {
    pub format: u16,
    pub length: u16,
    pub language: u16,
    pub sub_header_keys: Vec<u16>,
    pub sub_headers: Vec<SubHeader>,
    pub glyph_array: Vec<u16>,
}

/// Mathematical form of `CmapFormat2`.
pub struct SpecCmapFormat2 {
    pub format: u16,
    pub length: u16,
    pub language: u16,
    pub sub_header_keys: Seq<u16>,
    pub sub_headers: Seq<SubHeader>,
    pub glyph_array: Seq<u16>,
}

impl View for CmapFormat2 {
    type V = SpecCmapFormat2;

    open spec fn view(&self) -> SpecCmapFormat2 {
        SpecCmapFormat2 {
            format: self.format,
            length: self.length,
            language: self.language,
            sub_header_keys: self.sub_header_keys@,
            sub_headers: self.sub_headers@,
            glyph_array: self.glyph_array@,
        }
    }
}

/// The body of a format 2 subtable at `p` of `t` (the input cut off at the
/// subtable's end): 256 sub-header keys, then as many sub-headers as the
/// largest key divided by 8, plus one, then glyph ids up to the end.
pub open spec fn spec_format2_body(t: Seq<u8>, p: int) -> Option<SpecCmapFormat2> {
    if !avail(t, p, 518) {
        None
    } else {
        let keys = u16s_at(t, p + 6, 256);
        let k = max_div8(keys) + 1;
        let q = p + 518 + 8 * k;
        if q <= t.len() {
            Some(SpecCmapFormat2 {
                format: 2,
                length: u16_at(t, p + 2),
                language: u16_at(t, p + 4),
                sub_header_keys: keys,
                sub_headers: Seq::new(k as nat, |i: int| sub_header_at(t, p + 518 + 8 * i)),
                glyph_array: u16s_to_end(t, q),
            })
        } else {
            None
        }
    }
}

/// A format 2 subtable at `p`: format 2 and an even length of at least 518,
/// read within that length.
pub open spec fn spec_cmap_format2(s: Seq<u8>, p: int) -> Option<(SpecCmapFormat2, int)> {
    if !avail(s, p, 4) || u16_at(s, p) != 2 {
        None
    } else {
        let l = u16_at(s, p + 2);
        if l < 518 || l % 2 != 0 {
            None
        } else {
            match spec_slice_record(s, p, l as int) {
                None => None,
                Some(end) => match spec_format2_body(s.subrange(0, end), p) {
                    Some(v) => Some((v, end)),
                    None => None,
                },
            }
        }
    }
}

/// Parses a format 2 subtable at `p`.
pub fn cmap_format2(s: &[u8], p: usize) -> (r: Option<(CmapFormat2, usize)>)
    ensures
        agrees(r, spec_cmap_format2(s@, p as int)),
{
    if !has_bytes(s, p, 4) || get_u16be(s, p) != 2 {
        return None;
    }
    let l = get_u16be(s, p + 2);
    if l < 518 || l % 2 != 0 {
        return None;
    }
    let end = match slice_record(s, p, l as usize) {
        Some(e) => e,
        None => return None,
    };
    let t = slice_subrange(s, 0, end);
    let keys = read_u16s(t, p + 6, 256);
    let k = match subheader_index(keys.as_slice()) {
        Some(m) => m as usize + 1,
        None => return None,
    };
    if 8 * k > end - p - 518 {
        return None;
    }
    let mut subs: Vec<SubHeader> = Vec::new();
    let mut i: usize = 0;
    while i < k
        invariant
            0 <= i <= k,
            avail(t@, p + 518, 8 * k),
            t@.len() <= usize::MAX,
            subs@ =~= Seq::new(i as nat, |j: int| sub_header_at(t@, p + 518 + 8 * j)),
        decreases k - i,
    {
        let q = p + 518 + 8 * i;
        subs.push(
            SubHeader {
                first_code: get_u16be(t, q),
                entry_count: get_u16be(t, q + 2),
                id_delta: as_i16(get_u16be(t, q + 4)),
                id_range_offset: get_u16be(t, q + 6),
            },
        );
        i = i + 1;
        assert(subs@ =~= Seq::new(i as nat, |j: int| sub_header_at(t@, p + 518 + 8 * j)));
    }
    let q = p + 518 + 8 * k;
    let glyphs = read_u16s(t, q, (end - q) / 2);
    let v = CmapFormat2 {
        format: 2,
        length: l,
        language: get_u16be(t, p + 4),
        sub_header_keys: keys,
        sub_headers: subs,
        glyph_array: glyphs,
    };
    Some((v, end))
}

/// A format 4 subtable: segment mapping to delta values.
#[derive(Clone, Debug, PartialEq, Eq)]
pub struct CmapFormat4 {
    pub format: u16,
    pub length: u16,
    pub language: u16,
    pub seg_count: u16,
    pub search_range: u16,
    pub entry_selector: u16,
    pub range_shift: u16,
    pub end_code: Vec<u16>,
    pub start_code: Vec<u16>,
    pub id_delta: Vec<u16>,
    pub id_range_offset: Vec<u16>,
    pub glyph_array: Vec<u16>,
}

/// Mathematical form of `CmapFormat4`.
pub struct SpecCmapFormat4 {
    pub format: u16,
    pub length: u16,
    pub language: u16,
    pub seg_count: u16,
    pub search_range: u16,
    pub entry_selector: u16,
    pub range_shift: u16,
    pub end_code: Seq<u16>,
    pub start_code: Seq<u16>,
    pub id_delta: Seq<u16>,
    pub id_range_offset: Seq<u16>,
    pub glyph_array: Seq<u16>,
}

impl View for CmapFormat4 {
    type V = SpecCmapFormat4;

    open spec fn view(&self) -> SpecCmapFormat4 {
        SpecCmapFormat4 {
            format: self.format,
            length: self.length,
            language: self.language,
            seg_count: self.seg_count,
            search_range: self.search_range,
            entry_selector: self.entry_selector,
            range_shift: self.range_shift,
            end_code: self.end_code@,
            start_code: self.start_code@,
            id_delta: self.id_delta@,
            id_range_offset: self.id_range_offset@,
            glyph_array: self.glyph_array@,
        }
    }
}

/// The body of a format 4 subtable at `p` of `t`: the segment count is half
/// the stored value; the end codes are followed by a zero pad word, then the
/// start codes, deltas and range offsets, then glyph ids up to the end.
pub open spec fn spec_format4_body(t: Seq<u8>, p: int) -> Option<SpecCmapFormat4> {
    if !avail(t, p, 14) {
        None
    } else {
        let n = u16_at(t, p + 6) / 2;
        let q = p + 16 + 8 * n;
        if q <= t.len() && u16_at(t, p + 14 + 2 * n) == 0 {
            Some(SpecCmapFormat4 {
                format: 4,
                length: u16_at(t, p + 2),
                language: u16_at(t, p + 4),
                seg_count: n,
                search_range: u16_at(t, p + 8),
                entry_selector: u16_at(t, p + 10),
                range_shift: u16_at(t, p + 12),
                end_code: u16s_at(t, p + 14, n as int),
                start_code: u16s_at(t, p + 16 + 2 * n, n as int),
                id_delta: u16s_at(t, p + 16 + 4 * n, n as int),
                id_range_offset: u16s_at(t, p + 16 + 6 * n, n as int),
                glyph_array: u16s_to_end(t, q),
            })
        } else {
            None
        }
    }
}

/// A format 4 subtable at `p`, read within its declared length.
pub open spec fn spec_cmap_format4(s: Seq<u8>, p: int) -> Option<(SpecCmapFormat4, int)> {
    if !avail(s, p, 4) || u16_at(s, p) != 4 {
        None
    } else {
        match spec_slice_record(s, p, u16_at(s, p + 2) as int) {
            None => None,
            Some(end) => match spec_format4_body(s.subrange(0, end), p) {
                Some(v) => Some((v, end)),
                None => None,
            },
        }
    }
}

/// Parses a format 4 subtable at `p`.
pub fn cmap_format4(s: &[u8], p: usize) -> (r: Option<(CmapFormat4, usize)>)
    ensures
        agrees(r, spec_cmap_format4(s@, p as int)),
{
    if !has_bytes(s, p, 4) || get_u16be(s, p) != 4 {
        return None;
    }
    let length = get_u16be(s, p + 2);
    let end = match slice_record(s, p, length as usize) {
        Some(e) => e,
        None => return None,
    };
    let t = slice_subrange(s, 0, end);
    if !has_bytes(t, p, 14) {
        return None;
    }
    let n = (get_u16be(t, p + 6) / 2) as usize;
    if 8 * n + 16 > end - p {
        return None;
    }
    let q = p + 16 + 8 * n;
    if get_u16be(t, p + 14 + 2 * n) != 0 {
        return None;
    }
    let v = CmapFormat4 {
        format: 4,
        length,
        language: get_u16be(t, p + 4),
        seg_count: n as u16,
        search_range: get_u16be(t, p + 8),
        entry_selector: get_u16be(t, p + 10),
        range_shift: get_u16be(t, p + 12),
        end_code: read_u16s(t, p + 14, n),
        start_code: read_u16s(t, p + 16 + 2 * n, n),
        id_delta: read_u16s(t, p + 16 + 4 * n, n),
        id_range_offset: read_u16s(t, p + 16 + 6 * n, n),
        glyph_array: read_u16s(t, q, (end - q) / 2),
    };
    Some((v, end))
}

/// A format 6 subtable: a dense range of glyph ids.
#[derive(Clone, Debug, PartialEq, Eq)]
pub struct CmapFormat6 {
    pub format: u16,
    pub length: u16,
    pub language: u16,
    pub first_code: u16,
    pub entry_count: u16,
    pub glyph_id_array: Vec<u16>,
}

/// Mathematical form of `CmapFormat6`.
pub struct SpecCmapFormat6 {
    pub format: u16,
    pub length: u16,
    pub language: u16,
    pub first_code: u16,
    pub entry_count: u16,
    pub glyph_id_array: Seq<u16>,
}

impl View for CmapFormat6 {
    type V = SpecCmapFormat6;

    open spec fn view(&self) -> SpecCmapFormat6 {
        SpecCmapFormat6 {
            format: self.format,
            length: self.length,
            language: self.language,
            first_code: self.first_code,
            entry_count: self.entry_count,
            glyph_id_array: self.glyph_id_array@,
        }
    }
}

/// A format 6 subtable at `p`; unlike the others it is not cut to its
/// declared length, and its extent is given by its entry count.
pub open spec fn spec_cmap_format6(s: Seq<u8>, p: int) -> Option<(SpecCmapFormat6, int)> {
    if !avail(s, p, 10) || u16_at(s, p) != 6 {
        None
    } else {
        let n = u16_at(s, p + 8);
        if avail(s, p + 10, 2 * n) {
            Some((SpecCmapFormat6 {
                format: 6,
                length: u16_at(s, p + 2),
                language: u16_at(s, p + 4),
                first_code: u16_at(s, p + 6),
                entry_count: n,
                glyph_id_array: u16s_at(s, p + 10, n as int),
            }, p + 10 + 2 * n))
        } else {
            None
        }
    }
}

/// Parses a format 6 subtable at `p`.
pub fn cmap_format6(s: &[u8], p: usize) -> (r: Option<(CmapFormat6, usize)>)
    ensures
        agrees(r, spec_cmap_format6(s@, p as int)),
{
    if !has_bytes(s, p, 10) || get_u16be(s, p) != 6 {
        return None;
    }
    let n = get_u16be(s, p + 8);
    if !has_bytes(s, p + 10, 2 * (n as usize)) {
        return None;
    }
    let v = CmapFormat6 {
        format: 6,
        length: get_u16be(s, p + 2),
        language: get_u16be(s, p + 4),
        first_code: get_u16be(s, p + 6),
        entry_count: n,
        glyph_id_array: read_u16s(s, p + 10, n as usize),
    };
    Some((v, p + 10 + 2 * (n as usize)))
}

/// A run of character codes mapped to glyph ids (sequentially, or all to
/// one glyph in format 13).
#[derive(Clone, Copy, Debug, PartialEq, Eq)]
pub struct MapGroup {
    pub start_char_code: u32,
    pub end_char_code: u32,
    pub start_glyph_id: u32,
}

/// The map group stored at `p`.
pub open spec fn map_group_at(s: Seq<u8>, p: int) -> MapGroup {
    MapGroup {
        start_char_code: u32_at(s, p),
        end_char_code: u32_at(s, p + 4),
        start_glyph_id: u32_at(s, p + 8),
    }
}

/// `n` map groups at `p`.
pub open spec fn map_groups_at(s: Seq<u8>, p: int, n: int) -> Seq<MapGroup> {
    Seq::new(n as nat, |i: int| map_group_at(s, p + 12 * i))
}

/// Reads `n` map groups at `p`.
fn read_map_groups(s: &[u8], p: usize, n: usize) -> (v: Vec<MapGroup>)
    requires
        avail(s@, p as int, 12 * n),
    ensures
        v@ == map_groups_at(s@, p as int, n as int),
{
    let _len = s.len();
    let mut v: Vec<MapGroup> = Vec::new();
    let mut i: usize = 0;
    while i < n
        invariant
            0 <= i <= n,
            avail(s@, p as int, 12 * n),
            s@.len() <= usize::MAX,
            v@ =~= Seq::new(i as nat, |j: int| map_group_at(s@, p + 12 * j)),
        decreases n - i,
    {
        let q = p + 12 * i;
        v.push(
            MapGroup {
                start_char_code: get_u32be(s, q),
                end_char_code: get_u32be(s, q + 4),
                start_glyph_id: get_u32be(s, q + 8),
            },
        );
        i = i + 1;
        assert(v@ =~= Seq::new(i as nat, |j: int| map_group_at(s@, p + 12 * j)));
    }
    v
}


/// A format 8 subtable: mixed 16-bit and 32-bit coverage.
#[derive(Clone, Debug, PartialEq, Eq)]
pub struct CmapFormat8 {
    pub format: u16,
    pub length: u32,
    pub language: u32,
    pub is32: Vec<u8>,
    pub num_groups: u32,
    pub groups: Vec<MapGroup>,
}

/// Mathematical form of `CmapFormat8`.
pub struct SpecCmapFormat8 {
    pub format: u16,
    pub length: u32,
    pub language: u32,
    pub is32: Seq<u8>,
    pub num_groups: u32,
    pub groups: Seq<MapGroup>,
}

impl View for CmapFormat8 {
    type V = SpecCmapFormat8;

    open spec fn view(&self) -> SpecCmapFormat8 {
        SpecCmapFormat8 {
            format: self.format,
            length: self.length,
            language: self.language,
            is32: self.is32@,
            num_groups: self.num_groups,
            groups: self.groups@,
        }
    }
}

/// A format 8 subtable at `p`: format 8, a zero reserved word and a 32-bit
/// length, read within that length: the language, the 8192-byte `is32`
/// bit array and the groups.
pub open spec fn spec_cmap_format8(s: Seq<u8>, p: int) -> Option<(SpecCmapFormat8, int)> {
    if !avail(s, p, 8) || u16_at(s, p) != 8 || u16_at(s, p + 2) != 0 {
        None
    } else {
        match spec_slice_record(s, p, u32_at(s, p + 4) as int) {
            None => None,
            Some(end) => {
                let t = s.subrange(0, end);
                if p + 8208 <= end {
                    let n = u32_at(t, p + 8204);
                    if p + 8208 + 12 * n <= end {
                        Some((SpecCmapFormat8 {
                            format: 8,
                            length: u32_at(t, p + 4),
                            language: u32_at(t, p + 8),
                            is32: t.subrange(p + 12, p + 8204),
                            num_groups: n,
                            groups: map_groups_at(t, p + 8208, n as int),
                        }, end))
                    } else {
                        None
                    }
                } else {
                    None
                }
            },
        }
    }
}

/// Parses a format 8 subtable at `p`.
pub fn cmap_format8(s: &[u8], p: usize) -> (r: Option<(CmapFormat8, usize)>)
    ensures
        agrees(r, spec_cmap_format8(s@, p as int)),
{
    if !has_bytes(s, p, 8) || get_u16be(s, p) != 8 || get_u16be(s, p + 2) != 0 {
        return None;
    }
    let length = get_u32be(s, p + 4);
    let end = match slice_record(s, p, length as usize) {
        Some(e) => e,
        None => return None,
    };
    if end - p < 8208 {
        return None;
    }
    let t = slice_subrange(s, 0, end);
    let n = get_u32be(t, p + 8204);
    if !fits(t, p + 8208, n, 12) {
        return None;
    }
    let v = CmapFormat8 {
        format: 8,
        length,
        language: get_u32be(t, p + 8),
        is32: slice_to_vec(slice_subrange(t, p + 12, p + 8204)),
        num_groups: n,
        groups: read_map_groups(t, p + 8208, n as usize),
    };
    Some((v, end))
}

/// A format 10 subtable: a dense range of 32-bit codes.
#[derive(Clone, Debug, PartialEq, Eq)]
pub struct CmapFormat10 {
    pub format: u16,
    pub length: u32,
    pub language: u32,
    pub start_char_code: u32,
    pub num_chars: u32,
    pub glyph_id_array: Vec<u16>,
}

/// Mathematical form of `CmapFormat10`.
pub struct SpecCmapFormat10 {
    pub format: u16,
    pub length: u32,
    pub language: u32,
    pub start_char_code: u32,
    pub num_chars: u32,
    pub glyph_id_array: Seq<u16>,
}

impl View for CmapFormat10 {
    type V = SpecCmapFormat10;

    open spec fn view(&self) -> SpecCmapFormat10 {
        SpecCmapFormat10 {
            format: self.format,
            length: self.length,
            language: self.language,
            start_char_code: self.start_char_code,
            num_chars: self.num_chars,
            glyph_id_array: self.glyph_id_array@,
        }
    }
}

/// A format 10 subtable at `p`, read within its declared 32-bit length.
pub open spec fn spec_cmap_format10(s: Seq<u8>, p: int) -> Option<(SpecCmapFormat10, int)> {
    if !avail(s, p, 8) || u16_at(s, p) != 10 || u16_at(s, p + 2) != 0 {
        None
    } else {
        match spec_slice_record(s, p, u32_at(s, p + 4) as int) {
            None => None,
            Some(end) => {
                let t = s.subrange(0, end);
                if p + 20 <= end && p + 20 + 2 * u32_at(t, p + 16) <= end {
                    Some((SpecCmapFormat10 {
                        format: 10,
                        length: u32_at(t, p + 4),
                        language: u32_at(t, p + 8),
                        start_char_code: u32_at(t, p + 12),
                        num_chars: u32_at(t, p + 16),
                        glyph_id_array: u16s_at(t, p + 20, u32_at(t, p + 16) as int),
                    }, end))
                } else {
                    None
                }
            },
        }
    }
}

/// Parses a format 10 subtable at `p`.
pub fn cmap_format10(s: &[u8], p: usize) -> (r: Option<(CmapFormat10, usize)>)
    ensures
        agrees(r, spec_cmap_format10(s@, p as int)),
{
    if !has_bytes(s, p, 8) || get_u16be(s, p) != 10 || get_u16be(s, p + 2) != 0 {
        return None;
    }
    let length = get_u32be(s, p + 4);
    let end = match slice_record(s, p, length as usize) {
        Some(e) => e,
        None => return None,
    };
    if end - p < 20 {
        return None;
    }
    let t = slice_subrange(s, 0, end);
    let n = get_u32be(t, p + 16);
    if !fits(t, p + 20, n, 2) {
        return None;
    }
    let v = CmapFormat10 {
        format: 10,
        length,
        language: get_u32be(t, p + 8),
        start_char_code: get_u32be(t, p + 12),
        num_chars: n,
        glyph_id_array: read_u16s(t, p + 20, n as usize),
    };
    Some((v, end))
}

/// A format 12 (segmented coverage) or 13 (many-to-one range mappings)
/// subtable.
#[derive(Clone, Debug, PartialEq, Eq)]
pub struct CmapGroupsTable {
    pub format: u16,
    pub length: u32,
    pub language: u32,
    pub num_groups: u32,
    pub groups: Vec<MapGroup>,
}

/// Mathematical form of `CmapGroupsTable`.
pub struct SpecCmapGroupsTable {
    pub format: u16,
    pub length: u32,
    pub language: u32,
    pub num_groups: u32,
    pub groups: Seq<MapGroup>,
}

impl View for CmapGroupsTable {
    type V = SpecCmapGroupsTable;

    open spec fn view(&self) -> SpecCmapGroupsTable {
        SpecCmapGroupsTable {
            format: self.format,
            length: self.length,
            language: self.language,
            num_groups: self.num_groups,
            groups: self.groups@,
        }
    }
}

/// A format `format` (12 or 13) subtable at `p`, read within its declared
/// 32-bit length.
pub open spec fn spec_cmap_groups(s: Seq<u8>, p: int, format: u16) -> Option<
    (SpecCmapGroupsTable, int),
> {
    if !avail(s, p, 8) || u16_at(s, p) != format || u16_at(s, p + 2) != 0 {
        None
    } else {
        match spec_slice_record(s, p, u32_at(s, p + 4) as int) {
            None => None,
            Some(end) => {
                let t = s.subrange(0, end);
                if p + 16 <= end && p + 16 + 12 * u32_at(t, p + 12) <= end {
                    Some((SpecCmapGroupsTable {
                        format,
                        length: u32_at(t, p + 4),
                        language: u32_at(t, p + 8),
                        num_groups: u32_at(t, p + 12),
                        groups: map_groups_at(t, p + 16, u32_at(t, p + 12) as int),
                    }, end))
                } else {
                    None
                }
            },
        }
    }
}

/// Parses a format 12 or 13 subtable at `p`.
pub fn cmap_groups(s: &[u8], p: usize, format: u16) -> (r: Option<(CmapGroupsTable, usize)>)
    ensures
        agrees(r, spec_cmap_groups(s@, p as int, format)),
{
    if !has_bytes(s, p, 8) || get_u16be(s, p) != format || get_u16be(s, p + 2) != 0 {
        return None;
    }
    let length = get_u32be(s, p + 4);
    let end = match slice_record(s, p, length as usize) {
        Some(e) => e,
        None => return None,
    };
    if end - p < 16 {
        return None;
    }
    let t = slice_subrange(s, 0, end);
    let n = get_u32be(t, p + 12);
    if !fits(t, p + 16, n, 12) {
        return None;
    }
    let v = CmapGroupsTable {
        format,
        length,
        language: get_u32be(t, p + 8),
        num_groups: n,
        groups: read_map_groups(t, p + 16, n as usize),
    };
    Some((v, end))
}

/// A range of code points with default glyphs for a variation selector.
#[derive(Clone, Copy, Debug, PartialEq, Eq)]
pub struct UnicodeRange {
    pub start_unicode_value: u32,
    pub additional_count: u8,
}

/// A code point with a non-default glyph for a variation selector.
#[derive(Clone, Copy, Debug, PartialEq, Eq)]
pub struct UvsMapping {
    pub unicode_value: u32,
    pub glyph_id: u16,
}

/// The default-UVS table of a variation selector.
#[derive(Clone, Debug, PartialEq, Eq)]
pub struct DefaultUvsTable {
    pub num_unicode_value_ranges: u32,
    pub ranges: Vec<UnicodeRange>,
}

/// Mathematical form of `DefaultUvsTable`.
pub struct SpecDefaultUvsTable {
    pub num_unicode_value_ranges: u32,
    pub ranges: Seq<UnicodeRange>,
}

impl View for DefaultUvsTable {
    type V = SpecDefaultUvsTable;

    open spec fn view(&self) -> SpecDefaultUvsTable {
        SpecDefaultUvsTable {
            num_unicode_value_ranges: self.num_unicode_value_ranges,
            ranges: self.ranges@,
        }
    }
}

/// The non-default-UVS table of a variation selector.
#[derive(Clone, Debug, PartialEq, Eq)]
pub struct NonDefaultUvsTable {
    pub num_uvs_mappings: u32,
    pub uvs_mappings: Vec<UvsMapping>,
}

/// Mathematical form of `NonDefaultUvsTable`.
pub struct SpecNonDefaultUvsTable {
    pub num_uvs_mappings: u32,
    pub uvs_mappings: Seq<UvsMapping>,
}

impl View for NonDefaultUvsTable {
    type V = SpecNonDefaultUvsTable;

    open spec fn view(&self) -> SpecNonDefaultUvsTable {
        SpecNonDefaultUvsTable {
            num_uvs_mappings: self.num_uvs_mappings,
            uvs_mappings: self.uvs_mappings@,
        }
    }
}

/// The default-UVS table at `x`: a count, then four-byte ranges.
pub open spec fn spec_default_uvs(t: Seq<u8>, x: int) -> Option<SpecDefaultUvsTable> {
    if avail(t, x, 4) && avail(t, x + 4, 4 * u32_at(t, x)) {
        let n = u32_at(t, x);
        Some(SpecDefaultUvsTable {
            num_unicode_value_ranges: n,
            ranges: Seq::new(
                n as nat,
                |i: int|
                    UnicodeRange {
                        start_unicode_value: u24_at(t, x + 4 + 4 * i),
                        additional_count: t[x + 4 + 4 * i + 3],
                    },
            ),
        })
    } else {
        None
    }
}

/// The non-default-UVS table at `x`: a count, then five-byte mappings.
pub open spec fn spec_non_default_uvs(t: Seq<u8>, x: int) -> Option<SpecNonDefaultUvsTable> {
    if avail(t, x, 4) && avail(t, x + 4, 5 * u32_at(t, x)) {
        let n = u32_at(t, x);
        Some(SpecNonDefaultUvsTable {
            num_uvs_mappings: n,
            uvs_mappings: Seq::new(
                n as nat,
                |i: int|
                    UvsMapping {
                        unicode_value: u24_at(t, x + 4 + 5 * i),
                        glyph_id: u16_at(t, x + 4 + 5 * i + 3),
                    },
            ),
        })
    } else {
        None
    }
}

/// Parses a default-UVS table at `x`.
pub fn default_uvs(t: &[u8], x: usize) -> (r: Option<DefaultUvsTable>)
    ensures
        match r {
            Some(v) => spec_default_uvs(t@, x as int) == Some(v@),
            None => spec_default_uvs(t@, x as int) is None,
        },
{
    if !has_bytes(t, x, 4) {
        return None;
    }
    let n = get_u32be(t, x);
    if !fits(t, x + 4, n, 4) {
        return None;
    }
    let ghost want = Seq::new(
        n as nat,
        |i: int|
            UnicodeRange {
                start_unicode_value: u24_at(t@, x + 4 + 4 * i),
                additional_count: t@[x + 4 + 4 * i + 3],
            },
    );
    let mut v: Vec<UnicodeRange> = Vec::new();
    let mut i: usize = 0;
    while i < n as usize
        invariant
            0 <= i <= n,
            avail(t@, x + 4, 4 * n),
            t@.len() <= usize::MAX,
            want == Seq::new(
                n as nat,
                |j: int|
                    UnicodeRange {
                        start_unicode_value: u24_at(t@, x + 4 + 4 * j),
                        additional_count: t@[x + 4 + 4 * j + 3],
                    },
            ),
            v@ =~= want.take(i as int),
        decreases n - i,
    {
        let q = x + 4 + 4 * i;
        v.push(UnicodeRange { start_unicode_value: get_u24be(t, q), additional_count: get_u8(t, q + 3) });
        i = i + 1;
        assert(v@ =~= want.take(i as int));
    }
    assert(want.take(n as int) =~= want);
    Some(DefaultUvsTable { num_unicode_value_ranges: n, ranges: v })
}

/// Parses a non-default-UVS table at `x`.
pub fn non_default_uvs(t: &[u8], x: usize) -> (r: Option<NonDefaultUvsTable>)
    ensures
        match r {
            Some(v) => spec_non_default_uvs(t@, x as int) == Some(v@),
            None => spec_non_default_uvs(t@, x as int) is None,
        },
{
    if !has_bytes(t, x, 4) {
        return None;
    }
    let n = get_u32be(t, x);
    if !fits(t, x + 4, n, 5) {
        return None;
    }
    let ghost want = Seq::new(
        n as nat,
        |i: int|
            UvsMapping {
                unicode_value: u24_at(t@, x + 4 + 5 * i),
                glyph_id: u16_at(t@, x + 4 + 5 * i + 3),
            },
    );
    let mut v: Vec<UvsMapping> = Vec::new();
    let mut i: usize = 0;
    while i < n as usize
        invariant
            0 <= i <= n,
            avail(t@, x + 4, 5 * n),
            t@.len() <= usize::MAX,
            want == Seq::new(
                n as nat,
                |j: int|
                    UvsMapping {
                        unicode_value: u24_at(t@, x + 4 + 5 * j),
                        glyph_id: u16_at(t@, x + 4 + 5 * j + 3),
                    },
            ),
            v@ =~= want.take(i as int),
        decreases n - i,
    {
        let q = x + 4 + 5 * i;
        v.push(UvsMapping { unicode_value: get_u24be(t, q), glyph_id: get_u16be(t, q + 3) });
        i = i + 1;
        assert(v@ =~= want.take(i as int));
    }
    assert(want.take(n as int) =~= want);
    Some(NonDefaultUvsTable { num_uvs_mappings: n, uvs_mappings: v })
}

/// A variation-selector record of a format 14 subtable.
#[derive(Clone, Debug, PartialEq, Eq)]
pub struct VariationSelector {
    pub var_selector: u32,
    pub default_uvs_offset: Link32<DefaultUvsTable>,
    pub non_default_uvs_offset: Link32<NonDefaultUvsTable>,
}

/// Mathematical form of `VariationSelector`.
pub struct SpecVariationSelector {
    pub var_selector: u32,
    pub default_uvs_offset: Link32<SpecDefaultUvsTable>,
    pub non_default_uvs_offset: Link32<SpecNonDefaultUvsTable>,
}

impl View for VariationSelector {
    type V = SpecVariationSelector;

    open spec fn view(&self) -> SpecVariationSelector {
        SpecVariationSelector {
            var_selector: self.var_selector,
            default_uvs_offset: self.default_uvs_offset@,
            non_default_uvs_offset: self.non_default_uvs_offset@,
        }
    }
}

/// The variation-selector record at `q` of `t`, whose offsets are relative
/// to the subtable start `start`, with the tables they lead to.
pub open spec fn spec_variation_selector(t: Seq<u8>, start: int, q: int) -> Option<
    SpecVariationSelector,
> {
    if !avail(t, q, 3) {
        None
    } else {
        match (spec_offset32(t, start, q + 3), spec_offset32(t, start, q + 7)) {
            (Some(((doff, dl), _)), Some(((noff, nl), _))) => {
                let d = match dl {
                    None => Some(None),
                    Some(x) => match spec_default_uvs(t, x) {
                        Some(v) => Some(Some(v)),
                        None => None,
                    },
                };
                let n = match nl {
                    None => Some(None),
                    Some(y) => match spec_non_default_uvs(t, y) {
                        Some(v) => Some(Some(v)),
                        None => None,
                    },
                };
                if d is Some && n is Some {
                    Some(SpecVariationSelector {
                        var_selector: u24_at(t, q),
                        default_uvs_offset: Link32 { offset: doff, link: d.unwrap() },
                        non_default_uvs_offset: Link32 { offset: noff, link: n.unwrap() },
                    })
                } else {
                    None
                }
            },
            _ => None,
        }
    }
}

/// Parses the variation-selector record at `q` of `t`.
pub fn variation_selector(t: &[u8], start: usize, q: usize) -> (r: Option<VariationSelector>)
    ensures
        match r {
            Some(v) => spec_variation_selector(t@, start as int, q as int) == Some(v@),
            None => spec_variation_selector(t@, start as int, q as int) is None,
        },
{
    if !has_bytes(t, q, 3) {
        return None;
    }
    let (doff, dl, _) = match offset32(t, start, q + 3) {
        Some(x) => x,
        None => return None,
    };
    let (noff, nl, _) = match offset32(t, start, q + 7) {
        Some(x) => x,
        None => return None,
    };
    let d = match dl {
        None => None,
        Some(x) => match default_uvs(t, x) {
            Some(v) => Some(v),
            None => return None,
        },
    };
    let n = match nl {
        None => None,
        Some(y) => match non_default_uvs(t, y) {
            Some(v) => Some(v),
            None => return None,
        },
    };
    Some(
        VariationSelector {
            var_selector: get_u24be(t, q),
            default_uvs_offset: Link32 { offset: doff, link: d },
            non_default_uvs_offset: Link32 { offset: noff, link: n },
        },
    )
}

/// A format 14 subtable: Unicode variation sequences.
#[derive(Clone, Debug, PartialEq, Eq)]
pub struct CmapFormat14 {
    pub format: u16,
    pub length: u32,
    pub num_var_selector_records: u32,
    pub var_selector: Vec<VariationSelector>,
}

/// Mathematical form of `CmapFormat14`.
pub struct SpecCmapFormat14 {
    pub format: u16,
    pub length: u32,
    pub num_var_selector_records: u32,
    pub var_selector: Seq<SpecVariationSelector>,
}

/// The views of a sequence of variation-selector records.
pub open spec fn selectors_view(v: Seq<VariationSelector>) -> Seq<SpecVariationSelector> {
    v.map_values(|x: VariationSelector| x@)
}

impl View for CmapFormat14 {
    type V = SpecCmapFormat14;

    open spec fn view(&self) -> SpecCmapFormat14 {
        SpecCmapFormat14 {
            format: self.format,
            length: self.length,
            num_var_selector_records: self.num_var_selector_records,
            var_selector: selectors_view(self.var_selector@),
        }
    }
}

/// The `n` eleven-byte variation-selector records at `p + 10` of `t` (`p`
/// being the subtable start), each with the tables it leads to.
pub open spec fn spec_selectors(t: Seq<u8>, p: int, n: int) -> Option<Seq<SpecVariationSelector>> {
    if 0 <= n && avail(t, p + 10, 11 * n) && forall|i: int|
        0 <= i < n ==> #[trigger] spec_variation_selector(t, p, p + 10 + 11 * i) is Some {
        Some(Seq::new(n as nat, |i: int| spec_variation_selector(t, p, p + 10 + 11 * i).unwrap()))
    } else {
        None
    }
}

/// Parses the variation-selector records of a format 14 subtable at `p`.
fn selectors(t: &[u8], p: usize, n: u32) -> (r: Option<Vec<VariationSelector>>)
    ensures
        match r {
            Some(v) => spec_selectors(t@, p as int, n as int) == Some(selectors_view(v@)),
            None => spec_selectors(t@, p as int, n as int) is None,
        },
{
    let _len = t.len();
    if p > usize::MAX - 10 || !fits(t, p + 10, n, 11) {
        return None;
    }
    let mut v: Vec<VariationSelector> = Vec::new();
    let mut i: usize = 0;
    while i < n as usize
        invariant
            0 <= i <= n,
            avail(t@, p + 10, 11 * n),
            t@.len() <= usize::MAX,
            forall|j: int|
                0 <= j < i ==> #[trigger] spec_variation_selector(t@, p as int, p + 10 + 11 * j)
                    is Some,
            selectors_view(v@) =~= Seq::new(
                i as nat,
                |j: int| spec_variation_selector(t@, p as int, p + 10 + 11 * j).unwrap(),
            ),
        decreases n - i,
    {
        let sel = match variation_selector(t, p, p + 10 + 11 * i) {
            Some(x) => x,
            None => {
                assert(spec_variation_selector(t@, p as int, p + 10 + 11 * i) is None);
                return None;
            },
        };
        let ghost old_v = v@;
        v.push(sel);
        assert(selectors_view(v@) =~= selectors_view(old_v).push(sel@));
        i = i + 1;
        assert(selectors_view(v@) =~= Seq::new(
            i as nat,
            |j: int| spec_variation_selector(t@, p as int, p + 10 + 11 * j).unwrap(),
        ));
    }
    Some(v)
}

/// A format 14 subtable at `p`, read within its declared 32-bit length:
/// eleven-byte variation-selector records whose offsets are relative to
/// `p`; every record and the tables it leads to must parse.
pub open spec fn spec_cmap_format14(s: Seq<u8>, p: int) -> Option<(SpecCmapFormat14, int)> {
    if !avail(s, p, 6) || u16_at(s, p) != 14 {
        None
    } else {
        match spec_slice_record(s, p, u32_at(s, p + 2) as int) {
            None => None,
            Some(end) => {
                let t = s.subrange(0, end);
                if !avail(t, p, 10) {
                    None
                } else {
                    let n = u32_at(t, p + 6);
                    match spec_selectors(t, p, n as int) {
                        Some(sels) => Some((SpecCmapFormat14 {
                            format: 14,
                            length: u32_at(t, p + 2),
                            num_var_selector_records: n,
                            var_selector: sels,
                        }, end)),
                        None => None,
                    }
                }
            },
        }
    }
}

/// Parses a format 14 subtable at `p`.
pub fn cmap_format14(s: &[u8], p: usize) -> (r: Option<(CmapFormat14, usize)>)
    ensures
        agrees(r, spec_cmap_format14(s@, p as int)),
{
    if !has_bytes(s, p, 6) || get_u16be(s, p) != 14 {
        return None;
    }
    let length = get_u32be(s, p + 2);
    let end = match slice_record(s, p, length as usize) {
        Some(e) => e,
        None => return None,
    };
    let t = slice_subrange(s, 0, end);
    if !has_bytes(t, p, 10) {
        return None;
    }
    let n = get_u32be(t, p + 6);
    let v = match selectors(t, p, n) {
        Some(v) => v,
        None => return None,
    };
    let f = CmapFormat14 {
        format: 14,
        length: get_u32be(t, p + 2),
        num_var_selector_records: n,
        var_selector: v,
    };
    Some((f, end))
}

/// A `cmap` subtable, by its format.
#[derive(Clone, Debug, PartialEq, Eq)]
pub enum CmapSubtable {
    Format0(CmapFormat0),
    Format2(CmapFormat2),
    Format4(CmapFormat4),
    Format6(CmapFormat6),
    Format8(CmapFormat8),
    Format10(CmapFormat10),
    Format12(CmapGroupsTable),
    Format13(CmapGroupsTable),
    Format14(CmapFormat14),
}

/// Mathematical form of `CmapSubtable`.
pub enum SpecCmapSubtable {
    Format0(SpecCmapFormat0),
    Format2(SpecCmapFormat2),
    Format4(SpecCmapFormat4),
    Format6(SpecCmapFormat6),
    Format8(SpecCmapFormat8),
    Format10(SpecCmapFormat10),
    Format12(SpecCmapGroupsTable),
    Format13(SpecCmapGroupsTable),
    Format14(SpecCmapFormat14),
}

impl View for CmapSubtable {
    type V = SpecCmapSubtable;

    open spec fn view(&self) -> SpecCmapSubtable {
        match self {
            CmapSubtable::Format0(x) => SpecCmapSubtable::Format0(x@),
            CmapSubtable::Format2(x) => SpecCmapSubtable::Format2(x@),
            CmapSubtable::Format4(x) => SpecCmapSubtable::Format4(x@),
            CmapSubtable::Format6(x) => SpecCmapSubtable::Format6(x@),
            CmapSubtable::Format8(x) => SpecCmapSubtable::Format8(x@),
            CmapSubtable::Format10(x) => SpecCmapSubtable::Format10(x@),
            CmapSubtable::Format12(x) => SpecCmapSubtable::Format12(x@),
            CmapSubtable::Format13(x) => SpecCmapSubtable::Format13(x@),
            CmapSubtable::Format14(x) => SpecCmapSubtable::Format14(x@),
        }
    }
}

/// A subtable at `p`: its format is peeked and selects the layout; formats
/// other than 0, 2, 4, 6, 8, 10, 12, 13 and 14 fail.
#[verifier::opaque]
pub open spec fn spec_cmap_subtable(s: Seq<u8>, p: int) -> Option<(SpecCmapSubtable, int)> {
    if !avail(s, p, 2) {
        None
    } else {
        let f = u16_at(s, p);
        if f == 0 {
            match spec_cmap_format0(s, p) {
                Some((x, e)) => Some((SpecCmapSubtable::Format0(x), e)),
                None => None,
            }
        } else if f == 2 {
            match spec_cmap_format2(s, p) {
                Some((x, e)) => Some((SpecCmapSubtable::Format2(x), e)),
                None => None,
            }
        } else if f == 4 {
            match spec_cmap_format4(s, p) {
                Some((x, e)) => Some((SpecCmapSubtable::Format4(x), e)),
                None => None,
            }
        } else if f == 6 {
            match spec_cmap_format6(s, p) {
                Some((x, e)) => Some((SpecCmapSubtable::Format6(x), e)),
                None => None,
            }
        } else if f == 8 {
            match spec_cmap_format8(s, p) {
                Some((x, e)) => Some((SpecCmapSubtable::Format8(x), e)),
                None => None,
            }
        } else if f == 10 {
            match spec_cmap_format10(s, p) {
                Some((x, e)) => Some((SpecCmapSubtable::Format10(x), e)),
                None => None,
            }
        } else if f == 12 {
            match spec_cmap_groups(s, p, 12) {
                Some((x, e)) => Some((SpecCmapSubtable::Format12(x), e)),
                None => None,
            }
        } else if f == 13 {
            match spec_cmap_groups(s, p, 13) {
                Some((x, e)) => Some((SpecCmapSubtable::Format13(x), e)),
                None => None,
            }
        } else if f == 14 {
            match spec_cmap_format14(s, p) {
                Some((x, e)) => Some((SpecCmapSubtable::Format14(x), e)),
                None => None,
            }
        } else {
            None
        }
    }
}

/// A subtable read within its declared length ends exactly that many bytes
/// after its start, whatever its fields take; a format 6 subtable, which is
/// not cut to its length, ends after its glyph ids.
pub proof fn lemma_subtable_extent(s: Seq<u8>, p: int)
    ensures
        spec_cmap_format0(s, p) matches Some((_, e)) ==> e == p + u16_at(s, p + 2),
        spec_cmap_format2(s, p) matches Some((_, e)) ==> e == p + u16_at(s, p + 2),
        spec_cmap_format4(s, p) matches Some((_, e)) ==> e == p + u16_at(s, p + 2),
        spec_cmap_format6(s, p) matches Some((v, e)) ==> e == p + 10 + 2 * v.entry_count
            && v.glyph_id_array.len() == v.entry_count,
        spec_cmap_format8(s, p) matches Some((_, e)) ==> e == p + u32_at(s, p + 4),
        spec_cmap_format10(s, p) matches Some((_, e)) ==> e == p + u32_at(s, p + 4),
        spec_cmap_groups(s, p, 12) matches Some((_, e)) ==> e == p + u32_at(s, p + 4),
        spec_cmap_groups(s, p, 13) matches Some((_, e)) ==> e == p + u32_at(s, p + 4),
        spec_cmap_format14(s, p) matches Some((_, e)) ==> e == p + u32_at(s, p + 2),
{
}

/// In a format 4 subtable every per-segment array has one entry per
/// segment.
pub proof fn lemma_format4_segments(s: Seq<u8>, p: int)
    ensures
        spec_cmap_format4(s, p) matches Some((v, _)) ==> {
            &&& v.end_code.len() == v.seg_count
            &&& v.start_code.len() == v.seg_count
            &&& v.id_delta.len() == v.seg_count
            &&& v.id_range_offset.len() == v.seg_count
        },
{
}

/// In a format 2 subtable there is one sub-header more than the largest
/// key divided by 8, so every key's sub-header exists.
pub proof fn lemma_format2_keys_reach_subheaders(s: Seq<u8>, p: int)
    ensures
        spec_cmap_format2(s, p) matches Some((v, _)) ==> forall|i: int|
            0 <= i < v.sub_header_keys.len() ==> #[trigger] v.sub_header_keys[i] / 8
                < v.sub_headers.len(),
{
    if let Some((v, _)) = spec_cmap_format2(s, p) {
        crate::opentype::values::lemma_max_div8_is_max(v.sub_header_keys);
    }
}

/// Parses a subtable at `p`.
pub fn cmap_subtable(s: &[u8], p: usize) -> (r: Option<(CmapSubtable, usize)>)
    ensures
        agrees(r, spec_cmap_subtable(s@, p as int)),
{
    reveal(spec_cmap_subtable);
    if !has_bytes(s, p, 2) {
        return None;
    }
    let f = get_u16be(s, p);
    if f == 0 {
        match cmap_format0(s, p) {
            Some((x, e)) => Some((CmapSubtable::Format0(x), e)),
            None => None,
        }
    } else if f == 2 {
        match cmap_format2(s, p) {
            Some((x, e)) => Some((CmapSubtable::Format2(x), e)),
            None => None,
        }
    } else if f == 4 {
        match cmap_format4(s, p) {
            Some((x, e)) => Some((CmapSubtable::Format4(x), e)),
            None => None,
        }
    } else if f == 6 {
        match cmap_format6(s, p) {
            Some((x, e)) => Some((CmapSubtable::Format6(x), e)),
            None => None,
        }
    } else if f == 8 {
        match cmap_format8(s, p) {
            Some((x, e)) => Some((CmapSubtable::Format8(x), e)),
            None => None,
        }
    } else if f == 10 {
        match cmap_format10(s, p) {
            Some((x, e)) => Some((CmapSubtable::Format10(x), e)),
            None => None,
        }
    } else if f == 12 {
        match cmap_groups(s, p, 12) {
            Some((x, e)) => Some((CmapSubtable::Format12(x), e)),
            None => None,
        }
    } else if f == 13 {
        match cmap_groups(s, p, 13) {
            Some((x, e)) => Some((CmapSubtable::Format13(x), e)),
            None => None,
        }
    } else if f == 14 {
        match cmap_format14(s, p) {
            Some((x, e)) => Some((CmapSubtable::Format14(x), e)),
            None => None,
        }
    } else {
        None
    }
}

/// An encoding record: platform, encoding and the subtable it leads to.
#[derive(Clone, Debug, PartialEq, Eq)]
pub struct EncodingRecord {
    pub platform: u16,
    pub encoding: u16,
    pub subtable_offset: Link32<CmapSubtable>,
}

/// Mathematical form of `EncodingRecord`.
pub struct SpecEncodingRecord {
    pub platform: u16,
    pub encoding: u16,
    pub subtable_offset: Link32<SpecCmapSubtable>,
}

impl View for EncodingRecord {
    type V = SpecEncodingRecord;

    open spec fn view(&self) -> SpecEncodingRecord {
        SpecEncodingRecord {
            platform: self.platform,
            encoding: self.encoding,
            subtable_offset: self.subtable_offset@,
        }
    }
}

/// The encoding record at `q` of the `cmap` table `t`: its subtable offset
/// is relative to the start of `t`.
pub open spec fn spec_encoding_record(t: Seq<u8>, q: int) -> Option<SpecEncodingRecord> {
    if !avail(t, q, 4) {
        None
    } else {
        match spec_offset32(t, 0, q + 4) {
            None => None,
            Some(((off, None), _)) => Some(SpecEncodingRecord {
                platform: u16_at(t, q),
                encoding: u16_at(t, q + 2),
                subtable_offset: Link32 { offset: off, link: None },
            }),
            Some(((off, Some(x)), _)) => match spec_cmap_subtable(t, x) {
                Some((st, _)) => Some(SpecEncodingRecord {
                    platform: u16_at(t, q),
                    encoding: u16_at(t, q + 2),
                    subtable_offset: Link32 { offset: off, link: Some(st) },
                }),
                None => None,
            },
        }
    }
}

/// Parses the encoding record at `q` of the `cmap` table `t`.
pub fn encoding_record(t: &[u8], q: usize) -> (r: Option<EncodingRecord>)
    ensures
        match r {
            Some(v) => spec_encoding_record(t@, q as int) == Some(v@),
            None => spec_encoding_record(t@, q as int) is None,
        },
{
    if !has_bytes(t, q, 4) {
        return None;
    }
    let (off, link, _) = match offset32(t, 0, q + 4) {
        Some(x) => x,
        None => return None,
    };
    let sub = match link {
        None => None,
        Some(x) => match cmap_subtable(t, x) {
            Some((st, _)) => Some(st),
            None => return None,
        },
    };
    Some(
        EncodingRecord {
            platform: get_u16be(t, q),
            encoding: get_u16be(t, q + 2),
            subtable_offset: Link32 { offset: off, link: sub },
        },
    )
}

/// The `cmap` table.
#[derive(Clone, Debug, PartialEq, Eq)]
pub struct CmapTable {
    pub version: u16,
    pub num_tables: u16,
    pub encoding_records: Vec<EncodingRecord>,
}

/// Mathematical form of `CmapTable`.
pub struct SpecCmapTable {
    pub version: u16,
    pub num_tables: u16,
    pub encoding_records: Seq<SpecEncodingRecord>,
}

/// The views of a sequence of encoding records.
pub open spec fn records_view(v: Seq<EncodingRecord>) -> Seq<SpecEncodingRecord> {
    v.map_values(|x: EncodingRecord| x@)
}

impl View for CmapTable {
    type V = SpecCmapTable;

    open spec fn view(&self) -> SpecCmapTable {
        SpecCmapTable {
            version: self.version,
            num_tables: self.num_tables,
            encoding_records: records_view(self.encoding_records@),
        }
    }
}

/// The `cmap` table held in `t`: a version, a count, then that many
/// eight-byte encoding records, each with the subtable it leads to.
pub open spec fn spec_cmap_table(t: Seq<u8>) -> Option<(SpecCmapTable, int)> {
    if !avail(t, 0, 4) {
        None
    } else {
        let n = u16_at(t, 2);
        if avail(t, 4, 8 * n) && forall|i: int|
            0 <= i < n ==> #[trigger] spec_encoding_record(t, 4 + 8 * i) is Some {
            Some((SpecCmapTable {
                version: u16_at(t, 0),
                num_tables: n,
                encoding_records: Seq::new(
                    n as nat,
                    |i: int| spec_encoding_record(t, 4 + 8 * i).unwrap(),
                ),
            }, 4 + 8 * n))
        } else {
            None
        }
    }
}

/// Parses the `cmap` table held in `t`.
pub fn cmap_table(t: &[u8]) -> (r: Option<(CmapTable, usize)>)
    ensures
        agrees(r, spec_cmap_table(t@)),
{
    if !has_bytes(t, 0, 4) {
        return None;
    }
    let n = get_u16be(t, 2);
    if !has_bytes(t, 4, 8 * (n as usize)) {
        return None;
    }
    let mut v: Vec<EncodingRecord> = Vec::new();
    let mut i: usize = 0;
    while i < n as usize
        invariant
            0 <= i <= n,
            avail(t@, 0, 4),
            n == u16_at(t@, 2),
            avail(t@, 4, 8 * n),
            t@.len() <= usize::MAX,
            forall|j: int| 0 <= j < i ==> #[trigger] spec_encoding_record(t@, 4 + 8 * j) is Some,
            records_view(v@) =~= Seq::new(
                i as nat,
                |j: int| spec_encoding_record(t@, 4 + 8 * j).unwrap(),
            ),
        decreases n - i,
    {
        let rec = match encoding_record(t, 4 + 8 * i) {
            Some(x) => x,
            None => {
                assert(spec_encoding_record(t@, 4 + 8 * i) is None);
                return None;
            },
        };
        let ghost old_v = v@;
        v.push(rec);
        assert(records_view(v@) =~= records_view(old_v).push(rec@));
        i = i + 1;
        assert(records_view(v@) =~= Seq::new(
            i as nat,
            |j: int| spec_encoding_record(t@, 4 + 8 * j).unwrap(),
        ));
    }
    let table = CmapTable { version: get_u16be(t, 0), num_tables: n, encoding_records: v };
    Some((table, 4 + 8 * (n as usize)))
}


/// In a format 4 subtable every segment array is read from its own place:
/// with `n` the segment count (half the stored value at 6), the end codes
/// start at 14, a zero pad word follows them, and then come the start codes,
/// the deltas and the range offsets, `2 * n` bytes each; entry `i` of each
/// is the word at its start plus `2 * i`.
pub proof fn lemma_format4_layout(s: Seq<u8>, p: int)
    ensures
        spec_cmap_format4(s, p) matches Some((v, end)) ==> {
            let n = v.seg_count as int;
            &&& v.format == 4 && crate::bytes::word_at(s, p) == 4
            &&& v.length == crate::bytes::word_at(s, p + 2) && end == p + v.length
            &&& v.language == crate::bytes::word_at(s, p + 4)
            &&& n == crate::bytes::word_at(s, p + 6) / 2
            &&& v.search_range == crate::bytes::word_at(s, p + 8)
            &&& v.entry_selector == crate::bytes::word_at(s, p + 10)
            &&& v.range_shift == crate::bytes::word_at(s, p + 12)
            &&& crate::bytes::word_at(s, p + 14 + 2 * n) == 0
            &&& v.glyph_array.len() == (end - (p + 16 + 8 * n)) / 2
            &&& forall|j: int|
                0 <= j < v.glyph_array.len() ==> #[trigger] v.glyph_array[j] == crate::bytes::word_at(
                    s,
                    p + 16 + 8 * n + 2 * j,
                )
            &&& forall|i: int|
                0 <= i < n ==> {
                    &&& #[trigger] v.end_code[i] == crate::bytes::word_at(s, p + 14 + 2 * i)
                    &&& v.start_code[i] == crate::bytes::word_at(s, p + 16 + 2 * n + 2 * i)
                    &&& v.id_delta[i] == crate::bytes::word_at(s, p + 16 + 4 * n + 2 * i)
                    &&& v.id_range_offset[i] == crate::bytes::word_at(s, p + 16 + 6 * n + 2 * i)
                }
        },
{
    if let Some((v, end)) = spec_cmap_format4(s, p) {
        let t = s.subrange(0, end);
        let n = v.seg_count as int;
        crate::bytes::lemma_readers_spell(t, p + 6);
        crate::bytes::lemma_readers_spell(t, p + 14 + 2 * n);
        crate::bytes::lemma_readers_spell(s, p);
        crate::bytes::lemma_readers_spell(s, p + 2);
        crate::bytes::lemma_readers_spell(t, p + 4);
        crate::bytes::lemma_readers_spell(t, p + 8);
        crate::bytes::lemma_readers_spell(t, p + 10);
        crate::bytes::lemma_readers_spell(t, p + 12);
        assert forall|j: int| 0 <= j < v.glyph_array.len() implies #[trigger] v.glyph_array[j]
            == crate::bytes::word_at(s, p + 16 + 8 * n + 2 * j) by {
            crate::bytes::lemma_readers_spell(t, p + 16 + 8 * n + 2 * j);
        }
        assert forall|i: int| 0 <= i < n implies {
            &&& #[trigger] v.end_code[i] == crate::bytes::word_at(s, p + 14 + 2 * i)
            &&& v.start_code[i] == crate::bytes::word_at(s, p + 16 + 2 * n + 2 * i)
            &&& v.id_delta[i] == crate::bytes::word_at(s, p + 16 + 4 * n + 2 * i)
            &&& v.id_range_offset[i] == crate::bytes::word_at(s, p + 16 + 6 * n + 2 * i)
        } by {
            crate::bytes::lemma_readers_spell(t, p + 14 + 2 * i);
            crate::bytes::lemma_readers_spell(t, p + 16 + 2 * n + 2 * i);
            crate::bytes::lemma_readers_spell(t, p + 16 + 4 * n + 2 * i);
            crate::bytes::lemma_readers_spell(t, p + 16 + 6 * n + 2 * i);
        }
    }
}


/// A subtable is read by the format that its first word names: formats 0,
/// 2, 4, 6, 8, 10, 12, 13 and 14, and no other.
pub proof fn lemma_subtable_format(s: Seq<u8>, p: int)
    ensures
        spec_cmap_subtable(s, p) matches Some((st, _)) ==> {
            let f = crate::bytes::word_at(s, p);
            &&& (st is Format0 <==> f == 0)
            &&& (st is Format2 <==> f == 2)
            &&& (st is Format4 <==> f == 4)
            &&& (st is Format6 <==> f == 6)
            &&& (st is Format8 <==> f == 8)
            &&& (st is Format10 <==> f == 10)
            &&& (st is Format12 <==> f == 12)
            &&& (st is Format13 <==> f == 13)
            &&& (st is Format14 <==> f == 14)
        },
{
    reveal(spec_cmap_subtable);
    if let Some(_) = spec_cmap_subtable(s, p) {
        crate::bytes::lemma_readers_spell(s, p);
    }
}

/// The `cmap` header gives its version and table count as the words at 0
/// and 2; encoding record `i` holds the platform and encoding words at
/// `4 + 8 * i` and `6 + 8 * i` and the subtable offset, the double word at
/// `8 + 8 * i`.
pub proof fn lemma_cmap_records(t: Seq<u8>)
    ensures
        spec_cmap_table(t) matches Some((c, e)) ==> {
            &&& c.version == crate::bytes::word_at(t, 0)
            &&& c.num_tables == crate::bytes::word_at(t, 2)
            &&& e == 4 + 8 * c.num_tables
            &&& c.encoding_records.len() == c.num_tables
            &&& forall|i: int|
                0 <= i < c.num_tables ==> {
                    &&& (#[trigger] c.encoding_records[i]).platform == crate::bytes::word_at(t, 4 + 8 * i)
                    &&& c.encoding_records[i].encoding == crate::bytes::word_at(t, 6 + 8 * i)
                    &&& c.encoding_records[i].subtable_offset.offset == crate::bytes::dword_at(t, 8 + 8 * i)
                }
        },
{
    if let Some((c, e)) = spec_cmap_table(t) {
        crate::bytes::lemma_readers_spell(t, 0);
        crate::bytes::lemma_readers_spell(t, 2);
        assert forall|i: int| 0 <= i < c.num_tables implies {
            &&& (#[trigger] c.encoding_records[i]).platform == crate::bytes::word_at(t, 4 + 8 * i)
            &&& c.encoding_records[i].encoding == crate::bytes::word_at(t, 6 + 8 * i)
            &&& c.encoding_records[i].subtable_offset.offset == crate::bytes::dword_at(t, 8 + 8 * i)
        } by {
            assert(spec_encoding_record(t, 4 + 8 * i) is Some);
            crate::bytes::lemma_readers_spell(t, 4 + 8 * i);
            crate::bytes::lemma_readers_spell(t, 6 + 8 * i);
            crate::bytes::lemma_dword_spells(t, 8 + 8 * i);
        }
    }
}

/// A format 0 subtable: the format, length and language words at `p`,
/// `p + 2` and `p + 4`, then 256 glyph ids, one byte each.
pub proof fn lemma_format0_fields(s: Seq<u8>, p: int)
    ensures
        spec_cmap_format0(s, p) matches Some((v, e)) ==> {
            &&& v.format == crate::bytes::word_at(s, p)
            &&& v.length == crate::bytes::word_at(s, p + 2)
            &&& v.language == crate::bytes::word_at(s, p + 4)
            &&& v.glyph_id_array == s.subrange(p + 6, p + 262)
            &&& e == p + crate::bytes::word_at(s, p + 2)
        },
{
    if let Some(_) = spec_cmap_format0(s, p) {
        crate::bytes::lemma_readers_spell(s, p);
        crate::bytes::lemma_readers_spell(s, p + 2);
        crate::bytes::lemma_readers_spell(s, p + 4);
    }
}

/// A format 2 subtable: 256 key words from `p + 6`, then sub-headers of
/// four words each from `p + 518` (first code, entry count, signed delta,
/// range offset), one more than the largest key divided by 8.
pub proof fn lemma_format2_fields(s: Seq<u8>, p: int)
    ensures
        spec_cmap_format2(s, p) matches Some((v, _)) ==> {
            &&& v.length == crate::bytes::word_at(s, p + 2)
            &&& v.language == crate::bytes::word_at(s, p + 4)
            &&& v.sub_header_keys.len() == 256
            &&& (forall|i: int| 0 <= i < 256 ==> #[trigger] v.sub_header_keys[i] == crate::bytes::word_at(s, p + 6 + 2 * i))
            &&& forall|j: int|
                0 <= j < v.sub_headers.len() ==> {
                    let h = #[trigger] v.sub_headers[j];
                    let q = p + 518 + 8 * j;
                    &&& h.first_code == crate::bytes::word_at(s, q)
                    &&& h.entry_count == crate::bytes::word_at(s, q + 2)
                    &&& h.id_delta == crate::bytes::signed_word_at(s, q + 4)
                    &&& h.id_range_offset == crate::bytes::word_at(s, q + 6)
                }
        },
{
    if let Some((v, end)) = spec_cmap_format2(s, p) {
        let t = s.subrange(0, end);
        crate::bytes::lemma_readers_spell(t, p + 2);
        crate::bytes::lemma_readers_spell(t, p + 4);
        assert forall|i: int| 0 <= i < 256 implies #[trigger] v.sub_header_keys[i] == crate::bytes::word_at(s, p + 6 + 2 * i) by {
            crate::bytes::lemma_readers_spell(t, p + 6 + 2 * i);
        }
        assert forall|j: int| 0 <= j < v.sub_headers.len() implies {
            let h = #[trigger] v.sub_headers[j];
            let q = p + 518 + 8 * j;
            &&& h.first_code == crate::bytes::word_at(s, q)
            &&& h.entry_count == crate::bytes::word_at(s, q + 2)
            &&& h.id_delta == crate::bytes::signed_word_at(s, q + 4)
            &&& h.id_range_offset == crate::bytes::word_at(s, q + 6)
        } by {
            let q = p + 518 + 8 * j;
            crate::bytes::lemma_readers_spell(t, q);
            crate::bytes::lemma_readers_spell(t, q + 2);
            crate::bytes::lemma_readers_spell(t, q + 4);
            crate::bytes::lemma_readers_spell(t, q + 6);
        }
    }
}

/// A format 6 subtable: length, language, first code and entry count words
/// at `p + 2` to `p + 8`, then one glyph id word per entry.
pub proof fn lemma_format6_fields(s: Seq<u8>, p: int)
    ensures
        spec_cmap_format6(s, p) matches Some((v, e)) ==> {
            &&& v.length == crate::bytes::word_at(s, p + 2)
            &&& v.language == crate::bytes::word_at(s, p + 4)
            &&& v.first_code == crate::bytes::word_at(s, p + 6)
            &&& v.entry_count == crate::bytes::word_at(s, p + 8)
            &&& e == p + 10 + 2 * v.entry_count
            &&& v.glyph_id_array.len() == v.entry_count
            &&& forall|i: int| 0 <= i < v.entry_count ==> #[trigger] v.glyph_id_array[i] == crate::bytes::word_at(s, p + 10 + 2 * i)
        },
{
    if let Some((v, e)) = spec_cmap_format6(s, p) {
        crate::bytes::lemma_readers_spell(s, p + 2);
        crate::bytes::lemma_readers_spell(s, p + 4);
        crate::bytes::lemma_readers_spell(s, p + 6);
        crate::bytes::lemma_readers_spell(s, p + 8);
        assert forall|i: int| 0 <= i < v.entry_count implies #[trigger] v.glyph_id_array[i] == crate::bytes::word_at(s, p + 10 + 2 * i) by {
            crate::bytes::lemma_readers_spell(s, p + 10 + 2 * i);
        }
    }
}

/// Segmented and many-to-one coverage (formats 12 and 13): the length,
/// language and group count double words at `p + 4`, `p + 8` and `p + 12`,
/// then groups of three double words (start code, end code, start glyph)
/// from `p + 16`; format 10 likewise gives its start code and count at
/// `p + 12` and `p + 16`, then glyph id words from `p + 20`.
pub proof fn lemma_groups_fields(s: Seq<u8>, p: int, format: u16)
    ensures
        spec_cmap_groups(s, p, format) matches Some((v, _)) ==> {
            &&& v.length == crate::bytes::dword_at(s, p + 4)
            &&& v.language == crate::bytes::dword_at(s, p + 8)
            &&& v.num_groups == crate::bytes::dword_at(s, p + 12)
            &&& v.groups.len() == v.num_groups
            &&& forall|i: int|
                0 <= i < v.num_groups ==> {
                    &&& (#[trigger] v.groups[i]).start_char_code == crate::bytes::dword_at(s, p + 16 + 12 * i)
                    &&& v.groups[i].end_char_code == crate::bytes::dword_at(s, p + 20 + 12 * i)
                    &&& v.groups[i].start_glyph_id == crate::bytes::dword_at(s, p + 24 + 12 * i)
                }
        },
        spec_cmap_format10(s, p) matches Some((v, _)) ==> {
            &&& v.length == crate::bytes::dword_at(s, p + 4)
            &&& v.language == crate::bytes::dword_at(s, p + 8)
            &&& v.start_char_code == crate::bytes::dword_at(s, p + 12)
            &&& v.num_chars == crate::bytes::dword_at(s, p + 16)
            &&& v.glyph_id_array.len() == v.num_chars
            &&& forall|i: int| 0 <= i < v.num_chars ==> #[trigger] v.glyph_id_array[i] == crate::bytes::word_at(s, p + 20 + 2 * i)
        },
{
    if let Some((v, _)) = spec_cmap_groups(s, p, format) {
        let end = p + u32_at(s, p + 4);
        let t = s.subrange(0, end);
        crate::bytes::lemma_dword_spells(t, p + 4);
        crate::bytes::lemma_dword_spells(t, p + 8);
        crate::bytes::lemma_dword_spells(t, p + 12);
        assert forall|i: int| 0 <= i < v.num_groups implies {
            &&& (#[trigger] v.groups[i]).start_char_code == crate::bytes::dword_at(s, p + 16 + 12 * i)
            &&& v.groups[i].end_char_code == crate::bytes::dword_at(s, p + 20 + 12 * i)
            &&& v.groups[i].start_glyph_id == crate::bytes::dword_at(s, p + 24 + 12 * i)
        } by {
            crate::bytes::lemma_dword_spells(t, p + 16 + 12 * i);
            crate::bytes::lemma_dword_spells(t, p + 20 + 12 * i);
            crate::bytes::lemma_dword_spells(t, p + 24 + 12 * i);
        }
    }
    if let Some((v, _)) = spec_cmap_format10(s, p) {
        let end = p + u32_at(s, p + 4);
        let t = s.subrange(0, end);
        crate::bytes::lemma_dword_spells(t, p + 4);
        crate::bytes::lemma_dword_spells(t, p + 8);
        crate::bytes::lemma_dword_spells(t, p + 12);
        crate::bytes::lemma_dword_spells(t, p + 16);
        assert forall|i: int| 0 <= i < v.num_chars implies #[trigger] v.glyph_id_array[i] == crate::bytes::word_at(s, p + 20 + 2 * i) by {
            crate::bytes::lemma_readers_spell(t, p + 20 + 2 * i);
        }
    }
}


/// A format 8 subtable: the format word 8 and a zero word at `p` and
/// `p + 2`, the length and language double words at `p + 4` and `p + 8`,
/// the 8192 bytes of the `is32` array from `p + 12`, the group count double
/// word at `p + 8204`, then groups of three double words (start code, end
/// code, start glyph) from `p + 8208`.
pub proof fn lemma_format8_fields(s: Seq<u8>, p: int)
    ensures
        spec_cmap_format8(s, p) matches Some((v, end)) ==> {
            &&& crate::bytes::word_at(s, p) == 8 && crate::bytes::word_at(s, p + 2) == 0
            &&& v.length == crate::bytes::dword_at(s, p + 4) && end == p + v.length
            &&& v.language == crate::bytes::dword_at(s, p + 8)
            &&& v.is32 == s.subrange(p + 12, p + 8204)
            &&& v.num_groups == crate::bytes::dword_at(s, p + 8204)
            &&& v.groups.len() == v.num_groups
            &&& forall|i: int|
                0 <= i < v.num_groups ==> {
                    &&& (#[trigger] v.groups[i]).start_char_code == crate::bytes::dword_at(s, p + 8208 + 12 * i)
                    &&& v.groups[i].end_char_code == crate::bytes::dword_at(s, p + 8212 + 12 * i)
                    &&& v.groups[i].start_glyph_id == crate::bytes::dword_at(s, p + 8216 + 12 * i)
                }
        },
{
    if let Some((v, end)) = spec_cmap_format8(s, p) {
        let t = s.subrange(0, end);
        crate::bytes::lemma_readers_spell(s, p);
        crate::bytes::lemma_readers_spell(s, p + 2);
        crate::bytes::lemma_dword_spells(s, p + 4);
        crate::bytes::lemma_dword_spells(t, p + 8);
        crate::bytes::lemma_dword_spells(t, p + 8204);
        assert(v.is32 =~= s.subrange(p + 12, p + 8204));
        assert forall|i: int| 0 <= i < v.num_groups implies {
            &&& (#[trigger] v.groups[i]).start_char_code == crate::bytes::dword_at(s, p + 8208 + 12 * i)
            &&& v.groups[i].end_char_code == crate::bytes::dword_at(s, p + 8212 + 12 * i)
            &&& v.groups[i].start_glyph_id == crate::bytes::dword_at(s, p + 8216 + 12 * i)
        } by {
            crate::bytes::lemma_dword_spells(t, p + 8208 + 12 * i);
            crate::bytes::lemma_dword_spells(t, p + 8212 + 12 * i);
            crate::bytes::lemma_dword_spells(t, p + 8216 + 12 * i);
        }
    }
}

/// Unicode variation sequences: a variation-selector record at `q` holds
/// the 24-bit selector, then the default and non-default table offsets as
/// double words at `q + 3` and `q + 7`. A default table holds a count double
/// word and four-byte ranges (24-bit start, then the additional count byte);
/// a non-default table a count and five-byte mappings (24-bit code, then the
/// glyph word).
pub proof fn lemma_uvs_fields(t: Seq<u8>, start: int, q: int, x: int)
    ensures
        spec_variation_selector(t, start, q) matches Some(v) ==> {
            &&& v.var_selector == crate::bytes::triple_at(t, q)
            &&& v.default_uvs_offset.offset == crate::bytes::dword_at(t, q + 3)
            &&& v.non_default_uvs_offset.offset == crate::bytes::dword_at(t, q + 7)
        },
        spec_default_uvs(t, x) matches Some(d) ==> {
            &&& d.num_unicode_value_ranges == crate::bytes::dword_at(t, x)
            &&& d.ranges.len() == d.num_unicode_value_ranges
            &&& forall|i: int|
                0 <= i < d.ranges.len() ==> {
                    &&& (#[trigger] d.ranges[i]).start_unicode_value == crate::bytes::triple_at(t, x + 4 + 4 * i)
                    &&& d.ranges[i].additional_count == t[x + 7 + 4 * i]
                }
        },
        spec_non_default_uvs(t, x) matches Some(d) ==> {
            &&& d.num_uvs_mappings == crate::bytes::dword_at(t, x)
            &&& d.uvs_mappings.len() == d.num_uvs_mappings
            &&& forall|i: int|
                0 <= i < d.uvs_mappings.len() ==> {
                    &&& (#[trigger] d.uvs_mappings[i]).unicode_value == crate::bytes::triple_at(t, x + 4 + 5 * i)
                    &&& d.uvs_mappings[i].glyph_id == crate::bytes::word_at(t, x + 7 + 5 * i)
                }
        },
{
    if let Some(v) = spec_variation_selector(t, start, q) {
        crate::bytes::lemma_triple_spells(t, q);
        crate::bytes::lemma_dword_spells(t, q + 3);
        crate::bytes::lemma_dword_spells(t, q + 7);
    }
    if let Some(d) = spec_default_uvs(t, x) {
        crate::bytes::lemma_dword_spells(t, x);
        assert forall|i: int| 0 <= i < d.ranges.len() implies {
            &&& (#[trigger] d.ranges[i]).start_unicode_value == crate::bytes::triple_at(t, x + 4 + 4 * i)
            &&& d.ranges[i].additional_count == t[x + 7 + 4 * i]
        } by {
            crate::bytes::lemma_triple_spells(t, x + 4 + 4 * i);
        }
    }
    if let Some(d) = spec_non_default_uvs(t, x) {
        crate::bytes::lemma_dword_spells(t, x);
        assert forall|i: int| 0 <= i < d.uvs_mappings.len() implies {
            &&& (#[trigger] d.uvs_mappings[i]).unicode_value == crate::bytes::triple_at(t, x + 4 + 5 * i)
            &&& d.uvs_mappings[i].glyph_id == crate::bytes::word_at(t, x + 7 + 5 * i)
        } by {
            crate::bytes::lemma_triple_spells(t, x + 4 + 5 * i);
            crate::bytes::lemma_readers_spell(t, x + 7 + 5 * i);
        }
    }
}

} // verus!
