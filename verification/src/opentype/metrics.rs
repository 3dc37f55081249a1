//! The font header (`head`), the horizontal or vertical header (`hhea`,
//! `vhea`), the maximum profile (`maxp`) and the horizontal or vertical
//! metrics (`hmtx`, `vmtx`). Positions are relative to the table's start.
use vstd::prelude::*;
use crate::bytes::{
    agrees, as_i16, as_i64, avail, get_u16be, get_u32be, get_u64be, get_u8, has_bytes, to_i16,
    to_i64, u16_at, u32_at, u64_at,
};
use crate::opentype::values::Fixed32;

verus! {

/// The style bits of `mac_style`; the nine high bits are reserved and not
/// checked.
#[derive(Clone, Copy, Debug, PartialEq, Eq)]
pub struct MacStyle {
    pub extended: bool,
    pub condensed: bool,
    pub shadow: bool,
    pub outline: bool,
    pub underline: bool,
    pub italic: bool,
    pub bold: bool,
}

/// The font header.
#[derive(Clone, Copy, Debug, PartialEq, Eq)]
pub struct HeadTable {
    pub major_version: u16,
    pub minor_version: u16,
    pub font_revision: Fixed32,
    pub checksum_adjustment: u32,
    pub flags: u16,
    pub units_per_em: u16,
    pub created: i64,
    pub modified: i64,
    pub x_min: i16,
    pub y_min: i16,
    pub x_max: i16,
    pub y_max: i16,
    pub mac_style: MacStyle,
    pub lowest_rec_ppem: u16,
    pub font_direction_hint: i16,
    pub index_to_loc_format: u16,
    pub glyph_data_format: u16,
}

impl View for HeadTable {
    type V = HeadTable;

    open spec fn view(&self) -> HeadTable {
        *self
    }
}

/// The style bits of a `mac_style` value, bit 6 down to bit 0.
pub open spec fn mac_style(raw: u16) -> MacStyle {
    MacStyle {
        extended: (raw / 64) % 2 == 1,
        condensed: (raw / 32) % 2 == 1,
        shadow: (raw / 16) % 2 == 1,
        outline: (raw / 8) % 2 == 1,
        underline: (raw / 4) % 2 == 1,
        italic: (raw / 2) % 2 == 1,
        bold: raw % 2 == 1,
    }
}

/// The 54-byte `head` table at the start of `t`: version 1.0, the magic
/// number `5f 0f 3c f5`, units per em within `16..=16384`, a location
/// format of 0 (short) or 1 (long) and glyph data format 0.
pub open spec fn spec_head_table(t: Seq<u8>) -> Option<(HeadTable, int)> {
    if avail(t, 0, 54) && u16_at(t, 0) == 1 && u16_at(t, 2) == 0 && t[12] == 0x5f && t[13]
        == 0x0f && t[14] == 0x3c && t[15] == 0xf5 && 16 <= u16_at(t, 18) <= 16384 && u16_at(t, 50)
        <= 1 && u16_at(t, 52) == 0 {
        Some((HeadTable {
            major_version: 1,
            minor_version: 0,
            font_revision: Fixed32(u32_at(t, 4)),
            checksum_adjustment: u32_at(t, 8),
            flags: u16_at(t, 16),
            units_per_em: u16_at(t, 18),
            created: to_i64(u64_at(t, 20)),
            modified: to_i64(u64_at(t, 28)),
            x_min: to_i16(u16_at(t, 36)),
            y_min: to_i16(u16_at(t, 38)),
            x_max: to_i16(u16_at(t, 40)),
            y_max: to_i16(u16_at(t, 42)),
            mac_style: mac_style(u16_at(t, 44)),
            lowest_rec_ppem: u16_at(t, 46),
            font_direction_hint: to_i16(u16_at(t, 48)),
            index_to_loc_format: u16_at(t, 50),
            glyph_data_format: 0,
        }, 54))
    } else {
        None
    }
}

/// Parses the `head` table held in `t`.
pub fn head_table(t: &[u8]) -> (r: Option<(HeadTable, usize)>)
    ensures
        agrees(r, spec_head_table(t@)),
{
    if !has_bytes(t, 0, 54) {
        return None;
    }
    let upem = get_u16be(t, 18);
    let loc = get_u16be(t, 50);
    if get_u16be(t, 0) != 1 || get_u16be(t, 2) != 0 || get_u8(t, 12) != 0x5f || get_u8(t, 13)
        != 0x0f || get_u8(t, 14) != 0x3c || get_u8(t, 15) != 0xf5 || upem < 16 || upem > 16384
        || loc > 1 || get_u16be(t, 52) != 0 {
        return None;
    }
    let style = get_u16be(t, 44);
    let head = HeadTable {
        major_version: 1,
        minor_version: 0,
        font_revision: Fixed32(get_u32be(t, 4)),
        checksum_adjustment: get_u32be(t, 8),
        flags: get_u16be(t, 16),
        units_per_em: upem,
        created: as_i64(get_u64be(t, 20)),
        modified: as_i64(get_u64be(t, 28)),
        x_min: as_i16(get_u16be(t, 36)),
        y_min: as_i16(get_u16be(t, 38)),
        x_max: as_i16(get_u16be(t, 40)),
        y_max: as_i16(get_u16be(t, 42)),
        mac_style: MacStyle {
            extended: (style / 64) % 2 == 1,
            condensed: (style / 32) % 2 == 1,
            shadow: (style / 16) % 2 == 1,
            outline: (style / 8) % 2 == 1,
            underline: (style / 4) % 2 == 1,
            italic: (style / 2) % 2 == 1,
            bold: style % 2 == 1,
        },
        lowest_rec_ppem: get_u16be(t, 46),
        font_direction_hint: as_i16(get_u16be(t, 48)),
        index_to_loc_format: loc,
        glyph_data_format: 0,
    };
    Some((head, 54))
}

/// The horizontal (or, read from `vhea`, vertical) header.
#[derive(Clone, Copy, Debug, PartialEq, Eq)]
pub struct HheaTable {
    pub major_version: u16,
    pub minor_version: u16,
    pub ascent: i16,
    pub descent: i16,
    pub line_gap: i16,
    pub advance_width_max: u16,
    pub min_left_side_bearing: i16,
    pub min_right_side_bearing: i16,
    pub x_max_extent: i16,
    pub caret_slope_rise: i16,
    pub caret_slope_run: i16,
    pub caret_offset: i16,
    pub metric_data_format: u16,
    pub number_of_long_metrics: u16,
}

impl View for HheaTable {
    type V = HheaTable;

    open spec fn view(&self) -> HheaTable {
        *self
    }
}

/// The 36-byte `hhea`/`vhea` table at the start of `t`: major version 1,
/// minor version `0x0000` or `0x1000` (the encoding of `vhea` 1.1), four
/// reserved zero words and metric data format 0.
pub open spec fn spec_hhea_table(t: Seq<u8>) -> Option<(HheaTable, int)> {
    if avail(t, 0, 36) && u16_at(t, 0) == 1 && (u16_at(t, 2) == 0 || u16_at(t, 2) == 0x1000)
        && u16_at(t, 24) == 0 && u16_at(t, 26) == 0 && u16_at(t, 28) == 0 && u16_at(t, 30) == 0
        && u16_at(t, 32) == 0 {
        Some((HheaTable {
            major_version: 1,
            minor_version: u16_at(t, 2),
            ascent: to_i16(u16_at(t, 4)),
            descent: to_i16(u16_at(t, 6)),
            line_gap: to_i16(u16_at(t, 8)),
            advance_width_max: u16_at(t, 10),
            min_left_side_bearing: to_i16(u16_at(t, 12)),
            min_right_side_bearing: to_i16(u16_at(t, 14)),
            x_max_extent: to_i16(u16_at(t, 16)),
            caret_slope_rise: to_i16(u16_at(t, 18)),
            caret_slope_run: to_i16(u16_at(t, 20)),
            caret_offset: to_i16(u16_at(t, 22)),
            metric_data_format: 0,
            number_of_long_metrics: u16_at(t, 34),
        }, 36))
    } else {
        None
    }
}

/// Parses the `hhea` (or `vhea`) table held in `t`.
pub fn hhea_table(t: &[u8]) -> (r: Option<(HheaTable, usize)>)
    ensures
        agrees(r, spec_hhea_table(t@)),
{
    if !has_bytes(t, 0, 36) {
        return None;
    }
    let minor = get_u16be(t, 2);
    if get_u16be(t, 0) != 1 || (minor != 0 && minor != 0x1000) || get_u16be(t, 24) != 0
        || get_u16be(t, 26) != 0 || get_u16be(t, 28) != 0 || get_u16be(t, 30) != 0 || get_u16be(
        t,
        32,
    ) != 0 {
        return None;
    }
    let h = HheaTable {
        major_version: 1,
        minor_version: minor,
        ascent: as_i16(get_u16be(t, 4)),
        descent: as_i16(get_u16be(t, 6)),
        line_gap: as_i16(get_u16be(t, 8)),
        advance_width_max: get_u16be(t, 10),
        min_left_side_bearing: as_i16(get_u16be(t, 12)),
        min_right_side_bearing: as_i16(get_u16be(t, 14)),
        x_max_extent: as_i16(get_u16be(t, 16)),
        caret_slope_rise: as_i16(get_u16be(t, 18)),
        caret_slope_run: as_i16(get_u16be(t, 20)),
        caret_offset: as_i16(get_u16be(t, 22)),
        metric_data_format: 0,
        number_of_long_metrics: get_u16be(t, 34),
    };
    Some((h, 36))
}

/// The number of long metrics that the optional vertical header gives; the
/// vertical metrics are only read where that header is present.
pub fn vhea_long_metrics(vhea: Option<HheaTable>) -> (r: u16)
    requires
        vhea is Some,
    ensures
        r == vhea.unwrap().number_of_long_metrics,
{
    vhea.unwrap().number_of_long_metrics
}

/// The fields of a version 1.0 maximum profile.
#[derive(Clone, Copy, Debug, PartialEq, Eq)]
pub struct MaxpVersion1 {
    pub max_points: u16,
    pub max_contours: u16,
    pub max_composite_points: u16,
    pub max_composite_contours: u16,
    pub max_zones: u16,
    pub max_twilight_points: u16,
    pub max_storage: u16,
    pub max_function_defs: u16,
    pub max_instruction_defs: u16,
    pub max_stack_elements: u16,
    pub max_size_of_instructions: u16,
    pub max_component_elements: u16,
    pub max_component_depth: u16,
}

/// The version-dependent part of the maximum profile.
#[derive(Clone, Copy, Debug, PartialEq, Eq)]
pub enum MaxpData {
    MaxpV1(MaxpVersion1),
    MaxpPostScript,
    MaxpUnknown(u32),
}

/// The maximum profile.
#[derive(Clone, Copy, Debug, PartialEq, Eq)]
pub struct MaxpTable {
    pub version: u32,
    pub num_glyphs: u16,
    pub data: MaxpData,
}

impl View for MaxpTable {
    type V = MaxpTable;

    open spec fn view(&self) -> MaxpTable {
        *self
    }
}

/// The `maxp` table at the start of `t`: a version and the glyph count;
/// version 1.0 (`0x00010000`) adds thirteen counts, of which `max_zones`
/// must be 1 or 2 and `max_component_depth` at most 16; version 0.5
/// (`0x00005000`) adds nothing; other versions are kept as they are.
pub open spec fn spec_maxp_table(t: Seq<u8>) -> Option<(MaxpTable, int)> {
    if !avail(t, 0, 6) {
        None
    } else {
        let version = u32_at(t, 0);
        let num_glyphs = u16_at(t, 4);
        if version == 0x0001_0000 {
            if avail(t, 0, 32) && 1 <= u16_at(t, 14) <= 2 && u16_at(t, 30) <= 16 {
                Some((MaxpTable {
                    version,
                    num_glyphs,
                    data: MaxpData::MaxpV1(MaxpVersion1 {
                        max_points: u16_at(t, 6),
                        max_contours: u16_at(t, 8),
                        max_composite_points: u16_at(t, 10),
                        max_composite_contours: u16_at(t, 12),
                        max_zones: u16_at(t, 14),
                        max_twilight_points: u16_at(t, 16),
                        max_storage: u16_at(t, 18),
                        max_function_defs: u16_at(t, 20),
                        max_instruction_defs: u16_at(t, 22),
                        max_stack_elements: u16_at(t, 24),
                        max_size_of_instructions: u16_at(t, 26),
                        max_component_elements: u16_at(t, 28),
                        max_component_depth: u16_at(t, 30),
                    }),
                }, 32))
            } else {
                None
            }
        } else if version == 0x0000_5000 {
            Some((MaxpTable { version, num_glyphs, data: MaxpData::MaxpPostScript }, 6))
        } else {
            Some((MaxpTable { version, num_glyphs, data: MaxpData::MaxpUnknown(version) }, 6))
        }
    }
}

/// Parses the `maxp` table held in `t`.
pub fn maxp_table(t: &[u8]) -> (r: Option<(MaxpTable, usize)>)
    ensures
        agrees(r, spec_maxp_table(t@)),
{
    if !has_bytes(t, 0, 6) {
        return None;
    }
    let version = get_u32be(t, 0);
    let num_glyphs = get_u16be(t, 4);
    if version == 0x0001_0000 {
        if !has_bytes(t, 0, 32) {
            return None;
        }
        let zones = get_u16be(t, 14);
        let depth = get_u16be(t, 30);
        if zones < 1 || zones > 2 || depth > 16 {
            return None;
        }
        let v1 = MaxpVersion1 {
            max_points: get_u16be(t, 6),
            max_contours: get_u16be(t, 8),
            max_composite_points: get_u16be(t, 10),
            max_composite_contours: get_u16be(t, 12),
            max_zones: zones,
            max_twilight_points: get_u16be(t, 16),
            max_storage: get_u16be(t, 18),
            max_function_defs: get_u16be(t, 20),
            max_instruction_defs: get_u16be(t, 22),
            max_stack_elements: get_u16be(t, 24),
            max_size_of_instructions: get_u16be(t, 26),
            max_component_elements: get_u16be(t, 28),
            max_component_depth: depth,
        };
        Some((MaxpTable { version, num_glyphs, data: MaxpData::MaxpV1(v1) }, 32))
    } else if version == 0x0000_5000 {
        Some((MaxpTable { version, num_glyphs, data: MaxpData::MaxpPostScript }, 6))
    } else {
        Some((MaxpTable { version, num_glyphs, data: MaxpData::MaxpUnknown(version) }, 6))
    }
}

/// An advance and a side bearing.
#[derive(Clone, Copy, Debug, PartialEq, Eq)]
pub struct LongMetric {
    pub advance_width: u16,
    pub left_side_bearing: i16,
}

/// The horizontal (or vertical) metrics.
#[derive(Clone, Debug, PartialEq, Eq)]
pub struct HmtxTable {
    pub long_metrics: Vec<LongMetric>,
    pub left_side_bearings: Vec<i16>,
}

/// Mathematical form of `HmtxTable`.
pub struct SpecHmtxTable {
    pub long_metrics: Seq<LongMetric>,
    pub left_side_bearings: Seq<i16>,
}

impl View for HmtxTable {
    type V = SpecHmtxTable;

    open spec fn view(&self) -> SpecHmtxTable {
        SpecHmtxTable {
            long_metrics: self.long_metrics@,
            left_side_bearings: self.left_side_bearings@,
        }
    }
}

/// The `hmtx` table at the start of `t` for `num_long_metrics` long metrics
/// and `num_glyphs` glyphs: the long metrics, four bytes each, then one
/// side bearing for each remaining glyph. Fails when there are more long
/// metrics than glyphs.
pub open spec fn spec_hmtx_table(t: Seq<u8>, num_long_metrics: u16, num_glyphs: u16) -> Option<
    (SpecHmtxTable, int),
> {
    let n = num_long_metrics as int;
    if num_long_metrics > num_glyphs {
        None
    } else {
        let m = num_glyphs - num_long_metrics;
        if avail(t, 0, 4 * n + 2 * m) {
            Some((SpecHmtxTable {
                long_metrics: Seq::new(
                    n as nat,
                    |i: int|
                        LongMetric {
                            advance_width: u16_at(t, 4 * i),
                            left_side_bearing: to_i16(u16_at(t, 4 * i + 2)),
                        },
                ),
                left_side_bearings: Seq::new(m as nat, |i: int| to_i16(u16_at(t, 4 * n + 2 * i))),
            }, 4 * n + 2 * m))
        } else {
            None
        }
    }
}

/// The metrics give every glyph exactly one side bearing: one per long
/// metric and one per remaining glyph.
pub proof fn lemma_hmtx_covers_glyphs(t: Seq<u8>, num_long_metrics: u16, num_glyphs: u16)
    ensures
        spec_hmtx_table(t, num_long_metrics, num_glyphs) matches Some((h, e)) ==> h.long_metrics.len()
            == num_long_metrics && h.long_metrics.len() + h.left_side_bearings.len() == num_glyphs
            && e == 4 * num_long_metrics + 2 * h.left_side_bearings.len(),
        num_long_metrics > num_glyphs ==> spec_hmtx_table(t, num_long_metrics, num_glyphs) is None,
{
}

/// Parses the `hmtx` (or `vmtx`) table held in `t`.
pub fn hmtx_table(t: &[u8], num_long_metrics: u16, num_glyphs: u16) -> (r: Option<
    (HmtxTable, usize),
>)
    ensures
        agrees(r, spec_hmtx_table(t@, num_long_metrics, num_glyphs)),
{
    if num_long_metrics > num_glyphs {
        return None;
    }
    let n = num_long_metrics as usize;
    let m = (num_glyphs - num_long_metrics) as usize;
    let size = 4 * n + 2 * m;
    if !has_bytes(t, 0, size) {
        return None;
    }
    let mut long_metrics: Vec<LongMetric> = Vec::new();
    let mut i: usize = 0;
    while i < n
        invariant
            0 <= i <= n,
            n == num_long_metrics,
            avail(t@, 0, 4 * n + 2 * m),
            long_metrics@ =~= Seq::new(
                i as nat,
                |j: int|
                    LongMetric {
                        advance_width: u16_at(t@, 4 * j),
                        left_side_bearing: to_i16(u16_at(t@, 4 * j + 2)),
                    },
            ),
        decreases n - i,
    {
        long_metrics.push(
            LongMetric {
                advance_width: get_u16be(t, 4 * i),
                left_side_bearing: as_i16(get_u16be(t, 4 * i + 2)),
            },
        );
        i = i + 1;
        assert(long_metrics@ =~= Seq::new(
            i as nat,
            |j: int|
                LongMetric {
                    advance_width: u16_at(t@, 4 * j),
                    left_side_bearing: to_i16(u16_at(t@, 4 * j + 2)),
                },
        ));
    }
    let mut lsbs: Vec<i16> = Vec::new();
    let mut k: usize = 0;
    while k < m
        invariant
            0 <= k <= m,
            n == num_long_metrics,
            m == num_glyphs - num_long_metrics,
            avail(t@, 0, 4 * n + 2 * m),
            lsbs@ =~= Seq::new(k as nat, |j: int| to_i16(u16_at(t@, 4 * n + 2 * j))),
        decreases m - k,
    {
        lsbs.push(as_i16(get_u16be(t, 4 * n + 2 * k)));
        k = k + 1;
        assert(lsbs@ =~= Seq::new(k as nat, |j: int| to_i16(u16_at(t@, 4 * n + 2 * j))));
    }
    Some((HmtxTable { long_metrics, left_side_bearings: lsbs }, size))
}


/// Every field of a horizontal (or vertical) header is the number that its
/// own bytes spell: the signed metrics at 4, 6, 8, 12, 14, 16, 18, 20 and
/// 22, the unsigned maximum advance at 10 and long-metric count at 34; the
/// header takes 36 bytes.
pub proof fn lemma_hhea_fields(t: Seq<u8>)
    ensures
        spec_hhea_table(t) matches Some((h, e)) ==> {
            &&& e == 36
            &&& h.minor_version == crate::bytes::word_at(t, 2)
            &&& h.ascent == crate::bytes::signed_word_at(t, 4)
            &&& h.descent == crate::bytes::signed_word_at(t, 6)
            &&& h.line_gap == crate::bytes::signed_word_at(t, 8)
            &&& h.advance_width_max == crate::bytes::word_at(t, 10)
            &&& h.min_left_side_bearing == crate::bytes::signed_word_at(t, 12)
            &&& h.min_right_side_bearing == crate::bytes::signed_word_at(t, 14)
            &&& h.x_max_extent == crate::bytes::signed_word_at(t, 16)
            &&& h.caret_slope_rise == crate::bytes::signed_word_at(t, 18)
            &&& h.caret_slope_run == crate::bytes::signed_word_at(t, 20)
            &&& h.caret_offset == crate::bytes::signed_word_at(t, 22)
            &&& h.number_of_long_metrics == crate::bytes::word_at(t, 34)
        },
{
    if avail(t, 0, 36) {
        crate::bytes::lemma_readers_spell(t, 2);
        crate::bytes::lemma_readers_spell(t, 4);
        crate::bytes::lemma_readers_spell(t, 6);
        crate::bytes::lemma_readers_spell(t, 8);
        crate::bytes::lemma_readers_spell(t, 10);
        crate::bytes::lemma_readers_spell(t, 12);
        crate::bytes::lemma_readers_spell(t, 14);
        crate::bytes::lemma_readers_spell(t, 16);
        crate::bytes::lemma_readers_spell(t, 18);
        crate::bytes::lemma_readers_spell(t, 20);
        crate::bytes::lemma_readers_spell(t, 22);
        crate::bytes::lemma_readers_spell(t, 34);
    }
}


/// Every field of a font header is the number that its own bytes spell:
/// the revision at 4, the checksum adjustment at 8, the flags at 16, the
/// units per em at 18, the signed bounding box at 36 to 42, the lowest
/// readable size at 46, the signed direction hint at 48 and the location
/// format at 50; the header takes 54 bytes.
pub proof fn lemma_head_fields(t: Seq<u8>)
    ensures
        spec_head_table(t) matches Some((h, e)) ==> {
            &&& e == 54
            &&& h.font_revision.0 == crate::bytes::dword_at(t, 4)
            &&& h.checksum_adjustment == crate::bytes::dword_at(t, 8)
            &&& h.flags == crate::bytes::word_at(t, 16)
            &&& h.units_per_em == crate::bytes::word_at(t, 18)
            &&& h.x_min == crate::bytes::signed_word_at(t, 36)
            &&& h.y_min == crate::bytes::signed_word_at(t, 38)
            &&& h.x_max == crate::bytes::signed_word_at(t, 40)
            &&& h.y_max == crate::bytes::signed_word_at(t, 42)
            &&& h.lowest_rec_ppem == crate::bytes::word_at(t, 46)
            &&& h.font_direction_hint == crate::bytes::signed_word_at(t, 48)
            &&& h.index_to_loc_format == crate::bytes::word_at(t, 50)
        },
{
    if let Some((h, e)) = spec_head_table(t) {
        crate::bytes::lemma_dword_spells(t, 4);
        crate::bytes::lemma_dword_spells(t, 8);
        crate::bytes::lemma_readers_spell(t, 16);
        crate::bytes::lemma_readers_spell(t, 18);
        crate::bytes::lemma_readers_spell(t, 36);
        crate::bytes::lemma_readers_spell(t, 38);
        crate::bytes::lemma_readers_spell(t, 40);
        crate::bytes::lemma_readers_spell(t, 42);
        crate::bytes::lemma_readers_spell(t, 46);
        crate::bytes::lemma_readers_spell(t, 48);
        crate::bytes::lemma_readers_spell(t, 50);
    }
}

/// Every field of a maximum profile is the number that its own bytes spell:
/// the version at 0 and glyph count at 4, and for version 1 the thirteen
/// limits at 6, 8, ..., 30 in their order.
pub proof fn lemma_maxp_fields(t: Seq<u8>)
    ensures
        spec_maxp_table(t) matches Some((m, e)) ==> {
            &&& m.version == crate::bytes::dword_at(t, 0)
            &&& m.num_glyphs == crate::bytes::word_at(t, 4)
            &&& (m.data matches MaxpData::MaxpV1(v) ==> v.max_points == crate::bytes::word_at(t, 6))
            &&& (m.data matches MaxpData::MaxpV1(v) ==> v.max_contours == crate::bytes::word_at(t, 8))
            &&& (m.data matches MaxpData::MaxpV1(v) ==> v.max_composite_points == crate::bytes::word_at(t, 10))
            &&& (m.data matches MaxpData::MaxpV1(v) ==> v.max_composite_contours == crate::bytes::word_at(t, 12))
            &&& (m.data matches MaxpData::MaxpV1(v) ==> v.max_zones == crate::bytes::word_at(t, 14))
            &&& (m.data matches MaxpData::MaxpV1(v) ==> v.max_twilight_points == crate::bytes::word_at(t, 16))
            &&& (m.data matches MaxpData::MaxpV1(v) ==> v.max_storage == crate::bytes::word_at(t, 18))
            &&& (m.data matches MaxpData::MaxpV1(v) ==> v.max_function_defs == crate::bytes::word_at(t, 20))
            &&& (m.data matches MaxpData::MaxpV1(v) ==> v.max_instruction_defs == crate::bytes::word_at(t, 22))
            &&& (m.data matches MaxpData::MaxpV1(v) ==> v.max_stack_elements == crate::bytes::word_at(t, 24))
            &&& (m.data matches MaxpData::MaxpV1(v) ==> v.max_size_of_instructions == crate::bytes::word_at(t, 26))
            &&& (m.data matches MaxpData::MaxpV1(v) ==> v.max_component_elements == crate::bytes::word_at(t, 28))
            &&& (m.data matches MaxpData::MaxpV1(v) ==> v.max_component_depth == crate::bytes::word_at(t, 30))
        },
{
    if let Some((m, e)) = spec_maxp_table(t) {
        crate::bytes::lemma_dword_spells(t, 0);
        crate::bytes::lemma_readers_spell(t, 4);
        if m.data is MaxpV1 {
        crate::bytes::lemma_readers_spell(t, 6);
        crate::bytes::lemma_readers_spell(t, 8);
        crate::bytes::lemma_readers_spell(t, 10);
        crate::bytes::lemma_readers_spell(t, 12);
        crate::bytes::lemma_readers_spell(t, 14);
        crate::bytes::lemma_readers_spell(t, 16);
        crate::bytes::lemma_readers_spell(t, 18);
        crate::bytes::lemma_readers_spell(t, 20);
        crate::bytes::lemma_readers_spell(t, 22);
        crate::bytes::lemma_readers_spell(t, 24);
        crate::bytes::lemma_readers_spell(t, 26);
        crate::bytes::lemma_readers_spell(t, 28);
        crate::bytes::lemma_readers_spell(t, 30);
        }
    }
}


/// The horizontal (or vertical) metrics: the long metrics are pairs of an
/// advance (the word at `4 * i`) and a signed side bearing (at `4 * i + 2`),
/// one per long metric; the remaining glyphs' signed side bearings follow,
/// a word each.
pub proof fn lemma_hmtx_fields(t: Seq<u8>, num_long_metrics: u16, num_glyphs: u16)
    ensures
        spec_hmtx_table(t, num_long_metrics, num_glyphs) matches Some((m, e)) ==> {
            let n = num_long_metrics as int;
            &&& e == 4 * n + 2 * (num_glyphs - n)
            &&& forall|i: int| 0 <= i < n ==> (#[trigger] m.long_metrics[i]).advance_width
                == crate::bytes::word_at(t, 4 * i) && m.long_metrics[i].left_side_bearing
                == crate::bytes::signed_word_at(t, 4 * i + 2)
            &&& forall|i: int| 0 <= i < num_glyphs - n ==> #[trigger] m.left_side_bearings[i]
                == crate::bytes::signed_word_at(t, 4 * n + 2 * i)
        },
{
    if let Some((m, e)) = spec_hmtx_table(t, num_long_metrics, num_glyphs) {
        let n = num_long_metrics as int;
        assert forall|i: int| 0 <= i < n implies (#[trigger] m.long_metrics[i]).advance_width
            == crate::bytes::word_at(t, 4 * i) && m.long_metrics[i].left_side_bearing
            == crate::bytes::signed_word_at(t, 4 * i + 2) by {
            crate::bytes::lemma_readers_spell(t, 4 * i);
            crate::bytes::lemma_readers_spell(t, 4 * i + 2);
        }
        assert forall|i: int| 0 <= i < num_glyphs - n implies #[trigger] m.left_side_bearings[i]
            == crate::bytes::signed_word_at(t, 4 * n + 2 * i) by {
            crate::bytes::lemma_readers_spell(t, 4 * n + 2 * i);
        }
    }
}


/// Each style flag of a font header is set exactly when its bit of the
/// style word at 44 is: bit 0 bold, 1 italic, 2 underline, 3 outline, 4
/// shadow, 5 condensed, 6 extended.
pub proof fn lemma_mac_style_bits(raw: u16, t: Seq<u8>)
    ensures
        ({
            let m = mac_style(raw);
            &&& m.bold == (raw & 0x01 != 0)
            &&& m.italic == (raw & 0x02 != 0)
            &&& m.underline == (raw & 0x04 != 0)
            &&& m.outline == (raw & 0x08 != 0)
            &&& m.shadow == (raw & 0x10 != 0)
            &&& m.condensed == (raw & 0x20 != 0)
            &&& m.extended == (raw & 0x40 != 0)
        }),
        spec_head_table(t) matches Some((h, _)) ==> h.mac_style == mac_style(crate::bytes::word_at(t, 44) as u16),
{
    assert({
        &&& (raw % 2 == 1) == (raw & 0x01 != 0)
        &&& ((raw / 2) % 2 == 1) == (raw & 0x02 != 0)
        &&& ((raw / 4) % 2 == 1) == (raw & 0x04 != 0)
        &&& ((raw / 8) % 2 == 1) == (raw & 0x08 != 0)
        &&& ((raw / 16) % 2 == 1) == (raw & 0x10 != 0)
        &&& ((raw / 32) % 2 == 1) == (raw & 0x20 != 0)
        &&& ((raw / 64) % 2 == 1) == (raw & 0x40 != 0)
    }) by (bit_vector);
    if let Some(_) = spec_head_table(t) {
        crate::bytes::lemma_readers_spell(t, 44);
    }
}

} // verus!
