//! The OS/2 and Windows metrics table (`OS/2`), the PostScript table
//! (`post`), the grid-fitting table (`gasp`) and the raw TrueType tables
//! (`cvt `, `fpgm`, `prep`). Positions are relative to the table's start.
use vstd::prelude::*;
use vstd::slice::{slice_subrange, slice_to_vec};
use crate::bytes::{
    agrees, as_i16, as_i8, avail, get_u16be, get_u32be, has_bytes, to_i16, to_i8, u16_at, u32_at,
};
use crate::opentype::cmap::{read_u16s, u16s_at};
use crate::opentype::values::Fixed32;

verus! {

/// The fields of an `OS/2` table that version 2 adds, with the optical
/// point-size range that version 5 adds.
#[derive(Clone, Copy, Debug, PartialEq, Eq)]
pub struct Os2ExtraV2 {
    pub sx_height: i16,
    pub s_cap_height: i16,
    pub us_default_char: u16,
    pub us_break_char: u16,
    pub us_max_context: u16,
    pub extra_fields_v5: Option<(u16, u16)>,
}

/// The fields of an `OS/2` table that version 1 adds.
#[derive(Clone, Copy, Debug, PartialEq, Eq)]
pub struct Os2ExtraV1 {
    pub ul_code_page_range_1: u32,
    pub ul_code_page_range_2: u32,
    pub extra_fields_v2: Option<Os2ExtraV2>,
}

/// The typographic metrics of an `OS/2` table and the fields of later
/// versions.
#[derive(Clone, Copy, Debug, PartialEq, Eq)]
pub struct Os2Metrics {
    pub s_typo_ascender: i16,
    pub s_typo_descender: i16,
    pub s_typo_line_gap: i16,
    pub us_win_ascent: u16,
    pub us_win_descent: u16,
    pub extra_fields_v1: Option<Os2ExtraV1>,
}

/// The `OS/2` table.
#[derive(Clone, Debug, PartialEq, Eq)]
pub struct Os2Table {
    pub version: u16,
    pub x_avg_char_width: i16,
    pub us_weight_class: u16,
    pub us_width_class: u16,
    pub fs_type: u16,
    pub y_subscript_x_size: i16,
    pub y_subscript_y_size: i16,
    pub y_subscript_x_offset: i16,
    pub y_subscript_y_offset: i16,
    pub y_superscript_x_size: i16,
    pub y_superscript_y_size: i16,
    pub y_superscript_x_offset: i16,
    pub y_superscript_y_offset: i16,
    pub y_strikeout_size: i16,
    pub y_strikeout_position: i16,
    pub s_family_class: i16,
    pub panose: Vec<u8>,
    pub ul_unicode_range1: u32,
    pub ul_unicode_range2: u32,
    pub ul_unicode_range3: u32,
    pub ul_unicode_range4: u32,
    pub ach_vend_id: u32,
    pub fs_selection: u16,
    pub us_first_char_index: u16,
    pub us_last_char_index: u16,
    pub data: Option<Os2Metrics>,
}

/// Mathematical form of `Os2Table`.
pub struct SpecOs2Table {
    pub version: u16,
    pub x_avg_char_width: i16,
    pub us_weight_class: u16,
    pub us_width_class: u16,
    pub fs_type: u16,
    pub y_subscript_x_size: i16,
    pub y_subscript_y_size: i16,
    pub y_subscript_x_offset: i16,
    pub y_subscript_y_offset: i16,
    pub y_superscript_x_size: i16,
    pub y_superscript_y_size: i16,
    pub y_superscript_x_offset: i16,
    pub y_superscript_y_offset: i16,
    pub y_strikeout_size: i16,
    pub y_strikeout_position: i16,
    pub s_family_class: i16,
    pub panose: Seq<u8>,
    pub ul_unicode_range1: u32,
    pub ul_unicode_range2: u32,
    pub ul_unicode_range3: u32,
    pub ul_unicode_range4: u32,
    pub ach_vend_id: u32,
    pub fs_selection: u16,
    pub us_first_char_index: u16,
    pub us_last_char_index: u16,
    pub data: Option<Os2Metrics>,
}

impl View for Os2Table {
    type V = SpecOs2Table;

    open spec fn view(&self) -> SpecOs2Table {
        SpecOs2Table {
            version: self.version,
            x_avg_char_width: self.x_avg_char_width,
            us_weight_class: self.us_weight_class,
            us_width_class: self.us_width_class,
            fs_type: self.fs_type,
            y_subscript_x_size: self.y_subscript_x_size,
            y_subscript_y_size: self.y_subscript_y_size,
            y_subscript_x_offset: self.y_subscript_x_offset,
            y_subscript_y_offset: self.y_subscript_y_offset,
            y_superscript_x_size: self.y_superscript_x_size,
            y_superscript_y_size: self.y_superscript_y_size,
            y_superscript_x_offset: self.y_superscript_x_offset,
            y_superscript_y_offset: self.y_superscript_y_offset,
            y_strikeout_size: self.y_strikeout_size,
            y_strikeout_position: self.y_strikeout_position,
            s_family_class: self.s_family_class,
            panose: self.panose@,
            ul_unicode_range1: self.ul_unicode_range1,
            ul_unicode_range2: self.ul_unicode_range2,
            ul_unicode_range3: self.ul_unicode_range3,
            ul_unicode_range4: self.ul_unicode_range4,
            ach_vend_id: self.ach_vend_id,
            fs_selection: self.fs_selection,
            us_first_char_index: self.us_first_char_index,
            us_last_char_index: self.us_last_char_index,
            data: self.data,
        }
    }
}

/// The version-dependent tail of an `OS/2` table of version `version`, from
/// position 68: absent for version 0 when the table is shorter than 78
/// bytes; otherwise the typographic metrics, then the version 1 fields from
/// version 1 on, the version 2 fields from version 2 on and the version 5
/// fields from version 5 on. The outer `None` is a failure.
pub open spec fn spec_os2_data(t: Seq<u8>, version: u16, table_length: u32) -> Option<
    (Option<Os2Metrics>, int),
> {
    if !(version != 0 || table_length >= 78) {
        Some((None, 68))
    } else if !avail(t, 68, 10) {
        None
    } else {
        let v1 = if version < 1 {
            Some((None, 78))
        } else if !avail(t, 78, 8) {
            None
        } else {
            let v2 = if version < 2 {
                Some((None, 86))
            } else if !avail(t, 86, 10) {
                None
            } else {
                let v5 = if version < 5 {
                    Some((None, 96))
                } else if avail(t, 96, 4) {
                    Some((Some((u16_at(t, 96), u16_at(t, 98))), 100))
                } else {
                    None
                };
                match v5 {
                    Some((x, e)) => Some((Some(Os2ExtraV2 {
                        sx_height: to_i16(u16_at(t, 86)),
                        s_cap_height: to_i16(u16_at(t, 88)),
                        us_default_char: u16_at(t, 90),
                        us_break_char: u16_at(t, 92),
                        us_max_context: u16_at(t, 94),
                        extra_fields_v5: x,
                    }), e)),
                    None => None,
                }
            };
            match v2 {
                Some((x, e)) => Some((Some(Os2ExtraV1 {
                    ul_code_page_range_1: u32_at(t, 78),
                    ul_code_page_range_2: u32_at(t, 82),
                    extra_fields_v2: x,
                }), e)),
                None => None,
            }
        };
        match v1 {
            Some((x, e)) => Some((Some(Os2Metrics {
                s_typo_ascender: to_i16(u16_at(t, 68)),
                s_typo_descender: to_i16(u16_at(t, 70)),
                s_typo_line_gap: to_i16(u16_at(t, 72)),
                us_win_ascent: u16_at(t, 74),
                us_win_descent: u16_at(t, 76),
                extra_fields_v1: x,
            }), e)),
            None => None,
        }
    }
}

/// The `OS/2` table held in `t`, whose directory length is `table_length`:
/// 68 bytes of fields common to all versions, then the tail that the
/// version and the length call for.
pub open spec fn spec_os2_table(t: Seq<u8>, table_length: u32) -> Option<(SpecOs2Table, int)> {
    if !avail(t, 0, 68) {
        None
    } else {
        let version = u16_at(t, 0);
        match spec_os2_data(t, version, table_length) {
            None => None,
            Some((data, e)) => Some((SpecOs2Table {
                version,
                x_avg_char_width: to_i16(u16_at(t, 2)),
                us_weight_class: u16_at(t, 4),
                us_width_class: u16_at(t, 6),
                fs_type: u16_at(t, 8),
                y_subscript_x_size: to_i16(u16_at(t, 10)),
                y_subscript_y_size: to_i16(u16_at(t, 12)),
                y_subscript_x_offset: to_i16(u16_at(t, 14)),
                y_subscript_y_offset: to_i16(u16_at(t, 16)),
                y_superscript_x_size: to_i16(u16_at(t, 18)),
                y_superscript_y_size: to_i16(u16_at(t, 20)),
                y_superscript_x_offset: to_i16(u16_at(t, 22)),
                y_superscript_y_offset: to_i16(u16_at(t, 24)),
                y_strikeout_size: to_i16(u16_at(t, 26)),
                y_strikeout_position: to_i16(u16_at(t, 28)),
                s_family_class: to_i16(u16_at(t, 30)),
                panose: t.subrange(32, 42),
                ul_unicode_range1: u32_at(t, 42),
                ul_unicode_range2: u32_at(t, 46),
                ul_unicode_range3: u32_at(t, 50),
                ul_unicode_range4: u32_at(t, 54),
                ach_vend_id: u32_at(t, 58),
                fs_selection: u16_at(t, 62),
                us_first_char_index: u16_at(t, 64),
                us_last_char_index: u16_at(t, 66),
                data,
            }, e)),
        }
    }
}

fn os2_data(t: &[u8], version: u16, table_length: u32) -> (r: Option<(Option<Os2Metrics>, usize)>)
    requires
        avail(t@, 0, 68),
    ensures
        match r {
            Some((d, e)) => spec_os2_data(t@, version, table_length) == Some((d, e as int)),
            None => spec_os2_data(t@, version, table_length) is None,
        },
{
    if !(version != 0 || table_length >= 78) {
        return Some((None, 68));
    }
    if !has_bytes(t, 68, 10) {
        return None;
    }
    let (v1, e) = if version < 1 {
        (None, 78)
    } else {
        if !has_bytes(t, 78, 8) {
            return None;
        }
        let (v2, e) = if version < 2 {
            (None, 86)
        } else {
            if !has_bytes(t, 86, 10) {
                return None;
            }
            let (v5, e) = if version < 5 {
                (None, 96)
            } else {
                if !has_bytes(t, 96, 4) {
                    return None;
                }
                (Some((get_u16be(t, 96), get_u16be(t, 98))), 100)
            };
            (
                Some(
                    Os2ExtraV2 {
                        sx_height: as_i16(get_u16be(t, 86)),
                        s_cap_height: as_i16(get_u16be(t, 88)),
                        us_default_char: get_u16be(t, 90),
                        us_break_char: get_u16be(t, 92),
                        us_max_context: get_u16be(t, 94),
                        extra_fields_v5: v5,
                    },
                ),
                e,
            )
        };
        (
            Some(
                Os2ExtraV1 {
                    ul_code_page_range_1: get_u32be(t, 78),
                    ul_code_page_range_2: get_u32be(t, 82),
                    extra_fields_v2: v2,
                },
            ),
            e,
        )
    };
    let m = Os2Metrics {
        s_typo_ascender: as_i16(get_u16be(t, 68)),
        s_typo_descender: as_i16(get_u16be(t, 70)),
        s_typo_line_gap: as_i16(get_u16be(t, 72)),
        us_win_ascent: get_u16be(t, 74),
        us_win_descent: get_u16be(t, 76),
        extra_fields_v1: v1,
    };
    Some((Some(m), e))
}

/// Parses the `OS/2` table held in `t`, whose directory length is
/// `table_length`.
pub fn os2_table(t: &[u8], table_length: u32) -> (r: Option<(Os2Table, usize)>)
    ensures
        agrees(r, spec_os2_table(t@, table_length)),
{
    if !has_bytes(t, 0, 68) {
        return None;
    }
    let version = get_u16be(t, 0);
    let (data, e) = match os2_data(t, version, table_length) {
        Some(x) => x,
        None => return None,
    };
    let o = Os2Table {
        version,
        x_avg_char_width: as_i16(get_u16be(t, 2)),
        us_weight_class: get_u16be(t, 4),
        us_width_class: get_u16be(t, 6),
        fs_type: get_u16be(t, 8),
        y_subscript_x_size: as_i16(get_u16be(t, 10)),
        y_subscript_y_size: as_i16(get_u16be(t, 12)),
        y_subscript_x_offset: as_i16(get_u16be(t, 14)),
        y_subscript_y_offset: as_i16(get_u16be(t, 16)),
        y_superscript_x_size: as_i16(get_u16be(t, 18)),
        y_superscript_y_size: as_i16(get_u16be(t, 20)),
        y_superscript_x_offset: as_i16(get_u16be(t, 22)),
        y_superscript_y_offset: as_i16(get_u16be(t, 24)),
        y_strikeout_size: as_i16(get_u16be(t, 26)),
        y_strikeout_position: as_i16(get_u16be(t, 28)),
        s_family_class: as_i16(get_u16be(t, 30)),
        panose: slice_to_vec(slice_subrange(t, 32, 42)),
        ul_unicode_range1: get_u32be(t, 42),
        ul_unicode_range2: get_u32be(t, 46),
        ul_unicode_range3: get_u32be(t, 50),
        ul_unicode_range4: get_u32be(t, 54),
        ach_vend_id: get_u32be(t, 58),
        fs_selection: get_u16be(t, 62),
        us_first_char_index: get_u16be(t, 64),
        us_last_char_index: get_u16be(t, 66),
        data,
    };
    Some((o, e))
}

/// The glyph names of a `post` table, by version.
#[derive(Clone, Debug, PartialEq, Eq)]
pub enum PostNames {
    Version1,
    Version2 { num_glyphs: u16, glyph_name_index: Vec<u16>, string_data: usize },
    Version2Dot5 { num_glyphs: u16, offset: Vec<i8> },
    Version3,
    VersionUnknown(u32),
}

/// Mathematical form of `PostNames`.
pub enum SpecPostNames {
    Version1,
    Version2 { num_glyphs: u16, glyph_name_index: Seq<u16>, string_data: usize },
    Version2Dot5 { num_glyphs: u16, offset: Seq<i8> },
    Version3,
    VersionUnknown(u32),
}

/// The `post` table.
#[derive(Clone, Debug, PartialEq, Eq)]
pub struct PostTable {
    pub version: u32,
    pub italic_angle: Fixed32,
    pub underline_position: i16,
    pub underline_thickness: i16,
    pub is_fixed_pitch: u32,
    pub min_mem_type42: u32,
    pub max_mem_type42: u32,
    pub min_mem_type1: u32,
    pub max_mem_type1: u32,
    pub names: PostNames,
}

/// Mathematical form of `PostTable`.
pub struct SpecPostTable {
    pub version: u32,
    pub italic_angle: Fixed32,
    pub underline_position: i16,
    pub underline_thickness: i16,
    pub is_fixed_pitch: u32,
    pub min_mem_type42: u32,
    pub max_mem_type42: u32,
    pub min_mem_type1: u32,
    pub max_mem_type1: u32,
    pub names: SpecPostNames,
}

impl View for PostTable {
    type V = SpecPostTable;

    open spec fn view(&self) -> SpecPostTable {
        SpecPostTable {
            version: self.version,
            italic_angle: self.italic_angle,
            underline_position: self.underline_position,
            underline_thickness: self.underline_thickness,
            is_fixed_pitch: self.is_fixed_pitch,
            min_mem_type42: self.min_mem_type42,
            max_mem_type42: self.max_mem_type42,
            min_mem_type1: self.min_mem_type1,
            max_mem_type1: self.max_mem_type1,
            names: match &self.names {
                PostNames::Version1 => SpecPostNames::Version1,
                PostNames::Version2 { num_glyphs, glyph_name_index, string_data } => {
                    SpecPostNames::Version2 {
                        num_glyphs: *num_glyphs,
                        glyph_name_index: glyph_name_index@,
                        string_data: *string_data,
                    }
                },
                PostNames::Version2Dot5 { num_glyphs, offset } => SpecPostNames::Version2Dot5 {
                    num_glyphs: *num_glyphs,
                    offset: offset@,
                },
                PostNames::Version3 => SpecPostNames::Version3,
                PostNames::VersionUnknown(v) => SpecPostNames::VersionUnknown(*v),
            },
        }
    }
}

/// The glyph names of a `post` table of version `version`, from 32: for
/// version 2 a glyph count, one name index per glyph and the position in
/// the file where the name strings begin (the table lying at `origin` of the
/// file); for version 2.5 a glyph count and one
/// signed offset per glyph; nothing for versions 1 and 3; other versions
/// are kept as they are.
pub open spec fn spec_post_names(t: Seq<u8>, version: u32, origin: int) -> Option<(SpecPostNames, int)> {
    if version == 0x0001_0000 {
        Some((SpecPostNames::Version1, 32))
    } else if version == 0x0002_0000 {
        if avail(t, 32, 2) && avail(t, 34, 2 * u16_at(t, 32)) {
            let n = u16_at(t, 32);
            Some((SpecPostNames::Version2 {
                num_glyphs: n,
                glyph_name_index: u16s_at(t, 34, n as int),
                string_data: (origin + 34 + 2 * n) as usize,
            }, 34 + 2 * n))
        } else {
            None
        }
    } else if version == 0x0002_5000 {
        if avail(t, 32, 2) && avail(t, 34, u16_at(t, 32) as int) {
            let n = u16_at(t, 32);
            Some((SpecPostNames::Version2Dot5 {
                num_glyphs: n,
                offset: Seq::new(n as nat, |i: int| to_i8(t[34 + i])),
            }, 34 + n))
        } else {
            None
        }
    } else if version == 0x0003_0000 {
        Some((SpecPostNames::Version3, 32))
    } else {
        Some((SpecPostNames::VersionUnknown(version), 32))
    }
}

/// The `post` table held in `t`, which lies at position `origin` of the
/// file: a 32-byte header and the glyph names.
pub open spec fn spec_post_table(t: Seq<u8>, origin: int) -> Option<(SpecPostTable, int)> {
    if !avail(t, 0, 32) {
        None
    } else {
        match spec_post_names(t, u32_at(t, 0), origin) {
            None => None,
            Some((names, e)) => Some((SpecPostTable {
                version: u32_at(t, 0),
                italic_angle: Fixed32(u32_at(t, 4)),
                underline_position: to_i16(u16_at(t, 8)),
                underline_thickness: to_i16(u16_at(t, 10)),
                is_fixed_pitch: u32_at(t, 12),
                min_mem_type42: u32_at(t, 16),
                max_mem_type42: u32_at(t, 20),
                min_mem_type1: u32_at(t, 24),
                max_mem_type1: u32_at(t, 28),
                names,
            }, e)),
        }
    }
}

fn read_i8s(t: &[u8], p: usize, n: usize) -> (v: Vec<i8>)
    requires
        avail(t@, p as int, n as int),
    ensures
        v@ == Seq::new(n as nat, |i: int| to_i8(t@[p + i])),
{
    let _len = t.len();
    let mut v: Vec<i8> = Vec::new();
    let mut i: usize = 0;
    while i < n
        invariant
            0 <= i <= n,
            avail(t@, p as int, n as int),
            t@.len() <= usize::MAX,
            v@ =~= Seq::new(i as nat, |j: int| to_i8(t@[p + j])),
        decreases n - i,
    {
        v.push(as_i8(t[p + i]));
        i = i + 1;
        assert(v@ =~= Seq::new(i as nat, |j: int| to_i8(t@[p + j])));
    }
    v
}

/// Parses the `post` table held in `t`, which lies at position `origin` of
/// the file.
pub fn post_table(t: &[u8], origin: usize) -> (r: Option<(PostTable, usize)>)
    requires
        origin + t@.len() <= usize::MAX,
    ensures
        agrees(r, spec_post_table(t@, origin as int)),
{
    if !has_bytes(t, 0, 32) {
        return None;
    }
    let version = get_u32be(t, 0);
    let (names, e) = if version == 0x0001_0000 {
        (PostNames::Version1, 32)
    } else if version == 0x0002_0000 {
        if !has_bytes(t, 32, 2) {
            return None;
        }
        let n = get_u16be(t, 32) as usize;
        if !has_bytes(t, 34, 2 * n) {
            return None;
        }
        (
            PostNames::Version2 {
                num_glyphs: n as u16,
                glyph_name_index: read_u16s(t, 34, n),
                string_data: origin + 34 + 2 * n,
            },
            34 + 2 * n,
        )
    } else if version == 0x0002_5000 {
        if !has_bytes(t, 32, 2) {
            return None;
        }
        let n = get_u16be(t, 32) as usize;
        if !has_bytes(t, 34, n) {
            return None;
        }
        (PostNames::Version2Dot5 { num_glyphs: n as u16, offset: read_i8s(t, 34, n) }, 34 + n)
    } else if version == 0x0003_0000 {
        (PostNames::Version3, 32)
    } else {
        (PostNames::VersionUnknown(version), 32)
    };
    let p = PostTable {
        version,
        italic_angle: Fixed32(get_u32be(t, 4)),
        underline_position: as_i16(get_u16be(t, 8)),
        underline_thickness: as_i16(get_u16be(t, 10)),
        is_fixed_pitch: get_u32be(t, 12),
        min_mem_type42: get_u32be(t, 16),
        max_mem_type42: get_u32be(t, 20),
        min_mem_type1: get_u32be(t, 24),
        max_mem_type1: get_u32be(t, 28),
        names,
    };
    Some((p, e))
}

/// The rendering behaviour of a `gasp` range, by table version.
#[derive(Clone, Copy, Debug, PartialEq, Eq)]
pub enum GaspBehavior {
    Version0 { dogray: bool, gridfit: bool },
    Version1 { symmetric_smoothing: bool, symmetric_gridfit: bool, dogray: bool, gridfit: bool },
}

/// A `gasp` range: the largest size it applies to and the behaviour.
#[derive(Clone, Copy, Debug, PartialEq, Eq)]
pub struct GaspRecord {
    pub range_max_ppem: u16,
    pub range_gasp_behavior: GaspBehavior,
}

/// The `gasp` table.
#[derive(Clone, Debug, PartialEq, Eq)]
pub struct GaspTable {
    pub version: u16,
    pub num_ranges: u16,
    pub gasp_ranges: Vec<GaspRecord>,
}

/// Mathematical form of `GaspTable`.
pub struct SpecGaspTable {
    pub version: u16,
    pub num_ranges: u16,
    pub gasp_ranges: Seq<GaspRecord>,
}

impl View for GaspTable {
    type V = SpecGaspTable;

    open spec fn view(&self) -> SpecGaspTable {
        SpecGaspTable {
            version: self.version,
            num_ranges: self.num_ranges,
            gasp_ranges: self.gasp_ranges@,
        }
    }
}

/// The behaviour bits of a raw flags word for version 0 (bits 1 and 0) or
/// version 1 (bits 3 down to 0); the high bits are reserved and not
/// checked.
pub open spec fn gasp_behavior(raw: u16, version: u16) -> GaspBehavior {
    if version == 0 {
        GaspBehavior::Version0 { dogray: (raw / 2) % 2 == 1, gridfit: raw % 2 == 1 }
    } else {
        GaspBehavior::Version1 {
            symmetric_smoothing: (raw / 8) % 2 == 1,
            symmetric_gridfit: (raw / 4) % 2 == 1,
            dogray: (raw / 2) % 2 == 1,
            gridfit: raw % 2 == 1,
        }
    }
}

/// The `gasp` table held in `t`: version, range count, and four-byte range
/// records whose flags are read as the version says; a range record of a
/// version other than 0 and 1 fails.
pub open spec fn spec_gasp_table(t: Seq<u8>) -> Option<(SpecGaspTable, int)> {
    if !avail(t, 0, 4) {
        None
    } else {
        let version = u16_at(t, 0);
        let n = u16_at(t, 2);
        if (n > 0 && version > 1) || !avail(t, 4, 4 * n) {
            None
        } else {
            Some((SpecGaspTable {
                version,
                num_ranges: n,
                gasp_ranges: Seq::new(
                    n as nat,
                    |i: int|
                        GaspRecord {
                            range_max_ppem: u16_at(t, 4 + 4 * i),
                            range_gasp_behavior: gasp_behavior(u16_at(t, 6 + 4 * i), version),
                        },
                ),
            }, 4 + 4 * n))
        }
    }
}

/// Parses the `gasp` table held in `t`.
pub fn gasp_table(t: &[u8]) -> (r: Option<(GaspTable, usize)>)
    ensures
        agrees(r, spec_gasp_table(t@)),
{
    if !has_bytes(t, 0, 4) {
        return None;
    }
    let version = get_u16be(t, 0);
    let n = get_u16be(t, 2) as usize;
    if (n > 0 && version > 1) || !has_bytes(t, 4, 4 * n) {
        return None;
    }
    let mut v: Vec<GaspRecord> = Vec::new();
    let mut i: usize = 0;
    while i < n
        invariant
            0 <= i <= n,
            avail(t@, 4, 4 * n),
            t@.len() <= usize::MAX,
            v@ =~= Seq::new(
                i as nat,
                |j: int|
                    GaspRecord {
                        range_max_ppem: u16_at(t@, 4 + 4 * j),
                        range_gasp_behavior: gasp_behavior(u16_at(t@, 6 + 4 * j), version),
                    },
            ),
        decreases n - i,
    {
        let raw = get_u16be(t, 6 + 4 * i);
        let behavior = if version == 0 {
            GaspBehavior::Version0 { dogray: (raw / 2) % 2 == 1, gridfit: raw % 2 == 1 }
        } else {
            GaspBehavior::Version1 {
                symmetric_smoothing: (raw / 8) % 2 == 1,
                symmetric_gridfit: (raw / 4) % 2 == 1,
                dogray: (raw / 2) % 2 == 1,
                gridfit: raw % 2 == 1,
            }
        };
        v.push(GaspRecord { range_max_ppem: get_u16be(t, 4 + 4 * i), range_gasp_behavior: behavior });
        i = i + 1;
        assert(v@ =~= Seq::new(
            i as nat,
            |j: int|
                GaspRecord {
                    range_max_ppem: u16_at(t@, 4 + 4 * j),
                    range_gasp_behavior: gasp_behavior(u16_at(t@, 6 + 4 * j), version),
                },
        ));
    }
    Some((GaspTable { version, num_ranges: n as u16, gasp_ranges: v }, 4 + 4 * n))
}

/// The control values of a `cvt ` table: as many signed 16-bit values as
/// the table holds.
pub open spec fn spec_cvt_table(t: Seq<u8>) -> Seq<i16> {
    Seq::new((t.len() / 2) as nat, |i: int| to_i16(u16_at(t, 2 * i)))
}

/// Parses the `cvt ` table held in `t`.
pub fn cvt_table(t: &[u8]) -> (r: Vec<i16>)
    ensures
        r@ == spec_cvt_table(t@),
{
    let n = t.len() / 2;
    let mut v: Vec<i16> = Vec::new();
    let mut i: usize = 0;
    while i < n
        invariant
            0 <= i <= n,
            n == t@.len() / 2,
            t@.len() <= usize::MAX,
            v@ =~= Seq::new(i as nat, |j: int| to_i16(u16_at(t@, 2 * j))),
        decreases n - i,
    {
        v.push(as_i16(get_u16be(t, 2 * i)));
        i = i + 1;
        assert(v@ =~= Seq::new(i as nat, |j: int| to_i16(u16_at(t@, 2 * j))));
    }
    v
}

/// Parses a table of raw bytes (`fpgm`, `prep`): all of them.
pub fn byte_table(t: &[u8]) -> (r: Vec<u8>)
    ensures
        r@ == t@,
{
    slice_to_vec(t)
}


/// Every field of an `OS/2` table is the number its own bytes spell, at its
/// place in the record: the common fields at 0 to 66 (signed metrics,
/// unsigned classes and indices, the ten PANOSE bytes at 32, the four
/// Unicode ranges and the vendor tag as double words), then the typographic
/// metrics at 68 to 76, the code page ranges at 78 and 82, the version 2
/// fields at 86 to 94 and the version 5 sizes at 96 and 98.
pub proof fn lemma_os2_fields(t: Seq<u8>, table_length: u32)
    ensures
        spec_os2_table(t, table_length) matches Some((o, _)) ==> {
            &&& o.x_avg_char_width == crate::bytes::signed_word_at(t, 2)
            &&& o.y_subscript_x_size == crate::bytes::signed_word_at(t, 10)
            &&& o.y_subscript_y_size == crate::bytes::signed_word_at(t, 12)
            &&& o.y_subscript_x_offset == crate::bytes::signed_word_at(t, 14)
            &&& o.y_subscript_y_offset == crate::bytes::signed_word_at(t, 16)
            &&& o.y_superscript_x_size == crate::bytes::signed_word_at(t, 18)
            &&& o.y_superscript_y_size == crate::bytes::signed_word_at(t, 20)
            &&& o.y_superscript_x_offset == crate::bytes::signed_word_at(t, 22)
            &&& o.y_superscript_y_offset == crate::bytes::signed_word_at(t, 24)
            &&& o.y_strikeout_size == crate::bytes::signed_word_at(t, 26)
            &&& o.y_strikeout_position == crate::bytes::signed_word_at(t, 28)
            &&& o.s_family_class == crate::bytes::signed_word_at(t, 30)
            &&& o.version == crate::bytes::word_at(t, 0)
            &&& o.us_weight_class == crate::bytes::word_at(t, 4)
            &&& o.us_width_class == crate::bytes::word_at(t, 6)
            &&& o.fs_type == crate::bytes::word_at(t, 8)
            &&& o.fs_selection == crate::bytes::word_at(t, 62)
            &&& o.us_first_char_index == crate::bytes::word_at(t, 64)
            &&& o.us_last_char_index == crate::bytes::word_at(t, 66)
            &&& o.ul_unicode_range1 == crate::bytes::dword_at(t, 42)
            &&& o.ul_unicode_range2 == crate::bytes::dword_at(t, 46)
            &&& o.ul_unicode_range3 == crate::bytes::dword_at(t, 50)
            &&& o.ul_unicode_range4 == crate::bytes::dword_at(t, 54)
            &&& o.ach_vend_id == crate::bytes::dword_at(t, 58)
            &&& o.panose == t.subrange(32, 42)
            &&& (o.data matches Some(m) ==> m.s_typo_ascender == crate::bytes::signed_word_at(t, 68) && m.s_typo_descender == crate::bytes::signed_word_at(t, 70) && m.s_typo_line_gap == crate::bytes::signed_word_at(t, 72) && m.us_win_ascent == crate::bytes::word_at(t, 74) && m.us_win_descent == crate::bytes::word_at(t, 76))
            &&& (o.data matches Some(m) ==> (m.extra_fields_v1 matches Some(v1) ==> v1.ul_code_page_range_1 == crate::bytes::dword_at(t, 78) && v1.ul_code_page_range_2 == crate::bytes::dword_at(t, 82)))
            &&& (o.data matches Some(m) ==> (m.extra_fields_v1 matches Some(v1) ==> (v1.extra_fields_v2 matches Some(v2) ==> v2.sx_height == crate::bytes::signed_word_at(t, 86) && v2.s_cap_height == crate::bytes::signed_word_at(t, 88) && v2.us_default_char == crate::bytes::word_at(t, 90) && v2.us_break_char == crate::bytes::word_at(t, 92) && v2.us_max_context == crate::bytes::word_at(t, 94) && (v2.extra_fields_v5 matches Some(v5) ==> v5.0 == crate::bytes::word_at(t, 96) && v5.1 == crate::bytes::word_at(t, 98)))))
        },
{
    if let Some((o, _)) = spec_os2_table(t, table_length) {
        crate::bytes::lemma_readers_spell(t, 2);
        crate::bytes::lemma_readers_spell(t, 10);
        crate::bytes::lemma_readers_spell(t, 12);
        crate::bytes::lemma_readers_spell(t, 14);
        crate::bytes::lemma_readers_spell(t, 16);
        crate::bytes::lemma_readers_spell(t, 18);
        crate::bytes::lemma_readers_spell(t, 20);
        crate::bytes::lemma_readers_spell(t, 22);
        crate::bytes::lemma_readers_spell(t, 24);
        crate::bytes::lemma_readers_spell(t, 26);
        crate::bytes::lemma_readers_spell(t, 28);
        crate::bytes::lemma_readers_spell(t, 30);
        crate::bytes::lemma_readers_spell(t, 0);
        crate::bytes::lemma_readers_spell(t, 4);
        crate::bytes::lemma_readers_spell(t, 6);
        crate::bytes::lemma_readers_spell(t, 8);
        crate::bytes::lemma_readers_spell(t, 62);
        crate::bytes::lemma_readers_spell(t, 64);
        crate::bytes::lemma_readers_spell(t, 66);
        crate::bytes::lemma_dword_spells(t, 42);
        crate::bytes::lemma_dword_spells(t, 46);
        crate::bytes::lemma_dword_spells(t, 50);
        crate::bytes::lemma_dword_spells(t, 54);
        crate::bytes::lemma_dword_spells(t, 58);
        if let Some(m) = o.data {
                crate::bytes::lemma_readers_spell(t, 68);
                crate::bytes::lemma_readers_spell(t, 70);
                crate::bytes::lemma_readers_spell(t, 72);
                crate::bytes::lemma_readers_spell(t, 74);
                crate::bytes::lemma_readers_spell(t, 76);
            if let Some(v1) = m.extra_fields_v1 {
                crate::bytes::lemma_dword_spells(t, 78);
                crate::bytes::lemma_dword_spells(t, 82);
                if let Some(v2) = v1.extra_fields_v2 {
                    crate::bytes::lemma_readers_spell(t, 86);
                    crate::bytes::lemma_readers_spell(t, 88);
                    crate::bytes::lemma_readers_spell(t, 90);
                    crate::bytes::lemma_readers_spell(t, 92);
                    crate::bytes::lemma_readers_spell(t, 94);
                    if let Some(v5) = v2.extra_fields_v5 {
                        crate::bytes::lemma_readers_spell(t, 96);
                        crate::bytes::lemma_readers_spell(t, 98);
                    }
                }
            }
        }
    }
}

/// Every field of a `post` header is the number its own bytes spell: the
/// version, italic angle, underline position and thickness, fixed pitch and
/// memory hints at 0 to 28; version 2 then gives a glyph count at 32 and
/// that many name index words from 34, and version 2.5 a count and signed
/// offset bytes.
pub proof fn lemma_post_fields(t: Seq<u8>, origin: int)
    ensures
        spec_post_table(t, origin) matches Some((p, _)) ==> {
            &&& p.version == crate::bytes::dword_at(t, 0)
            &&& p.italic_angle.0 == crate::bytes::dword_at(t, 4)
            &&& p.underline_position == crate::bytes::signed_word_at(t, 8)
            &&& p.underline_thickness == crate::bytes::signed_word_at(t, 10)
            &&& p.is_fixed_pitch == crate::bytes::dword_at(t, 12)
            &&& p.min_mem_type42 == crate::bytes::dword_at(t, 16)
            &&& p.max_mem_type42 == crate::bytes::dword_at(t, 20)
            &&& p.min_mem_type1 == crate::bytes::dword_at(t, 24)
            &&& p.max_mem_type1 == crate::bytes::dword_at(t, 28)
            &&& (p.names matches SpecPostNames::Version2 { num_glyphs, glyph_name_index, .. } ==> num_glyphs
                == crate::bytes::word_at(t, 32) && glyph_name_index.len() == num_glyphs && forall|i: int|
                0 <= i < num_glyphs ==> #[trigger] glyph_name_index[i] == crate::bytes::word_at(t, 34 + 2 * i))
            &&& (p.names matches SpecPostNames::Version2Dot5 { num_glyphs, offset } ==> num_glyphs == crate::bytes::word_at(
                t,
                32,
            ) && offset.len() == num_glyphs && forall|i: int|
                0 <= i < num_glyphs ==> #[trigger] offset[i] == crate::bytes::signed_byte(t[34 + i]))
        },
{
    if let Some((p, _)) = spec_post_table(t, origin) {
        crate::bytes::lemma_dword_spells(t, 0);
        crate::bytes::lemma_dword_spells(t, 4);
        crate::bytes::lemma_readers_spell(t, 8);
        crate::bytes::lemma_readers_spell(t, 10);
        crate::bytes::lemma_dword_spells(t, 12);
        crate::bytes::lemma_dword_spells(t, 16);
        crate::bytes::lemma_dword_spells(t, 20);
        crate::bytes::lemma_dword_spells(t, 24);
        crate::bytes::lemma_dword_spells(t, 28);
        if p.names is Version2 || p.names is Version2Dot5 {
            crate::bytes::lemma_readers_spell(t, 32);
        }
        if let SpecPostNames::Version2 { num_glyphs, glyph_name_index, .. } = p.names {
            assert forall|i: int| 0 <= i < num_glyphs implies #[trigger] glyph_name_index[i] == crate::bytes::word_at(t, 34 + 2 * i) by {
                crate::bytes::lemma_readers_spell(t, 34 + 2 * i);
            }
        }
    }
}

/// Each gasp behaviour flag is set exactly when its bit is: bit 0 grid fit,
/// 1 grey, and for version 1 also 2 symmetric grid fit and 3 symmetric
/// smoothing; range `i` has its maximum size and flags as the words at
/// `4 + 4 * i` and `6 + 4 * i`.
pub proof fn lemma_gasp_fields(t: Seq<u8>, raw: u16, version: u16)
    ensures
        gasp_behavior(raw, version) matches GaspBehavior::Version0 { dogray, gridfit } ==> version == 0
            && dogray == (raw & 2 != 0) && gridfit == (raw & 1 != 0),
        gasp_behavior(raw, version) matches GaspBehavior::Version1 {
            symmetric_smoothing,
            symmetric_gridfit,
            dogray,
            gridfit,
        } ==> version != 0 && symmetric_smoothing == (raw & 8 != 0) && symmetric_gridfit == (raw & 4 != 0)
            && dogray == (raw & 2 != 0) && gridfit == (raw & 1 != 0),
        spec_gasp_table(t) matches Some((g, _)) ==> g.version == crate::bytes::word_at(t, 0) && g.num_ranges == crate::bytes::word_at(t, 2)
            && forall|i: int|
            0 <= i < g.num_ranges ==> (#[trigger] g.gasp_ranges[i]).range_max_ppem == crate::bytes::word_at(t, 4 + 4 * i)
                && g.gasp_ranges[i].range_gasp_behavior == gasp_behavior(
                crate::bytes::word_at(t, 6 + 4 * i) as u16,
                g.version,
            ),
{
    assert({
        &&& (raw % 2 == 1) == (raw & 1 != 0)
        &&& ((raw / 2) % 2 == 1) == (raw & 2 != 0)
        &&& ((raw / 4) % 2 == 1) == (raw & 4 != 0)
        &&& ((raw / 8) % 2 == 1) == (raw & 8 != 0)
    }) by (bit_vector);
    if let Some((g, _)) = spec_gasp_table(t) {
        crate::bytes::lemma_readers_spell(t, 0);
        crate::bytes::lemma_readers_spell(t, 2);
        assert forall|i: int| 0 <= i < g.num_ranges implies (#[trigger] g.gasp_ranges[i]).range_max_ppem
            == crate::bytes::word_at(t, 4 + 4 * i) && g.gasp_ranges[i].range_gasp_behavior == gasp_behavior(
            crate::bytes::word_at(t, 6 + 4 * i) as u16,
            g.version,
        ) by {
            crate::bytes::lemma_readers_spell(t, 4 + 4 * i);
            crate::bytes::lemma_readers_spell(t, 6 + 4 * i);
        }
    }
}

/// The control values are the signed words of the table, one per two
/// bytes.
pub proof fn lemma_cvt_values(t: Seq<u8>)
    ensures
        spec_cvt_table(t).len() == t.len() / 2,
        forall|i: int| 0 <= i < t.len() / 2 ==> #[trigger] spec_cvt_table(t)[i] == crate::bytes::signed_word_at(t, 2 * i),
{
    assert forall|i: int| 0 <= i < t.len() / 2 implies #[trigger] spec_cvt_table(t)[i] == crate::bytes::signed_word_at(t, 2 * i) by {
        crate::bytes::lemma_readers_spell(t, 2 * i);
    }
}

} // verus!
