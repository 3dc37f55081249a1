//! A reading of OpenType files that resolves only the style attributes
//! table (`STAT`), and reads that table as raw arrays: the design-axis
//! records as bytes and the axis-value offsets as numbers, both found at
//! their offsets from the start of the table without following them
//! further. The rest of the file after the directory is skipped.
use vstd::prelude::*;
use crate::bytes::{agrees, avail, get_u16be, get_u32be, has_bytes, u16_at, u32_at};
use crate::opentype::cmap::{read_u16s, u16s_at};
use crate::opentype::directory::{
    find_table, is_sfnt_version, is_sfnt_version_exec, optional_table, table_record_at, table_records, tag,
    TableRecord,
};
use crate::opentype::links::{Link32, offset32, spec_offset32};
use crate::opentype::tables::{spec_optional_bytes, TAG_STAT};
use vstd::slice::{slice_subrange, slice_to_vec};

verus! {

/// The `STAT` table with its arrays left raw.
#[derive(Clone, Debug, PartialEq, Eq)]
pub struct StatTableRaw {
    pub major_version: u16,
    pub minor_version: u16,
    pub design_axis_size: u16,
    pub design_axis_count: u16,
    pub design_axes_offset: u32,
    pub design_axes_array: Vec<u8>,
    pub axis_value_count: u16,
    pub offset_to_axis_value_offsets: u32,
    pub axis_value_offsets: Vec<u16>,
    pub elided_fallback_name_id: u16,
}

/// Mathematical form of `StatTableRaw`.
pub struct SpecStatTableRaw {
    pub major_version: u16,
    pub minor_version: u16,
    pub design_axis_size: u16,
    pub design_axis_count: u16,
    pub design_axes_offset: u32,
    pub design_axes_array: Seq<u8>,
    pub axis_value_count: u16,
    pub offset_to_axis_value_offsets: u32,
    pub axis_value_offsets: Seq<u16>,
    pub elided_fallback_name_id: u16,
}

impl View for StatTableRaw {
    type V = SpecStatTableRaw;

    open spec fn view(&self) -> SpecStatTableRaw {
        SpecStatTableRaw {
            major_version: self.major_version,
            minor_version: self.minor_version,
            design_axis_size: self.design_axis_size,
            design_axis_count: self.design_axis_count,
            design_axes_offset: self.design_axes_offset,
            design_axes_array: self.design_axes_array@,
            axis_value_count: self.axis_value_count,
            offset_to_axis_value_offsets: self.offset_to_axis_value_offsets,
            axis_value_offsets: self.axis_value_offsets@,
            elided_fallback_name_id: self.elided_fallback_name_id,
        }
    }
}

/// The `STAT` table held in `t`, read raw: major version 1, minor version 1
/// or 2, the design-axis size and count, the 32-bit offset of the design
/// axes, the axis-value count, the 32-bit offset of the axis-value offsets
/// and the elided fallback name id, twenty bytes in all. The design axes are
/// the `size * count` bytes (a product that must fit in 16 bits) at their
/// offset from the start of the table, and the axis-value offsets the
/// `count` big-endian 16-bit numbers at theirs, both within `t`.
pub open spec fn spec_stat_table_raw(t: Seq<u8>) -> Option<(SpecStatTableRaw, int)> {
    if !avail(t, 0, 20) || u16_at(t, 0) != 1 || !(u16_at(t, 2) == 1 || u16_at(t, 2) == 2) {
        None
    } else {
        let size = u16_at(t, 4);
        let count = u16_at(t, 6);
        let axes_off = u32_at(t, 8);
        let len = size * count;
        let n = u16_at(t, 12);
        let values_off = u32_at(t, 14);
        if len > 0xffff || !avail(t, axes_off as int, len) || !avail(t, values_off as int, 2 * n) {
            None
        } else {
            Some((SpecStatTableRaw {
                major_version: 1,
                minor_version: u16_at(t, 2),
                design_axis_size: size,
                design_axis_count: count,
                design_axes_offset: axes_off,
                design_axes_array: t.subrange(axes_off as int, axes_off + len),
                axis_value_count: n,
                offset_to_axis_value_offsets: values_off,
                axis_value_offsets: u16s_at(t, values_off as int, n as int),
                elided_fallback_name_id: u16_at(t, 18),
            }, 20))
        }
    }
}

/// Parses the `STAT` table `t` raw.
pub fn stat_table_raw(t: &[u8]) -> (r: Option<(StatTableRaw, usize)>)
    ensures
        agrees(r, spec_stat_table_raw(t@)),
{
    if !has_bytes(t, 0, 20) {
        return None;
    }
    let minor = get_u16be(t, 2);
    if get_u16be(t, 0) != 1 || !(minor == 1 || minor == 2) {
        return None;
    }
    let size = get_u16be(t, 4);
    let count = get_u16be(t, 6);
    let axes_off = get_u32be(t, 8);
    let n = get_u16be(t, 12);
    let values_off = get_u32be(t, 14);
    assert((size as u32) * (count as u32) <= 0xffff * 0xffff) by (nonlinear_arith)
        requires
            size <= 0xffff,
            count <= 0xffff,
    ;
    let len = (size as u32) * (count as u32);
    if len > 0xffff || !has_bytes(t, axes_off as usize, len as usize) || !has_bytes(
        t,
        values_off as usize,
        2 * (n as usize),
    ) {
        return None;
    }
    let a = axes_off as usize;
    let design_axes_array = slice_to_vec(slice_subrange(t, a, a + len as usize));
    let axis_value_offsets = read_u16s(t, values_off as usize, n as usize);
    let v = StatTableRaw {
        major_version: 1,
        minor_version: minor,
        design_axis_size: size,
        design_axis_count: count,
        design_axes_offset: axes_off,
        design_axes_array,
        axis_value_count: n,
        offset_to_axis_value_offsets: values_off,
        axis_value_offsets,
        elided_fallback_name_id: get_u16be(t, 18),
    };
    Some((v, 20))
}

/// A raw `STAT` table holds `size * count` bytes of design axes and one
/// axis-value offset per counted value.
pub proof fn lemma_stat_raw_sizes(t: Seq<u8>)
    ensures
        spec_stat_table_raw(t) matches Some((v, e)) ==> e == 20 && v.design_axes_array.len()
            == v.design_axis_size * v.design_axis_count && v.axis_value_offsets.len() == v.axis_value_count,
{
}

/// A raw `STAT` table's header fields are its own bytes: the minor version,
/// design-axis size and count words at 2, 4 and 6, the design-axes offset
/// double word at 8, the axis-value count word at 12, the offset of the
/// axis-value offsets (a double word) at 14 and the elided fallback name id
/// at 18; the design axes are the bytes from their offset on, and offset
/// `i` is the word at the array's offset plus `2 * i`.
pub proof fn lemma_stat_raw_fields(t: Seq<u8>)
    ensures
        spec_stat_table_raw(t) matches Some((v, _)) ==> {
            &&& crate::bytes::word_at(t, 0) == 1 && v.major_version == 1
            &&& v.minor_version == crate::bytes::word_at(t, 2)
            &&& v.design_axis_size == crate::bytes::word_at(t, 4)
            &&& v.design_axis_count == crate::bytes::word_at(t, 6)
            &&& v.design_axes_offset == crate::bytes::dword_at(t, 8)
            &&& v.axis_value_count == crate::bytes::word_at(t, 12)
            &&& v.offset_to_axis_value_offsets == crate::bytes::dword_at(t, 14)
            &&& v.elided_fallback_name_id == crate::bytes::word_at(t, 18)
            &&& v.design_axes_array == t.subrange(
                v.design_axes_offset as int,
                v.design_axes_offset + v.design_axis_size * v.design_axis_count,
            )
            &&& forall|i: int|
                0 <= i < v.axis_value_count ==> #[trigger] v.axis_value_offsets[i] == crate::bytes::word_at(
                    t,
                    v.offset_to_axis_value_offsets + 2 * i,
                )
        },
{
    if let Some((v, _)) = spec_stat_table_raw(t) {
        crate::bytes::lemma_readers_spell(t, 0);
        crate::bytes::lemma_readers_spell(t, 2);
        crate::bytes::lemma_readers_spell(t, 4);
        crate::bytes::lemma_readers_spell(t, 6);
        crate::bytes::lemma_dword_spells(t, 8);
        crate::bytes::lemma_readers_spell(t, 12);
        crate::bytes::lemma_dword_spells(t, 14);
        crate::bytes::lemma_readers_spell(t, 18);
        assert forall|i: int| 0 <= i < v.axis_value_count implies #[trigger] v.axis_value_offsets[i]
            == crate::bytes::word_at(t, v.offset_to_axis_value_offsets + 2 * i) by {
            crate::bytes::lemma_readers_spell(t, v.offset_to_axis_value_offsets + 2 * i);
        }
    }
}


/// The tables that this reading resolves: only `STAT`.
#[derive(Clone, Debug, PartialEq, Eq)]
pub struct StatOnlyLinks {
    pub stat: Option<StatTableRaw>,
}

/// Mathematical form of `StatOnlyLinks`.
pub struct SpecStatOnlyLinks {
    pub stat: Option<SpecStatTableRaw>,
}

impl View for StatOnlyLinks {
    type V = SpecStatOnlyLinks;

    open spec fn view(&self) -> SpecStatOnlyLinks {
        SpecStatOnlyLinks {
            stat: match &self.stat {
                Some(v) => Some(v@),
                None => None,
            },
        }
    }
}

/// The `STAT` table of the font whose directory, read up to `here`, holds
/// `recs`: none when no record has its tag; failure when its bytes cannot be
/// had or do not read as a raw `STAT` table.
pub open spec fn spec_stat_only_links(s: Seq<u8>, font_start: int, here: int, recs: Seq<TableRecord>) -> Option<
    SpecStatOnlyLinks,
> {
    match spec_optional_bytes(s, font_start, here, recs, TAG_STAT) {
        None => None,
        Some(None) => Some(SpecStatOnlyLinks { stat: None }),
        Some(Some(b)) => match spec_stat_table_raw(b) {
            None => None,
            Some((v, _)) => Some(SpecStatOnlyLinks { stat: Some(v) }),
        },
    }
}

/// Resolves the `STAT` table of a font.
pub fn stat_only_links(s: &[u8], font_start: usize, here: usize, recs: &[TableRecord]) -> (r: Option<
    StatOnlyLinks,
>)
    ensures
        match r {
            Some(l) => spec_stat_only_links(s@, font_start as int, here as int, recs@) == Some(l@),
            None => spec_stat_only_links(s@, font_start as int, here as int, recs@) is None,
        },
{
    match optional_table(s, font_start, here, recs, TAG_STAT) {
        None => None,
        Some(None) => Some(StatOnlyLinks { stat: None }),
        Some(Some(b)) => match stat_table_raw(b) {
            None => None,
            Some((v, _)) => Some(StatOnlyLinks { stat: Some(v) }),
        },
    }
}

/// A table directory whose only resolved table is `STAT`.
#[derive(Clone, Debug, PartialEq, Eq)]
pub struct StatOnlyDirectory {
    pub sfnt_version: u32,
    pub num_tables: u16,
    pub search_range: u16,
    pub entry_selector: u16,
    pub range_shift: u16,
    pub table_records: Vec<TableRecord>,
    pub table_links: StatOnlyLinks,
}

/// Mathematical form of `StatOnlyDirectory`.
pub struct SpecStatOnlyDirectory {
    pub sfnt_version: u32,
    pub num_tables: u16,
    pub search_range: u16,
    pub entry_selector: u16,
    pub range_shift: u16,
    pub table_records: Seq<TableRecord>,
    pub table_links: SpecStatOnlyLinks,
}

impl View for StatOnlyDirectory {
    type V = SpecStatOnlyDirectory;

    open spec fn view(&self) -> SpecStatOnlyDirectory {
        SpecStatOnlyDirectory {
            sfnt_version: self.sfnt_version,
            num_tables: self.num_tables,
            search_range: self.search_range,
            entry_selector: self.entry_selector,
            range_shift: self.range_shift,
            table_records: self.table_records@,
            table_links: self.table_links@,
        }
    }
}

/// The table directory at `pos` of a font whose offsets are relative to
/// `font_start`: the header with an accepted version, the table records,
/// and the `STAT` table; everything after the records is then skipped, so
/// the reading ends at the end of `s`.
pub open spec fn spec_stat_only_directory(s: Seq<u8>, pos: int, font_start: int) -> Option<
    (SpecStatOnlyDirectory, int),
> {
    if !avail(s, pos, 12) || !is_sfnt_version(u32_at(s, pos)) {
        None
    } else {
        let n = u16_at(s, pos + 4);
        if !avail(s, pos + 12, 16 * n) {
            None
        } else {
            let recs = Seq::new(n as nat, |i: int| table_record_at(s, pos + 12 + 16 * i));
            match spec_stat_only_links(s, font_start, pos + 12 + 16 * n, recs) {
                None => None,
                Some(links) => Some((SpecStatOnlyDirectory {
                    sfnt_version: u32_at(s, pos),
                    num_tables: n,
                    search_range: u16_at(s, pos + 6),
                    entry_selector: u16_at(s, pos + 8),
                    range_shift: u16_at(s, pos + 10),
                    table_records: recs,
                    table_links: links,
                }, s.len() as int)),
            }
        }
    }
}

/// Parses a table directory at `pos` resolving only `STAT`.
pub fn stat_only_directory(s: &[u8], pos: usize, font_start: usize) -> (r: Option<
    (StatOnlyDirectory, usize),
>)
    ensures
        agrees(r, spec_stat_only_directory(s@, pos as int, font_start as int)),
{
    if !has_bytes(s, pos, 12) {
        return None;
    }
    let version = get_u32be(s, pos);
    if !is_sfnt_version_exec(version) {
        return None;
    }
    let n = get_u16be(s, pos + 4);
    let start = pos + 12;
    if !has_bytes(s, start, 16 * (n as usize)) {
        return None;
    }
    let recs = table_records(s, start, n);
    assert(recs@ =~= Seq::new(n as nat, |i: int| table_record_at(s@, pos + 12 + 16 * i)));
    let links = match stat_only_links(s, font_start, start + 16 * (n as usize), recs.as_slice()) {
        Some(l) => l,
        None => return None,
    };
    let dir = StatOnlyDirectory {
        sfnt_version: version,
        num_tables: n,
        search_range: get_u16be(s, pos + 6),
        entry_selector: get_u16be(s, pos + 8),
        range_shift: get_u16be(s, pos + 10),
        table_records: recs,
        table_links: links,
    };
    Some((dir, s.len()))
}

/// The version-dependent part of a collection header read this way.
#[derive(Clone, Debug, PartialEq, Eq)]
pub enum StatOnlyTtcVersion {
    Version1 { num_fonts: u32, table_directories: Vec<Link32<StatOnlyDirectory>> },
    Version2 {
        num_fonts: u32,
        table_directories: Vec<Link32<StatOnlyDirectory>>,
        dsig_tag: u32,
        dsig_length: u32,
        dsig_offset: u32,
    },
    UnknownVersion(u16),
}

/// Mathematical form of `StatOnlyTtcVersion`.
pub enum SpecStatOnlyTtcVersion {
    Version1 { num_fonts: u32, table_directories: Seq<Link32<SpecStatOnlyDirectory>> },
    Version2 {
        num_fonts: u32,
        table_directories: Seq<Link32<SpecStatOnlyDirectory>>,
        dsig_tag: u32,
        dsig_length: u32,
        dsig_offset: u32,
    },
    UnknownVersion(u16),
}

/// A collection header read this way.
#[derive(Clone, Debug, PartialEq, Eq)]
pub struct StatOnlyTtcHeader {
    pub ttc_tag: u32,
    pub major_version: u16,
    pub minor_version: u16,
    pub header: StatOnlyTtcVersion,
}

/// Mathematical form of `StatOnlyTtcHeader`.
pub struct SpecStatOnlyTtcHeader {
    pub ttc_tag: u32,
    pub major_version: u16,
    pub minor_version: u16,
    pub header: SpecStatOnlyTtcVersion,
}

/// The views of a sequence of linked directories.
pub open spec fn stat_dirs_view(v: Seq<Link32<StatOnlyDirectory>>) -> Seq<Link32<SpecStatOnlyDirectory>> {
    v.map_values(|l: Link32<StatOnlyDirectory>| l@)
}

impl View for StatOnlyTtcHeader {
    type V = SpecStatOnlyTtcHeader;

    open spec fn view(&self) -> SpecStatOnlyTtcHeader {
        SpecStatOnlyTtcHeader {
            ttc_tag: self.ttc_tag,
            major_version: self.major_version,
            minor_version: self.minor_version,
            header: match &self.header {
                StatOnlyTtcVersion::Version1 { num_fonts, table_directories } => {
                    SpecStatOnlyTtcVersion::Version1 {
                        num_fonts: *num_fonts,
                        table_directories: stat_dirs_view(table_directories@),
                    }
                },
                StatOnlyTtcVersion::Version2 {
                    num_fonts,
                    table_directories,
                    dsig_tag,
                    dsig_length,
                    dsig_offset,
                } => SpecStatOnlyTtcVersion::Version2 {
                    num_fonts: *num_fonts,
                    table_directories: stat_dirs_view(table_directories@),
                    dsig_tag: *dsig_tag,
                    dsig_length: *dsig_length,
                    dsig_offset: *dsig_offset,
                },
                StatOnlyTtcVersion::UnknownVersion(v) => SpecStatOnlyTtcVersion::UnknownVersion(*v),
            },
        }
    }
}

/// Entry `i` of the font offsets at `p` of a collection starting at
/// `start`, with the directory it leads to.
pub open spec fn stat_dir_link(s: Seq<u8>, start: int, p: int, i: int) -> Option<
    Link32<SpecStatOnlyDirectory>,
> {
    match spec_offset32(s, start, p + 4 * i) {
        None => None,
        Some(((off, None), _)) => Some(Link32 { offset: off, link: None }),
        Some(((off, Some(x)), _)) => match spec_stat_only_directory(s, x, start) {
            Some((d, _)) => Some(Link32 { offset: off, link: Some(d) }),
            None => None,
        },
    }
}

/// The `n` font offsets at `p` and the directories they lead to.
pub open spec fn spec_stat_dirs(s: Seq<u8>, start: int, p: int, n: int) -> Option<
    (Seq<Link32<SpecStatOnlyDirectory>>, int),
> {
    if 0 <= n && avail(s, p, 4 * n) && forall|i: int|
        0 <= i < n ==> #[trigger] stat_dir_link(s, start, p, i) is Some {
        Some((Seq::new(n as nat, |i: int| stat_dir_link(s, start, p, i).unwrap()), p + 4 * n))
    } else {
        None
    }
}

/// A collection header at `start`: the `ttcf` tag, the version, and for
/// versions 1 and 2 the linked directories (and for version 2 the
/// digital-signature fields); the rest of `s` is then skipped.
pub open spec fn spec_stat_only_ttc_header(s: Seq<u8>, start: int) -> Option<(SpecStatOnlyTtcHeader, int)> {
    if !avail(s, start, 8) || u32_at(s, start) != tag('t', 't', 'c', 'f') {
        None
    } else {
        let major = u16_at(s, start + 4);
        let minor = u16_at(s, start + 6);
        let p = start + 8;
        let head = |h: SpecStatOnlyTtcVersion|
            Some((SpecStatOnlyTtcHeader {
                ttc_tag: u32_at(s, start),
                major_version: major,
                minor_version: minor,
                header: h,
            }, s.len() as int));
        if major == 1 || major == 2 {
            if !avail(s, p, 4) {
                None
            } else {
                let n = u32_at(s, p);
                match spec_stat_dirs(s, start, p + 4, n as int) {
                    None => None,
                    Some((dirs, e)) => if major == 1 {
                        head(SpecStatOnlyTtcVersion::Version1 { num_fonts: n, table_directories: dirs })
                    } else if avail(s, e, 12) {
                        head(
                            SpecStatOnlyTtcVersion::Version2 {
                                num_fonts: n,
                                table_directories: dirs,
                                dsig_tag: u32_at(s, e),
                                dsig_length: u32_at(s, e + 4),
                                dsig_offset: u32_at(s, e + 8),
                            },
                        )
                    } else {
                        None
                    },
                }
            }
        } else {
            head(SpecStatOnlyTtcVersion::UnknownVersion(major))
        }
    }
}

fn stat_dirs(s: &[u8], start: usize, p: usize, n: u32) -> (r: Option<
    (Vec<Link32<StatOnlyDirectory>>, usize),
>)
    ensures
        match r {
            Some((v, e)) => spec_stat_dirs(s@, start as int, p as int, n as int) == Some(
                (stat_dirs_view(v@), e as int),
            ),
            None => spec_stat_dirs(s@, start as int, p as int, n as int) is None,
        },
{
    if p > s.len() || (n as usize) > (s.len() - p) / 4 {
        return None;
    }
    assert(avail(s@, p as int, 4 * n));
    let mut v: Vec<Link32<StatOnlyDirectory>> = Vec::new();
    let mut i: usize = 0;
    while i < n as usize
        invariant
            0 <= i <= n,
            avail(s@, p as int, 4 * n),
            s@.len() <= usize::MAX,
            forall|j: int| 0 <= j < i ==> #[trigger] stat_dir_link(s@, start as int, p as int, j) is Some,
            stat_dirs_view(v@) =~= Seq::new(
                i as nat,
                |j: int| stat_dir_link(s@, start as int, p as int, j).unwrap(),
            ),
        decreases n - i,
    {
        let (off, target, _) = match offset32(s, start, p + 4 * i) {
            Some(r) => r,
            None => {
                assert(stat_dir_link(s@, start as int, p as int, i as int) is None);
                return None;
            },
        };
        let link = match target {
            None => None,
            Some(x) => match stat_only_directory(s, x, start) {
                Some((d, _)) => Some(d),
                None => {
                    assert(stat_dir_link(s@, start as int, p as int, i as int) is None);
                    return None;
                },
            },
        };
        let ghost old_v = v@;
        let entry = Link32 { offset: off, link };
        assert(stat_dir_link(s@, start as int, p as int, i as int) == Some(entry@));
        v.push(entry);
        assert(stat_dirs_view(v@) =~= stat_dirs_view(old_v).push(entry@));
        i = i + 1;
        assert(stat_dirs_view(v@) =~= Seq::new(
            i as nat,
            |j: int| stat_dir_link(s@, start as int, p as int, j).unwrap(),
        ));
    }
    Some((v, p + 4 * (n as usize)))
}

/// Parses a collection header at `start`, resolving only `STAT` in its
/// fonts.
pub fn stat_only_ttc_header(s: &[u8], start: usize) -> (r: Option<(StatOnlyTtcHeader, usize)>)
    ensures
        agrees(r, spec_stat_only_ttc_header(s@, start as int)),
{
    if !has_bytes(s, start, 8) {
        return None;
    }
    let ttcf: [u8; 4] = [0x74, 0x74, 0x63, 0x66];
    let ttc_tag = get_u32be(s, start);
    if ttc_tag != crate::bytes::magic(&ttcf) {
        return None;
    }
    let major = get_u16be(s, start + 4);
    let minor = get_u16be(s, start + 6);
    let p = start + 8;
    let header = if major == 1 || major == 2 {
        if !has_bytes(s, p, 4) {
            return None;
        }
        let n = get_u32be(s, p);
        let (dirs, e) = match stat_dirs(s, start, p + 4, n) {
            Some(r) => r,
            None => return None,
        };
        if major == 1 {
            StatOnlyTtcVersion::Version1 { num_fonts: n, table_directories: dirs }
        } else if has_bytes(s, e, 12) {
            StatOnlyTtcVersion::Version2 {
                num_fonts: n,
                table_directories: dirs,
                dsig_tag: get_u32be(s, e),
                dsig_length: get_u32be(s, e + 4),
                dsig_offset: get_u32be(s, e + 8),
            }
        } else {
            return None;
        }
    } else {
        StatOnlyTtcVersion::UnknownVersion(major)
    };
    Some((StatOnlyTtcHeader { ttc_tag, major_version: major, minor_version: minor, header }, s.len()))
}

/// What an OpenType file starts with, read resolving only `STAT`.
#[derive(Clone, Debug, PartialEq, Eq)]
pub enum StatOnlyFont {
    TableDirectory(StatOnlyDirectory),
    TtcHeader(StatOnlyTtcHeader),
}

/// Mathematical form of `StatOnlyFont`.
pub enum SpecStatOnlyFont {
    TableDirectory(SpecStatOnlyDirectory),
    TtcHeader(SpecStatOnlyTtcHeader),
}

impl View for StatOnlyFont {
    type V = SpecStatOnlyFont;

    open spec fn view(&self) -> SpecStatOnlyFont {
        match self {
            StatOnlyFont::TableDirectory(d) => SpecStatOnlyFont::TableDirectory(d@),
            StatOnlyFont::TtcHeader(h) => SpecStatOnlyFont::TtcHeader(h@),
        }
    }
}

/// An OpenType file read resolving only `STAT`: the leading `u32` is
/// peeked; a font version leads to a table directory, `ttcf` to a
/// collection header, and anything else is not OpenType.
pub open spec fn spec_stat_only_font(s: Seq<u8>) -> Option<(SpecStatOnlyFont, int)> {
    if !avail(s, 0, 4) {
        None
    } else if is_sfnt_version(u32_at(s, 0)) {
        match spec_stat_only_directory(s, 0, 0) {
            Some((d, e)) => Some((SpecStatOnlyFont::TableDirectory(d), e)),
            None => None,
        }
    } else if u32_at(s, 0) == tag('t', 't', 'c', 'f') {
        match spec_stat_only_ttc_header(s, 0) {
            Some((h, e)) => Some((SpecStatOnlyFont::TtcHeader(h), e)),
            None => None,
        }
    } else {
        None
    }
}

/// Parses an OpenType file resolving only its `STAT` table.
pub fn stat_only_font(s: &[u8]) -> (r: Option<(StatOnlyFont, usize)>)
    ensures
        agrees(r, spec_stat_only_font(s@)),
{
    if !has_bytes(s, 0, 4) {
        return None;
    }
    let magic = get_u32be(s, 0);
    let ttcf: [u8; 4] = [0x74, 0x74, 0x63, 0x66];
    if is_sfnt_version_exec(magic) {
        match stat_only_directory(s, 0, 0) {
            Some((d, e)) => Some((StatOnlyFont::TableDirectory(d), e)),
            None => None,
        }
    } else if magic == crate::bytes::magic(&ttcf) {
        match stat_only_ttc_header(s, 0) {
            Some((h, e)) => Some((StatOnlyFont::TtcHeader(h), e)),
            None => None,
        }
    } else {
        None
    }
}

/// Read this way, a font or collection is always read to the end of the
/// file, and a font's `STAT` table is resolved exactly when its directory
/// lists one.
pub proof fn lemma_stat_only_reads_to_end(s: Seq<u8>, pos: int, font_start: int)
    ensures
        spec_stat_only_font(s) matches Some((_, e)) ==> e == s.len(),
        spec_stat_only_directory(s, pos, font_start) matches Some((d, e)) ==> e == s.len() && (
        d.table_links.stat is Some <==> find_table(d.table_records, TAG_STAT) is Some),
{
}

} // verus!
