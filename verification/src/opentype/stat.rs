//! The `STAT` (style attributes) table.
//!
//! The table is parsed from its own bytes: positions are relative to the
//! start of the table.
use vstd::prelude::*;
use crate::bytes::{agrees, avail, get_u16be, get_u32be, has_bytes, u16_at, u32_at};
use crate::opentype::links::{Link16, Link32, offset16_mandatory, offset32, spec_offset16, spec_offset32};
use crate::opentype::values::{
    Fixed32, expect_u16be, expects_u16be, spec_expect_u16be, spec_expects_u16be, spec_u16be_between,
    u16be_between,
};

verus! {

/// A design-axis record: the axis tag, the name-table id of its name, and
/// its ordering among the axes.
#[derive(Clone, Copy, Debug, PartialEq, Eq)]
pub struct AxisRecord {
    pub axis_tag: u32,
    pub axis_name_id: u16,
    pub axis_ordering: u16,
}

/// The two defined bits of an axis-value table's flags.
#[derive(Clone, Copy, Debug, PartialEq, Eq)]
pub struct AxisValueFlags {
    /// Bit 1: the value is the axis's "normal" one and may be omitted from names.
    pub elidable_axis_value_name: bool,
    /// Bit 0: the value describes previously released fonts of the family.
    pub older_sibling_font_attribute: bool,
}

/// An `(axis, value)` pair of a format 4 axis-value table.
#[derive(Clone, Copy, Debug, PartialEq, Eq)]
pub struct AxisValue {
    pub axis_index: u16,
    pub value: Fixed32,
}

/// The body of an axis-value table, by its format.
#[derive(Clone, Debug, PartialEq, Eq)]
pub enum AxisValueData {
    Format1 { axis_index: u16, flags: AxisValueFlags, value_name_id: u16, value: Fixed32 },
    Format2 {
        axis_index: u16,
        flags: AxisValueFlags,
        value_name_id: u16,
        nominal_value: Fixed32,
        range_min_value: Fixed32,
        range_max_value: Fixed32,
    },
    Format3 {
        axis_index: u16,
        flags: AxisValueFlags,
        value_name_id: u16,
        value: Fixed32,
        linked_value: Fixed32,
    },
    Format4 { axis_count: u16, flags: AxisValueFlags, value_name_id: u16, axis_values: Vec<AxisValue> },
}

/// An axis-value table: its format (1 to 4) and its body.
#[derive(Clone, Debug, PartialEq, Eq)]
pub struct AxisValueTable {
    pub format: u16,
    pub data: AxisValueData,
}

/// Mathematical form of `AxisValueData`.
pub enum SpecAxisValueData {
    Format1 { axis_index: u16, flags: AxisValueFlags, value_name_id: u16, value: Fixed32 },
    Format2 {
        axis_index: u16,
        flags: AxisValueFlags,
        value_name_id: u16,
        nominal_value: Fixed32,
        range_min_value: Fixed32,
        range_max_value: Fixed32,
    },
    Format3 {
        axis_index: u16,
        flags: AxisValueFlags,
        value_name_id: u16,
        value: Fixed32,
        linked_value: Fixed32,
    },
    Format4 { axis_count: u16, flags: AxisValueFlags, value_name_id: u16, axis_values: Seq<AxisValue> },
}

/// Mathematical form of `AxisValueTable`.
pub struct SpecAxisValueTable {
    pub format: u16,
    pub data: SpecAxisValueData,
}

impl View for AxisValueData {
    type V = SpecAxisValueData;

    open spec fn view(&self) -> SpecAxisValueData {
        match *self {
            AxisValueData::Format1 { axis_index, flags, value_name_id, value } => {
                SpecAxisValueData::Format1 { axis_index, flags, value_name_id, value }
            },
            AxisValueData::Format2 {
                axis_index,
                flags,
                value_name_id,
                nominal_value,
                range_min_value,
                range_max_value,
            } => SpecAxisValueData::Format2 {
                axis_index,
                flags,
                value_name_id,
                nominal_value,
                range_min_value,
                range_max_value,
            },
            AxisValueData::Format3 { axis_index, flags, value_name_id, value, linked_value } => {
                SpecAxisValueData::Format3 { axis_index, flags, value_name_id, value, linked_value }
            },
            AxisValueData::Format4 { axis_count, flags, value_name_id, axis_values } => {
                SpecAxisValueData::Format4 {
                    axis_count,
                    flags,
                    value_name_id,
                    axis_values: axis_values@,
                }
            },
        }
    }
}

impl View for AxisValueTable {
    type V = SpecAxisValueTable;

    open spec fn view(&self) -> SpecAxisValueTable {
        SpecAxisValueTable { format: self.format, data: self.data@ }
    }
}

/// The array of axis-value offsets: its position in the file, against
/// which its offsets count, and the offsets with the tables they lead to.
#[derive(Clone, Debug, PartialEq, Eq)]
pub struct AxisValueOffsets {
    pub table_start: usize,
    pub axis_value_offsets: Vec<Link16<AxisValueTable>>,
}

/// Mathematical form of `AxisValueOffsets`.
pub struct SpecAxisValueOffsets {
    pub table_start: usize,
    pub axis_value_offsets: Seq<Link16<SpecAxisValueTable>>,
}

/// The whole `STAT` table, with its position in the file.
#[derive(Clone, Debug, PartialEq, Eq)]
pub struct StatTable {
    pub table_start: usize,
    pub major_version: u16,
    pub minor_version: u16,
    pub design_axis_size: u16,
    pub design_axis_count: u16,
    pub design_axes_offset: Link32<Vec<AxisRecord>>,
    pub axis_value_count: u16,
    pub offset_to_axis_value_offsets: Link32<AxisValueOffsets>,
    pub elided_fallback_name_id: u16,
}

/// Mathematical form of `StatTable`.
pub struct SpecStatTable {
    pub table_start: usize,
    pub major_version: u16,
    pub minor_version: u16,
    pub design_axis_size: u16,
    pub design_axis_count: u16,
    pub design_axes_offset: Link32<Seq<AxisRecord>>,
    pub axis_value_count: u16,
    pub offset_to_axis_value_offsets: Link32<SpecAxisValueOffsets>,
    pub elided_fallback_name_id: u16,
}

/// The views of a sequence of axis-value links.
pub open spec fn links_view(v: Seq<Link16<AxisValueTable>>) -> Seq<Link16<SpecAxisValueTable>> {
    v.map_values(|l: Link16<AxisValueTable>| l@)
}

impl View for StatTable {
    type V = SpecStatTable;

    open spec fn view(&self) -> SpecStatTable {
        SpecStatTable {
            table_start: self.table_start,
            major_version: self.major_version,
            minor_version: self.minor_version,
            design_axis_size: self.design_axis_size,
            design_axis_count: self.design_axis_count,
            design_axes_offset: self.design_axes_offset@,
            axis_value_count: self.axis_value_count,
            offset_to_axis_value_offsets: Link32 {
                offset: self.offset_to_axis_value_offsets.offset,
                link: match &self.offset_to_axis_value_offsets.link {
                    Some(v) => Some(
                        SpecAxisValueOffsets {
                            table_start: v.table_start,
                            axis_value_offsets: links_view(v.axis_value_offsets@),
                        },
                    ),
                    None => None,
                },
            },
            elided_fallback_name_id: self.elided_fallback_name_id,
        }
    }
}

/// The flags of an axis-value table: bit 1 and bit 0 of the raw `u16`; the
/// fourteen high bits are reserved and not checked.
pub open spec fn axis_flags(raw: u16) -> AxisValueFlags {
    AxisValueFlags {
        elidable_axis_value_name: (raw / 2) % 2 == 1,
        older_sibling_font_attribute: raw % 2 == 1,
    }
}

/// The axis record stored at `p`.
pub open spec fn axis_record_at(t: Seq<u8>, p: int) -> AxisRecord {
    AxisRecord {
        axis_tag: u32_at(t, p),
        axis_name_id: u16_at(t, p + 4),
        axis_ordering: u16_at(t, p + 6),
    }
}

/// The `(axis, value)` pair stored at `p`.
pub open spec fn axis_value_at(t: Seq<u8>, p: int) -> AxisValue {
    AxisValue { axis_index: u16_at(t, p), value: Fixed32(u32_at(t, p + 2)) }
}

/// `n` consecutive eight-byte axis records at `p`.
pub open spec fn spec_design_axes(t: Seq<u8>, p: int, n: int) -> Option<(Seq<AxisRecord>, int)> {
    if 0 <= n && avail(t, p, 8 * n) {
        Some((Seq::new(n as nat, |i: int| axis_record_at(t, p + 8 * i)), p + 8 * n))
    } else {
        None
    }
}

/// An axis-value table at `x`: a format in `1..=4`, then the fields of that
/// format.
pub open spec fn spec_axis_value_table(t: Seq<u8>, x: int) -> Option<(SpecAxisValueTable, int)> {
    match spec_u16be_between(t, x, 1, 4) {
        None => None,
        Some((format, _)) => {
            if !avail(t, x, 8) {
                None
            } else {
                let a = u16_at(t, x + 2);
                let flags = axis_flags(u16_at(t, x + 4));
                let name = u16_at(t, x + 6);
                if format == 1 {
                    if avail(t, x, 12) {
                        Some((SpecAxisValueTable { format, data: SpecAxisValueData::Format1 {
                            axis_index: a,
                            flags,
                            value_name_id: name,
                            value: Fixed32(u32_at(t, x + 8)),
                        } }, x + 12))
                    } else {
                        None
                    }
                } else if format == 2 {
                    if avail(t, x, 20) {
                        Some((SpecAxisValueTable { format, data: SpecAxisValueData::Format2 {
                            axis_index: a,
                            flags,
                            value_name_id: name,
                            nominal_value: Fixed32(u32_at(t, x + 8)),
                            range_min_value: Fixed32(u32_at(t, x + 12)),
                            range_max_value: Fixed32(u32_at(t, x + 16)),
                        } }, x + 20))
                    } else {
                        None
                    }
                } else if format == 3 {
                    if avail(t, x, 16) {
                        Some((SpecAxisValueTable { format, data: SpecAxisValueData::Format3 {
                            axis_index: a,
                            flags,
                            value_name_id: name,
                            value: Fixed32(u32_at(t, x + 8)),
                            linked_value: Fixed32(u32_at(t, x + 12)),
                        } }, x + 16))
                    } else {
                        None
                    }
                } else {
                    if avail(t, x + 8, 6 * a) {
                        Some((SpecAxisValueTable { format, data: SpecAxisValueData::Format4 {
                            axis_count: a,
                            flags,
                            value_name_id: name,
                            axis_values: Seq::new(a as nat, |i: int| axis_value_at(t, x + 8 + 6 * i)),
                        } }, x + 8 + 6 * a))
                    } else {
                        None
                    }
                }
            }
        },
    }
}

/// Entry `i` of the axis-value offset array at `a`: a 16-bit offset relative
/// to `a`, followed (when it links) by the axis-value table it points to.
pub open spec fn axis_value_link(t: Seq<u8>, a: int, i: int) -> Option<Link16<SpecAxisValueTable>> {
    match spec_offset16(t, a, a + 2 * i) {
        None => None,
        Some(((off, None), _)) => Some(Link16 { offset: off, link: None }),
        Some(((off, Some(x)), _)) => match spec_axis_value_table(t, x) {
            Some((v, _)) => Some(Link16 { offset: off, link: Some(v) }),
            None => None,
        },
    }
}

/// The array of `n` axis-value offsets at `a`, each with its linked table.
pub open spec fn spec_axis_value_offsets(t: Seq<u8>, a: int, n: int) -> Option<
    (Seq<Link16<SpecAxisValueTable>>, int),
> {
    if 0 <= n && avail(t, a, 2 * n) && forall|i: int|
        0 <= i < n ==> #[trigger] axis_value_link(t, a, i) is Some {
        Some((Seq::new(n as nat, |i: int| axis_value_link(t, a, i).unwrap()), a + 2 * n))
    } else {
        None
    }
}

/// The `STAT` table held in `t`, which lies at position `origin` of the
/// file (its position and that of its axis-value offset array are recorded
/// in the file's terms), with the position after its header.
pub open spec fn spec_stat_table(t: Seq<u8>, origin: int) -> Option<(SpecStatTable, int)> {
    match (spec_expect_u16be(t, 0, 1), spec_expects_u16be(t, 2, seq![1u16, 2u16])) {
        (Some((major, _)), Some((minor, _))) => {
            if !avail(t, 0, 8) {
                None
            } else {
                let size = u16_at(t, 4);
                let count = u16_at(t, 6);
                match spec_offset32(t, 0, 8) {
                    None => None,
                    Some(((doff, dlink), _)) => {
                        let axes = match dlink {
                            None => Some(None),
                            Some(x) => match spec_design_axes(t, x, count as int) {
                                Some((v, _)) => Some(Some(v)),
                                None => None,
                            },
                        };
                        if axes is None || !avail(t, 12, 2) {
                            None
                        } else {
                            let vcount = u16_at(t, 12);
                            match spec_offset32(t, 0, 14) {
                                None => None,
                                Some(((voff, vlink), _)) => {
                                    let vals = match vlink {
                                        None => Some(None),
                                        Some(x) => match spec_axis_value_offsets(
                                            t,
                                            x,
                                            vcount as int,
                                        ) {
                                            Some((v, _)) => Some(
                                                Some(
                                                    SpecAxisValueOffsets {
                                                        table_start: (origin + x) as usize,
                                                        axis_value_offsets: v,
                                                    },
                                                ),
                                            ),
                                            None => None,
                                        },
                                    };
                                    if vals is None || !avail(t, 18, 2) {
                                        None
                                    } else {
                                        Some((SpecStatTable {
                                            table_start: origin as usize,
                                            major_version: major,
                                            minor_version: minor,
                                            design_axis_size: size,
                                            design_axis_count: count,
                                            design_axes_offset: Link32 {
                                                offset: doff,
                                                link: axes.unwrap(),
                                            },
                                            axis_value_count: vcount,
                                            offset_to_axis_value_offsets: Link32 {
                                                offset: voff,
                                                link: vals.unwrap(),
                                            },
                                            elided_fallback_name_id: u16_at(t, 18),
                                        }, 20))
                                    }
                                },
                            }
                        }
                    },
                }
            }
        },
        _ => None,
    }
}

/// A parsed `STAT` table has version 1.1 or 1.2, one design-axis record
/// per declared axis and one axis-value offset per declared value, each
/// linked axis-value table having a format from 1 to 4 (format 4 with one
/// pair per declared axis).
pub proof fn lemma_stat_counts(t: Seq<u8>, origin: int)
    ensures
        spec_stat_table(t, origin) matches Some((st, e)) ==> {
            &&& e == 20
            &&& st.major_version == 1
            &&& (st.minor_version == 1 || st.minor_version == 2)
            &&& (st.design_axes_offset.link matches Some(axes) ==> axes.len()
                == st.design_axis_count)
            &&& (st.offset_to_axis_value_offsets.link matches Some(arr) ==> {
                let vals = arr.axis_value_offsets;
                &&& vals.len() == st.axis_value_count
                &&& forall|i: int|
                    0 <= i < vals.len() ==> (#[trigger] vals[i].link matches Some(v) ==> 1
                        <= v.format <= 4 && (v.data matches SpecAxisValueData::Format4 {
                        axis_count,
                        axis_values,
                        ..
                    } ==> axis_values.len() == axis_count))
            })
        },
{
    if let Some((st, e)) = spec_stat_table(t, origin) {
        if let Some(arr) = st.offset_to_axis_value_offsets.link {
            let vals = arr.axis_value_offsets;
            assert forall|i: int| 0 <= i < vals.len() implies (#[trigger] vals[i].link matches Some(
                v,
            ) ==> 1 <= v.format <= 4 && (v.data matches SpecAxisValueData::Format4 {
                axis_count,
                axis_values,
                ..
            } ==> axis_values.len() == axis_count)) by {
                let (off, link) = spec_offset32(t, 0, 14).unwrap().0;
                let x = link.unwrap();
                assert(axis_value_link(t, x, i) is Some);
            }
        }
    }
}

fn read_axis_flags(raw: u16) -> (f: AxisValueFlags)
    ensures
        f == axis_flags(raw),
{
    AxisValueFlags {
        elidable_axis_value_name: (raw / 2) % 2 == 1,
        older_sibling_font_attribute: raw % 2 == 1,
    }
}

/// Parses `n` consecutive axis records at `p`.
pub fn design_axes(t: &[u8], p: usize, n: u16) -> (r: Option<(Vec<AxisRecord>, usize)>)
    ensures
        agrees(r, spec_design_axes(t@, p as int, n as int)),
{
    let len = 8 * (n as usize);
    if !has_bytes(t, p, len) {
        return None;
    }
    let mut v: Vec<AxisRecord> = Vec::new();
    let mut i: usize = 0;
    while i < n as usize
        invariant
            0 <= i <= n,
            avail(t@, p as int, 8 * n),
            t@.len() <= usize::MAX,
            v@ =~= Seq::new(i as nat, |j: int| axis_record_at(t@, p + 8 * j)),
        decreases n - i,
    {
        let q = p + 8 * i;
        let rec = AxisRecord {
            axis_tag: get_u32be(t, q),
            axis_name_id: get_u16be(t, q + 4),
            axis_ordering: get_u16be(t, q + 6),
        };
        v.push(rec);
        i = i + 1;
        assert(v@ =~= Seq::new(i as nat, |j: int| axis_record_at(t@, p + 8 * j)));
    }
    Some((v, p + len))
}

/// Parses the `(axis, value)` pairs of a format 4 axis-value table.
fn axis_values(t: &[u8], p: usize, n: u16) -> (r: Vec<AxisValue>)
    requires
        avail(t@, p as int, 6 * n),
    ensures
        r@ =~= Seq::new(n as nat, |j: int| axis_value_at(t@, p + 6 * j)),
{
    let _len = t.len();
    let mut v: Vec<AxisValue> = Vec::new();
    let mut i: usize = 0;
    while i < n as usize
        invariant
            0 <= i <= n,
            avail(t@, p as int, 6 * n),
            t@.len() <= usize::MAX,
            v@ =~= Seq::new(i as nat, |j: int| axis_value_at(t@, p + 6 * j)),
        decreases n - i,
    {
        let q = p + 6 * i;
        v.push(AxisValue { axis_index: get_u16be(t, q), value: Fixed32(get_u32be(t, q + 2)) });
        i = i + 1;
        assert(v@ =~= Seq::new(i as nat, |j: int| axis_value_at(t@, p + 6 * j)));
    }
    v
}

/// Parses an axis-value table at `x`: a format in `1..=4` and the fields of
/// that format.
pub fn axis_value_table(t: &[u8], x: usize) -> (r: Option<(AxisValueTable, usize)>)
    ensures
        agrees(r, spec_axis_value_table(t@, x as int)),
{
    let format = match u16be_between(t, x, 1, 4) {
        Some((f, _)) => f,
        None => return None,
    };
    if !has_bytes(t, x, 8) {
        return None;
    }
    let a = get_u16be(t, x + 2);
    let flags = read_axis_flags(get_u16be(t, x + 4));
    let name = get_u16be(t, x + 6);
    if format == 1 {
        if !has_bytes(t, x, 12) {
            return None;
        }
        let data = AxisValueData::Format1 {
            axis_index: a,
            flags,
            value_name_id: name,
            value: Fixed32(get_u32be(t, x + 8)),
        };
        Some((AxisValueTable { format, data }, x + 12))
    } else if format == 2 {
        if !has_bytes(t, x, 20) {
            return None;
        }
        let data = AxisValueData::Format2 {
            axis_index: a,
            flags,
            value_name_id: name,
            nominal_value: Fixed32(get_u32be(t, x + 8)),
            range_min_value: Fixed32(get_u32be(t, x + 12)),
            range_max_value: Fixed32(get_u32be(t, x + 16)),
        };
        Some((AxisValueTable { format, data }, x + 20))
    } else if format == 3 {
        if !has_bytes(t, x, 16) {
            return None;
        }
        let data = AxisValueData::Format3 {
            axis_index: a,
            flags,
            value_name_id: name,
            value: Fixed32(get_u32be(t, x + 8)),
            linked_value: Fixed32(get_u32be(t, x + 12)),
        };
        Some((AxisValueTable { format, data }, x + 16))
    } else {
        if !has_bytes(t, x + 8, 6 * (a as usize)) {
            return None;
        }
        let vals = axis_values(t, x + 8, a);
        let data = AxisValueData::Format4 {
            axis_count: a,
            flags,
            value_name_id: name,
            axis_values: vals,
        };
        Some((AxisValueTable { format, data }, x + 8 + 6 * (a as usize)))
    }
}

/// Parses the array of `n` axis-value offsets at `a` and the axis-value
/// table each of them links to.
pub fn axis_value_offsets(t: &[u8], a: usize, n: u16) -> (r: Option<
    (Vec<Link16<AxisValueTable>>, usize),
>)
    ensures
        match r {
            Some((v, e)) => spec_axis_value_offsets(t@, a as int, n as int) == Some(
                (links_view(v@), e as int),
            ),
            None => spec_axis_value_offsets(t@, a as int, n as int) is None,
        },
{
    if !has_bytes(t, a, 2 * (n as usize)) {
        return None;
    }
    let mut v: Vec<Link16<AxisValueTable>> = Vec::new();
    let mut i: usize = 0;
    while i < n as usize
        invariant
            0 <= i <= n,
            avail(t@, a as int, 2 * n),
            t@.len() <= usize::MAX,
            forall|j: int| 0 <= j < i ==> #[trigger] axis_value_link(t@, a as int, j) is Some,
            links_view(v@) =~= Seq::new(
                i as nat,
                |j: int| axis_value_link(t@, a as int, j).unwrap(),
            ),
        decreases n - i,
    {
        let (off, target, _) = match offset16_mandatory(t, a, a + 2 * i) {
            Some(r) => r,
            None => {
                assert(axis_value_link(t@, a as int, i as int) is None);
                return None;
            },
        };
        let link = match target {
            None => None,
            Some(x) => match axis_value_table(t, x) {
                Some((tbl, _)) => Some(tbl),
                None => {
                    assert(axis_value_link(t@, a as int, i as int) is None);
                    return None;
                },
            },
        };
        let ghost old_v = v@;
        let entry = Link16 { offset: off, link };
        assert(axis_value_link(t@, a as int, i as int) == Some(entry@));
        v.push(entry);
        assert(v@ == old_v.push(entry));
        assert(links_view(v@) =~= links_view(old_v).push(entry@));
        i = i + 1;
        assert(links_view(v@) =~= Seq::new(
            i as nat,
            |j: int| axis_value_link(t@, a as int, j).unwrap(),
        ));
    }
    Some((v, a + 2 * (n as usize)))
}

/// Parses the `STAT` table held in `t`, which lies at position `origin` of
/// the file: its position, the version (1.1 or 1.2), the
/// design-axis records and the axis-value tables that the header's offsets
/// lead to, and the fallback name id. Yields the position after the header.
pub fn stat_table(t: &[u8], origin: usize) -> (r: Option<(StatTable, usize)>)
    requires
        origin + t@.len() <= usize::MAX,
    ensures
        agrees(r, spec_stat_table(t@, origin as int)),
{
    let major = match expect_u16be(t, 0, 1) {
        Some((m, _)) => m,
        None => return None,
    };
    let versions: [u16; 2] = [1, 2];
    let minor = match expects_u16be(t, 2, versions.as_slice()) {
        Some((m, _)) => m,
        None => {
            assert(versions@ =~= seq![1u16, 2u16]);
            return None;
        },
    };
    assert(versions@ =~= seq![1u16, 2u16]);
    if !has_bytes(t, 0, 8) {
        return None;
    }
    let size = get_u16be(t, 4);
    let count = get_u16be(t, 6);
    let (doff, dlink, _) = match offset32(t, 0, 8) {
        Some(r) => r,
        None => return None,
    };
    let axes = match dlink {
        None => None,
        Some(x) => match design_axes(t, x, count) {
            Some((v, _)) => Some(v),
            None => return None,
        },
    };
    if !has_bytes(t, 12, 2) {
        return None;
    }
    let vcount = get_u16be(t, 12);
    let (voff, vlink, _) = match offset32(t, 0, 14) {
        Some(r) => r,
        None => return None,
    };
    let vals = match vlink {
        None => None,
        Some(x) => match axis_value_offsets(t, x, vcount) {
            Some((v, _)) => Some(AxisValueOffsets { table_start: origin + x, axis_value_offsets: v }),
            None => return None,
        },
    };
    if !has_bytes(t, 18, 2) {
        return None;
    }
    let table = StatTable {
        table_start: origin,
        major_version: major,
        minor_version: minor,
        design_axis_size: size,
        design_axis_count: count,
        design_axes_offset: Link32 { offset: doff, link: axes },
        axis_value_count: vcount,
        offset_to_axis_value_offsets: Link32 { offset: voff, link: vals },
        elided_fallback_name_id: get_u16be(t, 18),
    };
    Some((table, 20))
}


/// The flags of an axis value: bit 0 older sibling font attribute, bit 1
/// elidable name.
pub proof fn lemma_axis_flag_bits(raw: u16)
    ensures
        axis_flags(raw).older_sibling_font_attribute == (raw & 1 != 0),
        axis_flags(raw).elidable_axis_value_name == (raw & 2 != 0),
{
    assert((raw % 2 == 1) == (raw & 1 != 0) && ((raw / 2) % 2 == 1) == (raw & 2 != 0)) by (bit_vector);
}

/// An axis-value table at `x` is read by the format word at `x` (1 to 4):
/// the axis index (for format 4, the axis count), flags and name id words
/// at `x + 2`, `x + 4` and `x + 6`, then for format 1 the value at `x + 8`,
/// for format 2 the nominal, minimum and maximum at `x + 8`, `x + 12` and
/// `x + 16`, for format 3 the value and linked value at `x + 8` and
/// `x + 12`, and for format 4 pairs of an axis index word and a value from
/// `x + 8`, six bytes each.
pub proof fn lemma_axis_value_fields(t: Seq<u8>, x: int)
    ensures
        spec_axis_value_table(t, x) matches Some((v, _)) ==> {
            &&& v.format == crate::bytes::word_at(t, x)
            &&& (v.data is Format1 <==> v.format == 1)
            &&& (v.data is Format2 <==> v.format == 2)
            &&& (v.data is Format3 <==> v.format == 3)
            &&& (v.data is Format4 <==> v.format == 4)
            &&& (v.data matches SpecAxisValueData::Format1 { axis_index, flags, value_name_id, value } ==> axis_index
                == crate::bytes::word_at(t, x + 2) && flags == axis_flags(crate::bytes::word_at(t, x + 4) as u16) && value_name_id
                == crate::bytes::word_at(t, x + 6) && value.0 == crate::bytes::dword_at(t, x + 8))
            &&& (v.data matches SpecAxisValueData::Format2 {
                axis_index,
                flags,
                value_name_id,
                nominal_value,
                range_min_value,
                range_max_value,
            } ==> axis_index == crate::bytes::word_at(t, x + 2) && flags == axis_flags(crate::bytes::word_at(t, x + 4) as u16) && value_name_id
                == crate::bytes::word_at(t, x + 6) && nominal_value.0 == crate::bytes::dword_at(t, x + 8) && range_min_value.0 == crate::bytes::dword_at(t, x + 12)
                && range_max_value.0 == crate::bytes::dword_at(t, x + 16))
            &&& (v.data matches SpecAxisValueData::Format3 {
                axis_index,
                flags,
                value_name_id,
                value,
                linked_value,
            } ==> axis_index == crate::bytes::word_at(t, x + 2) && flags == axis_flags(crate::bytes::word_at(t, x + 4) as u16) && value_name_id
                == crate::bytes::word_at(t, x + 6) && value.0 == crate::bytes::dword_at(t, x + 8) && linked_value.0 == crate::bytes::dword_at(t, x + 12))
            &&& (v.data matches SpecAxisValueData::Format4 { axis_count, flags, value_name_id, axis_values }
                ==> axis_count == crate::bytes::word_at(t, x + 2) && flags == axis_flags(crate::bytes::word_at(t, x + 4) as u16) && value_name_id
                == crate::bytes::word_at(t, x + 6) && axis_values.len() == axis_count && forall|i: int|
                0 <= i < axis_count ==> (#[trigger] axis_values[i]).axis_index == crate::bytes::word_at(t, x + 8 + 6 * i)
                    && axis_values[i].value.0 == crate::bytes::dword_at(t, x + 10 + 6 * i))
        },
{
    if let Some((v, _)) = spec_axis_value_table(t, x) {
        crate::bytes::lemma_readers_spell(t, x);
        crate::bytes::lemma_readers_spell(t, x + 2);
        crate::bytes::lemma_readers_spell(t, x + 4);
        crate::bytes::lemma_readers_spell(t, x + 6);
        match v.data {
            SpecAxisValueData::Format1 { .. } => {
                crate::bytes::lemma_dword_spells(t, x + 8);
            },
            SpecAxisValueData::Format2 { .. } => {
                crate::bytes::lemma_dword_spells(t, x + 8);
                crate::bytes::lemma_dword_spells(t, x + 12);
                crate::bytes::lemma_dword_spells(t, x + 16);
            },
            SpecAxisValueData::Format3 { .. } => {
                crate::bytes::lemma_dword_spells(t, x + 8);
                crate::bytes::lemma_dword_spells(t, x + 12);
            },
            SpecAxisValueData::Format4 { axis_count, axis_values, .. } => {
                assert forall|i: int| 0 <= i < axis_count implies (#[trigger] axis_values[i]).axis_index
                    == crate::bytes::word_at(t, x + 8 + 6 * i) && axis_values[i].value.0 == crate::bytes::dword_at(t, x + 10 + 6 * i) by {
                    crate::bytes::lemma_readers_spell(t, x + 8 + 6 * i);
                    crate::bytes::lemma_dword_spells(t, x + 10 + 6 * i);
                }
            },
        }
    }
}

/// A `STAT` header's fields are its own bytes: the design-axis size and
/// count words at 4 and 6, the design-axes offset double word at 8, the
/// axis-value count word at 12, the offset of the axis-value offsets at 14
/// and the elided fallback name id at 18; design axis `i` lies at the
/// design-axes offset plus `8 * i` (tag double word, name id and ordering
/// words), and axis-value offset `i` is the word at the array's offset
/// plus `2 * i`.
pub proof fn lemma_stat_fields(t: Seq<u8>, origin: int)
    ensures
        spec_stat_table(t, origin) matches Some((st, _)) ==> {
            &&& st.design_axis_size == crate::bytes::word_at(t, 4)
            &&& st.design_axis_count == crate::bytes::word_at(t, 6)
            &&& st.design_axes_offset.offset == crate::bytes::dword_at(t, 8)
            &&& st.axis_value_count == crate::bytes::word_at(t, 12)
            &&& st.offset_to_axis_value_offsets.offset == crate::bytes::dword_at(t, 14)
            &&& st.elided_fallback_name_id == crate::bytes::word_at(t, 18)
            &&& (st.design_axes_offset.link matches Some(axes) ==> forall|i: int|
                0 <= i < axes.len() ==> {
                    let a = #[trigger] axes[i];
                    let q = st.design_axes_offset.offset + 8 * i;
                    &&& a.axis_tag == crate::bytes::dword_at(t, q)
                    &&& a.axis_name_id == crate::bytes::word_at(t, q + 4)
                    &&& a.axis_ordering == crate::bytes::word_at(t, q + 6)
                })
            &&& (st.offset_to_axis_value_offsets.link matches Some(arr) ==> forall|i: int|
                0 <= i < arr.axis_value_offsets.len() ==> (#[trigger] arr.axis_value_offsets[i]).offset
                    == crate::bytes::word_at(t, st.offset_to_axis_value_offsets.offset + 2 * i))
        },
{
    if let Some((st, _)) = spec_stat_table(t, origin) {
        crate::bytes::lemma_readers_spell(t, 4);
        crate::bytes::lemma_readers_spell(t, 6);
        crate::bytes::lemma_dword_spells(t, 8);
        crate::bytes::lemma_readers_spell(t, 12);
        crate::bytes::lemma_dword_spells(t, 14);
        crate::bytes::lemma_readers_spell(t, 18);
        if let Some(axes) = st.design_axes_offset.link {
            assert forall|i: int| 0 <= i < axes.len() implies {
                let a = #[trigger] axes[i];
                let q = st.design_axes_offset.offset + 8 * i;
                &&& a.axis_tag == crate::bytes::dword_at(t, q)
                &&& a.axis_name_id == crate::bytes::word_at(t, q + 4)
                &&& a.axis_ordering == crate::bytes::word_at(t, q + 6)
            } by {
                let q = st.design_axes_offset.offset + 8 * i;
                crate::bytes::lemma_dword_spells(t, q);
                crate::bytes::lemma_readers_spell(t, q + 4);
                crate::bytes::lemma_readers_spell(t, q + 6);
            }
        }
        if let Some(arr) = st.offset_to_axis_value_offsets.link {
            let a = st.offset_to_axis_value_offsets.offset as int;
            assert forall|i: int| 0 <= i < arr.axis_value_offsets.len() implies (#[trigger] arr.axis_value_offsets[i]).offset
                == crate::bytes::word_at(t, a + 2 * i) by {
                assert(axis_value_link(t, a, i) is Some);
                crate::bytes::lemma_readers_spell(t, a + 2 * i);
            }
        }
    }
}

} // verus!
