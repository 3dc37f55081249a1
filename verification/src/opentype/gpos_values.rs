//! The building blocks of glyph positioning: value formats, device and
//! variation index tables, value records and anchor tables. Offsets are
//! relative to the start of the table that holds them.
use vstd::prelude::*;
use crate::bytes::{as_i16, avail, get_u16be, has_bytes, to_i16, u16_at};
use crate::opentype::cmap::{read_u16s, u16s_at};
use crate::opentype::links::{Link16, offset16_mandatory, spec_offset16};

verus! {

/// Which fields a value record holds; the high byte of the format word is
/// reserved and must be zero.
#[derive(Clone, Copy, Debug, PartialEq, Eq)]
pub struct ValueFormat {
    pub y_advance_device: bool,
    pub x_advance_device: bool,
    pub y_placement_device: bool,
    pub x_placement_device: bool,
    pub y_advance: bool,
    pub x_advance: bool,
    pub y_placement: bool,
    pub x_placement: bool,
}

/// The value format word `raw`: `None` when a reserved bit is set.
pub open spec fn spec_value_format(raw: u16) -> Option<ValueFormat> {
    if raw >= 0x100 {
        None
    } else {
        Some(
            ValueFormat {
                y_advance_device: (raw / 128) % 2 == 1,
                x_advance_device: (raw / 64) % 2 == 1,
                y_placement_device: (raw / 32) % 2 == 1,
                x_placement_device: (raw / 16) % 2 == 1,
                y_advance: (raw / 8) % 2 == 1,
                x_advance: (raw / 4) % 2 == 1,
                y_placement: (raw / 2) % 2 == 1,
                x_placement: raw % 2 == 1,
            },
        )
    }
}

/// Splits a value format word into its flags; `None` when a reserved bit
/// is set.
pub fn value_format(raw: u16) -> (r: Option<ValueFormat>)
    ensures
        r == spec_value_format(raw),
{
    if raw >= 0x100 {
        None
    } else {
        Some(
            ValueFormat {
                y_advance_device: (raw / 128) % 2 == 1,
                x_advance_device: (raw / 64) % 2 == 1,
                y_placement_device: (raw / 32) % 2 == 1,
                x_placement_device: (raw / 16) % 2 == 1,
                y_advance: (raw / 8) % 2 == 1,
                x_advance: (raw / 4) % 2 == 1,
                y_placement: (raw / 2) % 2 == 1,
                x_placement: raw % 2 == 1,
            },
        )
    }
}

/// Whether any field of a value record is present.
pub open spec fn any_set(f: ValueFormat) -> bool {
    f.x_placement || f.y_placement || f.x_advance || f.y_advance || f.x_placement_device
        || f.y_placement_device || f.x_advance_device || f.y_advance_device
}

/// A device table (delta formats 1 to 3), a variation index table (delta
/// format `0x8000`), or a table of another delta format kept raw.
#[derive(Clone, Debug, PartialEq, Eq)]
pub enum DeviceTable {
    DeviceTable { start_size: u16, end_size: u16, delta_format: u16, delta_values: Vec<u16> },
    VariationIndexTable { delta_set_outer_index: u16, delta_set_inner_index: u16, delta_format: u16 },
    OtherTable { field0: u16, field1: u16, delta_format: u16 },
}

/// Mathematical form of `DeviceTable`.
pub enum SpecDeviceTable {
    DeviceTable { start_size: u16, end_size: u16, delta_format: u16, delta_values: Seq<u16> },
    VariationIndexTable { delta_set_outer_index: u16, delta_set_inner_index: u16, delta_format: u16 },
    OtherTable { field0: u16, field1: u16, delta_format: u16 },
}

impl View for DeviceTable {
    type V = SpecDeviceTable;

    open spec fn view(&self) -> SpecDeviceTable {
        match self {
            DeviceTable::DeviceTable { start_size, end_size, delta_format, delta_values } => {
                SpecDeviceTable::DeviceTable {
                    start_size: *start_size,
                    end_size: *end_size,
                    delta_format: *delta_format,
                    delta_values: delta_values@,
                }
            },
            DeviceTable::VariationIndexTable {
                delta_set_outer_index,
                delta_set_inner_index,
                delta_format,
            } => SpecDeviceTable::VariationIndexTable {
                delta_set_outer_index: *delta_set_outer_index,
                delta_set_inner_index: *delta_set_inner_index,
                delta_format: *delta_format,
            },
            DeviceTable::OtherTable { field0, field1, delta_format } => SpecDeviceTable::OtherTable {
                field0: *field0,
                field1: *field1,
                delta_format: *delta_format,
            },
        }
    }
}

/// The number of 16-bit words that pack `n` deltas of delta format `f`
/// (2, 4 or 8 bits each): `n` divided by 8, 4 or 2, rounded up.
pub open spec fn packed_words(f: u16, n: int) -> int {
    let per: int = if f == 1 {
        8
    } else if f == 2 {
        4
    } else {
        2
    };
    if (n / per) * per < n {
        n / per + 1
    } else {
        n / per
    }
}

/// The device or variation index table at `x`. Its three leading words
/// decide its kind; a device table covers the sizes from `start_size` to
/// `end_size`, which must not come before it, and that count of sizes,
/// plus one, must fit a `u16`.
pub open spec fn spec_device(t: Seq<u8>, x: int) -> Option<SpecDeviceTable> {
    if !avail(t, x, 6) {
        None
    } else {
        let a = u16_at(t, x);
        let b = u16_at(t, x + 2);
        let f = u16_at(t, x + 4);
        if 1 <= f <= 3 {
            if b < a || b - a + 1 > 0xffff {
                None
            } else {
                let w = packed_words(f, b - a + 1);
                if avail(t, x + 6, 2 * w) {
                    Some(
                        SpecDeviceTable::DeviceTable {
                            start_size: a,
                            end_size: b,
                            delta_format: f,
                            delta_values: u16s_at(t, x + 6, w),
                        },
                    )
                } else {
                    None
                }
            }
        } else if f == 0x8000 {
            Some(
                SpecDeviceTable::VariationIndexTable {
                    delta_set_outer_index: a,
                    delta_set_inner_index: b,
                    delta_format: f,
                },
            )
        } else {
            Some(SpecDeviceTable::OtherTable { field0: a, field1: b, delta_format: f })
        }
    }
}

/// Parses the device or variation index table at `x`.
pub fn device_table(t: &[u8], x: usize) -> (r: Option<DeviceTable>)
    ensures
        match r {
            Some(d) => spec_device(t@, x as int) == Some(d@),
            None => spec_device(t@, x as int) is None,
        },
{
    if !has_bytes(t, x, 6) {
        return None;
    }
    let a = get_u16be(t, x);
    let b = get_u16be(t, x + 2);
    let f = get_u16be(t, x + 4);
    if 1 <= f && f <= 3 {
        if b < a || b - a == 0xffff {
            return None;
        }
        let n: u16 = b - a + 1;
        let per: u16 = if f == 1 {
            8
        } else if f == 2 {
            4
        } else {
            2
        };
        let q = n / per;
        let w: u16 = if q * per < n {
            q + 1
        } else {
            q
        };
        assert(w == packed_words(f, b - a + 1));
        if !has_bytes(t, x + 6, 2 * (w as usize)) {
            return None;
        }
        Some(
            DeviceTable::DeviceTable {
                start_size: a,
                end_size: b,
                delta_format: f,
                delta_values: read_u16s(t, x + 6, w as usize),
            },
        )
    } else if f == 0x8000 {
        Some(
            DeviceTable::VariationIndexTable {
                delta_set_outer_index: a,
                delta_set_inner_index: b,
                delta_format: f,
            },
        )
    } else {
        Some(DeviceTable::OtherTable { field0: a, field1: b, delta_format: f })
    }
}

/// The device offset at `q`, relative to `base`, with its table.
pub open spec fn spec_device_link(t: Seq<u8>, base: int, q: int) -> Option<Link16<SpecDeviceTable>> {
    match spec_offset16(t, base, q) {
        None => None,
        Some(((off, None), _)) => Some(Link16 { offset: off, link: None }),
        Some(((off, Some(x)), _)) => match spec_device(t, x) {
            Some(d) => Some(Link16 { offset: off, link: Some(d) }),
            None => None,
        },
    }
}

/// Parses the device offset at `q`, relative to `base`, and its table.
pub fn device_link(t: &[u8], base: usize, q: usize) -> (r: Option<Link16<DeviceTable>>)
    ensures
        match r {
            Some(l) => spec_device_link(t@, base as int, q as int) == Some(l@),
            None => spec_device_link(t@, base as int, q as int) is None,
        },
{
    let (off, target, _) = match offset16_mandatory(t, base, q) {
        Some(o) => o,
        None => return None,
    };
    match target {
        None => Some(Link16 { offset: off, link: None }),
        Some(x) => match device_table(t, x) {
            Some(d) => Some(Link16 { offset: off, link: Some(d) }),
            None => None,
        },
    }
}

/// A value record: the adjustments its format asks for, in font units,
/// and the device tables for them.
#[derive(Clone, Debug, PartialEq, Eq)]
pub struct ValueRecord {
    pub x_placement: Option<i16>,
    pub y_placement: Option<i16>,
    pub x_advance: Option<i16>,
    pub y_advance: Option<i16>,
    pub x_placement_device: Option<Link16<DeviceTable>>,
    pub y_placement_device: Option<Link16<DeviceTable>>,
    pub x_advance_device: Option<Link16<DeviceTable>>,
    pub y_advance_device: Option<Link16<DeviceTable>>,
}

/// Mathematical form of `ValueRecord`.
pub struct SpecValueRecord {
    pub x_placement: Option<i16>,
    pub y_placement: Option<i16>,
    pub x_advance: Option<i16>,
    pub y_advance: Option<i16>,
    pub x_placement_device: Option<Link16<SpecDeviceTable>>,
    pub y_placement_device: Option<Link16<SpecDeviceTable>>,
    pub x_advance_device: Option<Link16<SpecDeviceTable>>,
    pub y_advance_device: Option<Link16<SpecDeviceTable>>,
}

/// The view of an optional device link.
pub open spec fn opt_device_view(d: Option<Link16<DeviceTable>>) -> Option<Link16<SpecDeviceTable>> {
    match d {
        Some(l) => Some(l@),
        None => None,
    }
}

impl View for ValueRecord {
    type V = SpecValueRecord;

    open spec fn view(&self) -> SpecValueRecord {
        SpecValueRecord {
            x_placement: self.x_placement,
            y_placement: self.y_placement,
            x_advance: self.x_advance,
            y_advance: self.y_advance,
            x_placement_device: opt_device_view(self.x_placement_device),
            y_placement_device: opt_device_view(self.y_placement_device),
            x_advance_device: opt_device_view(self.x_advance_device),
            y_advance_device: opt_device_view(self.y_advance_device),
        }
    }
}

/// A signed field at `p` where `present`, and the position after it.
pub open spec fn opt_i16_at(t: Seq<u8>, p: int, present: bool) -> (Option<i16>, int) {
    if present {
        (Some(to_i16(u16_at(t, p))), p + 2)
    } else {
        (None, p)
    }
}

/// A device offset at `p`, relative to `base`, where `present`, and the
/// position after it; `None` when a linked table fails.
pub open spec fn opt_device_at(t: Seq<u8>, base: int, p: int, present: bool) -> Option<
    (Option<Link16<SpecDeviceTable>>, int),
> {
    if present {
        match spec_device_link(t, base, p) {
            Some(l) => Some((Some(l), p + 2)),
            None => None,
        }
    } else {
        Some((None, p))
    }
}

/// The device offsets of a value record from `p`, relative to `base`, each
/// only where the format sets its flag.
pub open spec fn spec_value_devices(t: Seq<u8>, base: int, p: int, f: ValueFormat) -> Option<
    (
        (
            Option<Link16<SpecDeviceTable>>,
            Option<Link16<SpecDeviceTable>>,
            Option<Link16<SpecDeviceTable>>,
            Option<Link16<SpecDeviceTable>>,
        ),
        int,
    ),
> {
    match opt_device_at(t, base, p, f.x_placement_device) {
        None => None,
        Some((xpd, p5)) => match opt_device_at(t, base, p5, f.y_placement_device) {
            None => None,
            Some((ypd, p6)) => match opt_device_at(t, base, p6, f.x_advance_device) {
                None => None,
                Some((xad, p7)) => match opt_device_at(t, base, p7, f.y_advance_device) {
                    None => None,
                    Some((yad, p8)) => Some(((xpd, ypd, xad, yad), p8)),
                },
            },
        },
    }
}

/// The value record at `p` of format `f`, its device offsets relative to
/// `base`: the four adjustments, then the four device offsets, each only
/// where the format sets its flag.
pub open spec fn spec_value_record(t: Seq<u8>, base: int, p: int, f: ValueFormat) -> Option<
    (SpecValueRecord, int),
> {
    let (xp, p1) = opt_i16_at(t, p, f.x_placement);
    let (yp, p2) = opt_i16_at(t, p1, f.y_placement);
    let (xa, p3) = opt_i16_at(t, p2, f.x_advance);
    let (ya, p4) = opt_i16_at(t, p3, f.y_advance);
    if !avail(t, p, p4 - p) {
        None
    } else {
        match spec_value_devices(t, base, p4, f) {
            None => None,
            Some(((xpd, ypd, xad, yad), p8)) => Some((SpecValueRecord {
                x_placement: xp,
                y_placement: yp,
                x_advance: xa,
                y_advance: ya,
                x_placement_device: xpd,
                y_placement_device: ypd,
                x_advance_device: xad,
                y_advance_device: yad,
            }, p8)),
        }
    }
}

fn opt_i16(t: &[u8], p: usize, present: bool) -> (r: (Option<i16>, usize))
    requires
        present ==> avail(t@, p as int, 2),
        p <= t@.len(),
        t@.len() <= usize::MAX,
    ensures
        (r.0, r.1 as int) == opt_i16_at(t@, p as int, present),
        r.1 == p + if present {
            2int
        } else {
            0
        },
{
    if present {
        (Some(as_i16(get_u16be(t, p))), p + 2)
    } else {
        (None, p)
    }
}

fn opt_device(t: &[u8], base: usize, p: usize, present: bool) -> (r: Option<
    (Option<Link16<DeviceTable>>, usize),
>)
    requires
        p <= t@.len(),
    ensures
        match r {
            Some((d, e)) => opt_device_at(t@, base as int, p as int, present) == Some(
                (opt_device_view(d), e as int),
            ) && e <= t@.len(),
            None => opt_device_at(t@, base as int, p as int, present) is None,
        },
{
    if present {
        if !has_bytes(t, p, 2) {
            assert(spec_device_link(t@, base as int, p as int) is None);
            return None;
        }
        match device_link(t, base, p) {
            Some(l) => Some((Some(l), p + 2)),
            None => None,
        }
    } else {
        Some((None, p))
    }
}

fn value_devices(t: &[u8], base: usize, p: usize, f: ValueFormat) -> (r: Option<
    (
        (
            Option<Link16<DeviceTable>>,
            Option<Link16<DeviceTable>>,
            Option<Link16<DeviceTable>>,
            Option<Link16<DeviceTable>>,
        ),
        usize,
    ),
>)
    requires
        p <= t@.len(),
    ensures
        match r {
            Some(((a, b, c, d), e)) => spec_value_devices(t@, base as int, p as int, f) == Some(
                (
                    (opt_device_view(a), opt_device_view(b), opt_device_view(c), opt_device_view(d)),
                    e as int,
                ),
            ),
            None => spec_value_devices(t@, base as int, p as int, f) is None,
        },
{
    let (xpd, p5) = match opt_device(t, base, p, f.x_placement_device) {
        Some(x) => x,
        None => return None,
    };
    let (ypd, p6) = match opt_device(t, base, p5, f.y_placement_device) {
        Some(x) => x,
        None => return None,
    };
    let (xad, p7) = match opt_device(t, base, p6, f.x_advance_device) {
        Some(x) => x,
        None => return None,
    };
    let (yad, p8) = match opt_device(t, base, p7, f.y_advance_device) {
        Some(x) => x,
        None => return None,
    };
    Some(((xpd, ypd, xad, yad), p8))
}

/// Parses the value record at `p` of format `f`, its device offsets
/// relative to `base`.
pub fn value_record(t: &[u8], base: usize, p: usize, f: ValueFormat) -> (r: Option<
    (ValueRecord, usize),
>)
    ensures
        match r {
            Some((v, e)) => spec_value_record(t@, base as int, p as int, f) == Some((v@, e as int)),
            None => spec_value_record(t@, base as int, p as int, f) is None,
        },
{
    let n: usize = (if f.x_placement { 2 } else { 0 }) + (if f.y_placement { 2 } else { 0 }) + (
    if f.x_advance { 2 } else { 0 }) + (if f.y_advance { 2 } else { 0 });
    if !has_bytes(t, p, n) {
        return None;
    }
    let (xp, p1) = opt_i16(t, p, f.x_placement);
    let (yp, p2) = opt_i16(t, p1, f.y_placement);
    let (xa, p3) = opt_i16(t, p2, f.x_advance);
    let (ya, p4) = opt_i16(t, p3, f.y_advance);
    let ((xpd, ypd, xad, yad), p8) = match value_devices(t, base, p4, f) {
        Some(x) => x,
        None => return None,
    };
    let v = ValueRecord {
        x_placement: xp,
        y_placement: yp,
        x_advance: xa,
        y_advance: ya,
        x_placement_device: xpd,
        y_placement_device: ypd,
        x_advance_device: xad,
        y_advance_device: yad,
    };
    Some((v, p8))
}

/// A value record that is present only where its format sets some flag.
pub open spec fn spec_optional_value_record(t: Seq<u8>, base: int, p: int, f: ValueFormat) -> Option<
    (Option<SpecValueRecord>, int),
> {
    if any_set(f) {
        match spec_value_record(t, base, p, f) {
            Some((v, e)) => Some((Some(v), e)),
            None => None,
        }
    } else {
        Some((None, p))
    }
}

/// The view of an optional value record.
pub open spec fn opt_value_view(v: Option<ValueRecord>) -> Option<SpecValueRecord> {
    match v {
        Some(r) => Some(r@),
        None => None,
    }
}

/// Parses a value record at `p` of format `f` where the format sets some
/// flag.
pub fn optional_value_record(t: &[u8], base: usize, p: usize, f: ValueFormat) -> (r: Option<
    (Option<ValueRecord>, usize),
>)
    ensures
        match r {
            Some((v, e)) => spec_optional_value_record(t@, base as int, p as int, f) == Some(
                (opt_value_view(v), e as int),
            ),
            None => spec_optional_value_record(t@, base as int, p as int, f) is None,
        },
{
    if f.x_placement || f.y_placement || f.x_advance || f.y_advance || f.x_placement_device
        || f.y_placement_device || f.x_advance_device || f.y_advance_device {
        match value_record(t, base, p, f) {
            Some((v, e)) => Some((Some(v), e)),
            None => None,
        }
    } else {
        Some((None, p))
    }
}

/// The body of an anchor table, by format: a point, a point with a contour
/// point index, or a point with device tables.
#[derive(Clone, Debug, PartialEq, Eq)]
pub enum AnchorData {
    Format1 { x_coordinate: i16, y_coordinate: i16 },
    Format2 { x_coordinate: i16, y_coordinate: i16, anchor_point: u16 },
    Format3 {
        x_coordinate: i16,
        y_coordinate: i16,
        x_device_offset: Link16<DeviceTable>,
        y_device_offset: Link16<DeviceTable>,
    },
}

/// Mathematical form of `AnchorData`.
pub enum SpecAnchorData {
    Format1 { x_coordinate: i16, y_coordinate: i16 },
    Format2 { x_coordinate: i16, y_coordinate: i16, anchor_point: u16 },
    Format3 {
        x_coordinate: i16,
        y_coordinate: i16,
        x_device_offset: Link16<SpecDeviceTable>,
        y_device_offset: Link16<SpecDeviceTable>,
    },
}

/// An anchor table.
#[derive(Clone, Debug, PartialEq, Eq)]
pub struct AnchorTable {
    pub anchor_format: u16,
    pub table: AnchorData,
}

/// Mathematical form of `AnchorTable`.
pub struct SpecAnchorTable {
    pub anchor_format: u16,
    pub table: SpecAnchorData,
}

impl View for AnchorTable {
    type V = SpecAnchorTable;

    open spec fn view(&self) -> SpecAnchorTable {
        SpecAnchorTable {
            anchor_format: self.anchor_format,
            table: match &self.table {
                AnchorData::Format1 { x_coordinate, y_coordinate } => SpecAnchorData::Format1 {
                    x_coordinate: *x_coordinate,
                    y_coordinate: *y_coordinate,
                },
                AnchorData::Format2 { x_coordinate, y_coordinate, anchor_point } => {
                    SpecAnchorData::Format2 {
                        x_coordinate: *x_coordinate,
                        y_coordinate: *y_coordinate,
                        anchor_point: *anchor_point,
                    }
                },
                AnchorData::Format3 { x_coordinate, y_coordinate, x_device_offset, y_device_offset } => {
                    SpecAnchorData::Format3 {
                        x_coordinate: *x_coordinate,
                        y_coordinate: *y_coordinate,
                        x_device_offset: x_device_offset@,
                        y_device_offset: y_device_offset@,
                    }
                },
            },
        }
    }
}

/// The anchor table at `x`, of format 1, 2 or 3 (whose device offsets are
/// relative to `x`); other formats fail.
pub open spec fn spec_anchor(t: Seq<u8>, x: int) -> Option<SpecAnchorTable> {
    if !avail(t, x, 6) {
        None
    } else {
        let f = u16_at(t, x);
        let xc = to_i16(u16_at(t, x + 2));
        let yc = to_i16(u16_at(t, x + 4));
        if f == 1 {
            Some(
                SpecAnchorTable {
                    anchor_format: 1,
                    table: SpecAnchorData::Format1 { x_coordinate: xc, y_coordinate: yc },
                },
            )
        } else if f == 2 && avail(t, x + 6, 2) {
            Some(
                SpecAnchorTable {
                    anchor_format: 2,
                    table: SpecAnchorData::Format2 {
                        x_coordinate: xc,
                        y_coordinate: yc,
                        anchor_point: u16_at(t, x + 6),
                    },
                },
            )
        } else if f == 3 {
            match (spec_device_link(t, x, x + 6), spec_device_link(t, x, x + 8)) {
                (Some(xd), Some(yd)) => Some(
                    SpecAnchorTable {
                        anchor_format: 3,
                        table: SpecAnchorData::Format3 {
                            x_coordinate: xc,
                            y_coordinate: yc,
                            x_device_offset: xd,
                            y_device_offset: yd,
                        },
                    },
                ),
                _ => None,
            }
        } else {
            None
        }
    }
}

/// Parses the anchor table at `x`.
pub fn anchor_table(t: &[u8], x: usize) -> (r: Option<AnchorTable>)
    ensures
        match r {
            Some(a) => spec_anchor(t@, x as int) == Some(a@),
            None => spec_anchor(t@, x as int) is None,
        },
{
    if !has_bytes(t, x, 6) {
        return None;
    }
    let f = get_u16be(t, x);
    let xc = as_i16(get_u16be(t, x + 2));
    let yc = as_i16(get_u16be(t, x + 4));
    if f == 1 {
        Some(
            AnchorTable {
                anchor_format: 1,
                table: AnchorData::Format1 { x_coordinate: xc, y_coordinate: yc },
            },
        )
    } else if f == 2 && has_bytes(t, x + 6, 2) {
        Some(
            AnchorTable {
                anchor_format: 2,
                table: AnchorData::Format2 {
                    x_coordinate: xc,
                    y_coordinate: yc,
                    anchor_point: get_u16be(t, x + 6),
                },
            },
        )
    } else if f == 3 {
        let xd = match device_link(t, x, x + 6) {
            Some(l) => l,
            None => return None,
        };
        let yd = match device_link(t, x, x + 8) {
            Some(l) => l,
            None => return None,
        };
        Some(
            AnchorTable {
                anchor_format: 3,
                table: AnchorData::Format3 {
                    x_coordinate: xc,
                    y_coordinate: yc,
                    x_device_offset: xd,
                    y_device_offset: yd,
                },
            },
        )
    } else {
        None
    }
}

/// The anchor offset at `q`, relative to `base`, with its anchor table.
pub open spec fn spec_anchor_link(t: Seq<u8>, base: int, q: int) -> Option<Link16<SpecAnchorTable>> {
    match spec_offset16(t, base, q) {
        None => None,
        Some(((off, None), _)) => Some(Link16 { offset: off, link: None }),
        Some(((off, Some(x)), _)) => match spec_anchor(t, x) {
            Some(a) => Some(Link16 { offset: off, link: Some(a) }),
            None => None,
        },
    }
}

/// Parses the anchor offset at `q`, relative to `base`, and its table.
pub fn anchor_link(t: &[u8], base: usize, q: usize) -> (r: Option<Link16<AnchorTable>>)
    ensures
        match r {
            Some(l) => spec_anchor_link(t@, base as int, q as int) == Some(l@),
            None => spec_anchor_link(t@, base as int, q as int) is None,
        },
{
    let (off, target, _) = match offset16_mandatory(t, base, q) {
        Some(o) => o,
        None => return None,
    };
    match target {
        None => Some(Link16 { offset: off, link: None }),
        Some(x) => match anchor_table(t, x) {
            Some(a) => Some(Link16 { offset: off, link: Some(a) }),
            None => None,
        },
    }
}


/// The bytes a present field takes: two, or none where the format leaves
/// the field out.
pub open spec fn field_width(present: bool) -> int {
    if present {
        2
    } else {
        0
    }
}

/// A value format word is accepted exactly when its high byte is clear, and
/// then each flag is set exactly when its bit is: bit 0 x placement, 1 y
/// placement, 2 x advance, 3 y advance, 4 to 7 the x placement, y placement,
/// x advance and y advance devices.
pub proof fn lemma_value_format_bits(raw: u16)
    ensures
        spec_value_format(raw) is Some <==> raw & 0xff00 == 0,
        spec_value_format(raw) matches Some(f) ==> {
            &&& f.x_placement == (raw & 0x0001 != 0)
            &&& f.y_placement == (raw & 0x0002 != 0)
            &&& f.x_advance == (raw & 0x0004 != 0)
            &&& f.y_advance == (raw & 0x0008 != 0)
            &&& f.x_placement_device == (raw & 0x0010 != 0)
            &&& f.y_placement_device == (raw & 0x0020 != 0)
            &&& f.x_advance_device == (raw & 0x0040 != 0)
            &&& f.y_advance_device == (raw & 0x0080 != 0)
        },
{
    assert({
        &&& (raw >= 0x100) == (raw & 0xff00 != 0)
        &&& (raw % 2 == 1) == (raw & 0x0001 != 0)
        &&& ((raw / 2) % 2 == 1) == (raw & 0x0002 != 0)
        &&& ((raw / 4) % 2 == 1) == (raw & 0x0004 != 0)
        &&& ((raw / 8) % 2 == 1) == (raw & 0x0008 != 0)
        &&& ((raw / 16) % 2 == 1) == (raw & 0x0010 != 0)
        &&& ((raw / 32) % 2 == 1) == (raw & 0x0020 != 0)
        &&& ((raw / 64) % 2 == 1) == (raw & 0x0040 != 0)
        &&& ((raw / 128) % 2 == 1) == (raw & 0x0080 != 0)
    }) by (bit_vector);
}

proof fn lemma_device_at(t: Seq<u8>, base: int, p: int, present: bool)
    ensures
        opt_device_at(t, base, p, present) matches Some((d, e)) ==> {
            &&& e == p + field_width(present)
            &&& (d is Some <==> present)
            &&& (d matches Some(l) ==> l.offset == crate::bytes::word_at(t, p))
        },
{
    if present {
        if let Some(l) = spec_device_link(t, base, p) {
            crate::bytes::lemma_readers_spell(t, p);
        }
    }
}

proof fn lemma_value_devices_layout(t: Seq<u8>, base: int, p: int, f: ValueFormat)
    ensures
        spec_value_devices(t, base, p, f) matches Some(((xpd, ypd, xad, yad), e)) ==> {
            let d1 = p + field_width(f.x_placement_device);
            let d2 = d1 + field_width(f.y_placement_device);
            let d3 = d2 + field_width(f.x_advance_device);
            &&& e == d3 + field_width(f.y_advance_device)
            &&& (xpd is Some <==> f.x_placement_device)
            &&& (ypd is Some <==> f.y_placement_device)
            &&& (xad is Some <==> f.x_advance_device)
            &&& (yad is Some <==> f.y_advance_device)
            &&& (xpd matches Some(l) ==> l.offset == crate::bytes::word_at(t, p))
            &&& (ypd matches Some(l) ==> l.offset == crate::bytes::word_at(t, d1))
            &&& (xad matches Some(l) ==> l.offset == crate::bytes::word_at(t, d2))
            &&& (yad matches Some(l) ==> l.offset == crate::bytes::word_at(t, d3))
        },
{
    lemma_device_at(t, base, p, f.x_placement_device);
    if let Some((_, p5)) = opt_device_at(t, base, p, f.x_placement_device) {
        lemma_device_at(t, base, p5, f.y_placement_device);
        if let Some((_, p6)) = opt_device_at(t, base, p5, f.y_placement_device) {
            lemma_device_at(t, base, p6, f.x_advance_device);
            if let Some((_, p7)) = opt_device_at(t, base, p6, f.x_advance_device) {
                lemma_device_at(t, base, p7, f.y_advance_device);
            }
        }
    }
}

/// A value record holds the fields its format sets, in the order x
/// placement, y placement, x advance, y advance, then the four device
/// offsets, two bytes each, each read as the signed number (or, for a
/// device, the offset) that its own two bytes spell; the record ends after
/// the last of them.
pub proof fn lemma_value_record_layout(t: Seq<u8>, base: int, p: int, f: ValueFormat)
    ensures
        spec_value_record(t, base, p, f) matches Some((v, e)) ==> {
            let a1 = p + field_width(f.x_placement);
            let a2 = a1 + field_width(f.y_placement);
            let a3 = a2 + field_width(f.x_advance);
            let d0 = a3 + field_width(f.y_advance);
            let d1 = d0 + field_width(f.x_placement_device);
            let d2 = d1 + field_width(f.y_placement_device);
            let d3 = d2 + field_width(f.x_advance_device);
            &&& e == d3 + field_width(f.y_advance_device)
            &&& (v.x_placement is Some <==> f.x_placement)
            &&& (v.y_placement is Some <==> f.y_placement)
            &&& (v.x_advance is Some <==> f.x_advance)
            &&& (v.y_advance is Some <==> f.y_advance)
            &&& (v.x_placement_device is Some <==> f.x_placement_device)
            &&& (v.y_placement_device is Some <==> f.y_placement_device)
            &&& (v.x_advance_device is Some <==> f.x_advance_device)
            &&& (v.y_advance_device is Some <==> f.y_advance_device)
            &&& (v.x_placement matches Some(x) ==> x == crate::bytes::signed_word_at(t, p))
            &&& (v.y_placement matches Some(x) ==> x == crate::bytes::signed_word_at(t, a1))
            &&& (v.x_advance matches Some(x) ==> x == crate::bytes::signed_word_at(t, a2))
            &&& (v.y_advance matches Some(x) ==> x == crate::bytes::signed_word_at(t, a3))
            &&& (v.x_placement_device matches Some(l) ==> l.offset == crate::bytes::word_at(t, d0))
            &&& (v.y_placement_device matches Some(l) ==> l.offset == crate::bytes::word_at(t, d1))
            &&& (v.x_advance_device matches Some(l) ==> l.offset == crate::bytes::word_at(t, d2))
            &&& (v.y_advance_device matches Some(l) ==> l.offset == crate::bytes::word_at(t, d3))
        },
{
    if let Some((v, e)) = spec_value_record(t, base, p, f) {
        let (xp, p1) = opt_i16_at(t, p, f.x_placement);
        let (yp, p2) = opt_i16_at(t, p1, f.y_placement);
        let (xa, p3) = opt_i16_at(t, p2, f.x_advance);
        let (ya, p4) = opt_i16_at(t, p3, f.y_advance);
        assert(p1 == p + field_width(f.x_placement));
        assert(p2 == p1 + field_width(f.y_placement));
        assert(p3 == p2 + field_width(f.x_advance));
        assert(p4 == p3 + field_width(f.y_advance));
        lemma_value_devices_layout(t, base, p4, f);
        if f.x_placement {
            crate::bytes::lemma_readers_spell(t, p);
        }
        if f.y_placement {
            crate::bytes::lemma_readers_spell(t, p1);
        }
        if f.x_advance {
            crate::bytes::lemma_readers_spell(t, p2);
        }
        if f.y_advance {
            crate::bytes::lemma_readers_spell(t, p3);
        }
    }
}


/// Delta values of a device table pack `2`, `4` or `8` bits each (formats
/// 1, 2 and 3) into 16-bit words: the words read are the fewest that hold
/// `n` values.
pub proof fn lemma_packed_words_fit(f: u16, n: int)
    requires
        1 <= f <= 3,
        n >= 1,
    ensures
        ({
            let bits: int = if f == 1 {
                2
            } else if f == 2 {
                4
            } else {
                8
            };
            let w = packed_words(f, n);
            &&& 16 * w >= n * bits
            &&& 16 * (w - 1) < n * bits
        }),
{
    let per: int = if f == 1 {
        8
    } else if f == 2 {
        4
    } else {
        2
    };
    assert(n == (n / per) * per + n % per && 0 <= n % per < per) by (nonlinear_arith)
        requires
            per > 0,
            n >= 1,
    ;
    assert((n / per) * per == per * (n / per)) by (nonlinear_arith);
}

/// A device table at `x` holds its start and end sizes and delta format as
/// the words at `x`, `x + 2` and `x + 4`, then its packed delta words from
/// `x + 6`; with delta format `0x8000` the first two words are the outer
/// and inner delta-set indices. An anchor table holds its format and signed
/// x and y coordinates at `x`, `x + 2` and `x + 4`, then for format 2 the
/// contour point word at `x + 6` and for format 3 the device offsets at
/// `x + 6` and `x + 8`.
pub proof fn lemma_device_anchor_fields(t: Seq<u8>, x: int)
    ensures
        spec_device(t, x) matches Some(d) ==> match d {
            SpecDeviceTable::DeviceTable { start_size, end_size, delta_format, delta_values } => start_size
                == crate::bytes::word_at(t, x) && end_size == crate::bytes::word_at(t, x + 2) && delta_format == crate::bytes::word_at(t, x + 4) && 1 <= delta_format
                <= 3 && delta_values.len() == packed_words(delta_format, end_size - start_size + 1)
                && forall|i: int|
                0 <= i < delta_values.len() ==> #[trigger] delta_values[i] == crate::bytes::word_at(t, x + 6 + 2 * i),
            SpecDeviceTable::VariationIndexTable {
                delta_set_outer_index,
                delta_set_inner_index,
                delta_format,
            } => delta_set_outer_index == crate::bytes::word_at(t, x) && delta_set_inner_index == crate::bytes::word_at(t, x + 2) && delta_format
                == 0x8000 && crate::bytes::word_at(t, x + 4) == 0x8000,
            SpecDeviceTable::OtherTable { field0, field1, delta_format } => field0 == crate::bytes::word_at(t, x) && field1
                == crate::bytes::word_at(t, x + 2) && delta_format == crate::bytes::word_at(t, x + 4),
        },
        spec_anchor(t, x) matches Some(a) ==> a.anchor_format == crate::bytes::word_at(t, x) && match a.table {
            SpecAnchorData::Format1 { x_coordinate, y_coordinate } => a.anchor_format == 1 && x_coordinate
                == crate::bytes::signed_word_at(t, x + 2) && y_coordinate == crate::bytes::signed_word_at(t, x + 4),
            SpecAnchorData::Format2 { x_coordinate, y_coordinate, anchor_point } => a.anchor_format == 2
                && x_coordinate == crate::bytes::signed_word_at(t, x + 2) && y_coordinate == crate::bytes::signed_word_at(t, x + 4) && anchor_point == crate::bytes::word_at(
                t,
                x + 6,
            ),
            SpecAnchorData::Format3 { x_coordinate, y_coordinate, x_device_offset, y_device_offset } => a.anchor_format
                == 3 && x_coordinate == crate::bytes::signed_word_at(t, x + 2) && y_coordinate == crate::bytes::signed_word_at(t, x + 4)
                && x_device_offset.offset == crate::bytes::word_at(t, x + 6) && y_device_offset.offset == crate::bytes::word_at(t, x + 8),
        },
{
    if avail(t, x, 6) {
        crate::bytes::lemma_readers_spell(t, x);
        crate::bytes::lemma_readers_spell(t, x + 2);
        crate::bytes::lemma_readers_spell(t, x + 4);
    }
    if let Some(d) = spec_device(t, x) {
        if let SpecDeviceTable::DeviceTable { delta_values, .. } = d {
            assert forall|i: int| 0 <= i < delta_values.len() implies #[trigger] delta_values[i] == crate::bytes::word_at(t, x + 6 + 2 * i) by {
                crate::bytes::lemma_readers_spell(t, x + 6 + 2 * i);
            }
        }
    }
    if let Some(a) = spec_anchor(t, x) {
        match a.table {
            SpecAnchorData::Format2 { .. } => {
                crate::bytes::lemma_readers_spell(t, x + 6);
            },
            SpecAnchorData::Format3 { .. } => {
                crate::bytes::lemma_readers_spell(t, x + 6);
                crate::bytes::lemma_readers_spell(t, x + 8);
            },
            _ => {},
        }
    }
}

} // verus!
