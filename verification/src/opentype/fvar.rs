//! The font variations table (`fvar`). Positions are relative to the
//! table's start.
use vstd::prelude::*;
use crate::bytes::{agrees, avail, get_u16be, get_u32be, has_bytes, u16_at, u32_at};
use crate::opentype::links::link_forward_unchecked;
use crate::opentype::values::{Fixed32, pos_add_u16};

verus! {

/// A variation axis: its tag, range and default, whether it is hidden, and
/// the name-table id of its name.
#[derive(Clone, Copy, Debug, PartialEq, Eq)]
pub struct VariationAxisRecord {
    pub axis_tag: u32,
    pub min_value: Fixed32,
    pub default_value: Fixed32,
    pub max_value: Fixed32,
    pub hidden_axis: bool,
    pub axis_name_id: u16,
}

/// The twenty-byte axis record at `p`; of its flags only bit 0 is defined.
pub open spec fn axis_record_at(t: Seq<u8>, p: int) -> VariationAxisRecord {
    VariationAxisRecord {
        axis_tag: u32_at(t, p),
        min_value: Fixed32(u32_at(t, p + 4)),
        default_value: Fixed32(u32_at(t, p + 8)),
        max_value: Fixed32(u32_at(t, p + 12)),
        hidden_axis: u16_at(t, p + 16) % 2 == 1,
        axis_name_id: u16_at(t, p + 18),
    }
}

/// A named instance: a point in the design space.
#[derive(Clone, Debug, PartialEq, Eq)]
pub struct InstanceRecord {
    pub subfamily_nameid: u16,
    pub flags: u16,
    pub coordinates: Vec<Fixed32>,
    pub postscript_nameid: Option<u16>,
}

/// Mathematical form of `InstanceRecord`.
pub struct SpecInstanceRecord {
    pub subfamily_nameid: u16,
    pub flags: u16,
    pub coordinates: Seq<Fixed32>,
    pub postscript_nameid: Option<u16>,
}

impl View for InstanceRecord {
    type V = SpecInstanceRecord;

    open spec fn view(&self) -> SpecInstanceRecord {
        SpecInstanceRecord {
            subfamily_nameid: self.subfamily_nameid,
            flags: self.flags,
            coordinates: self.coordinates@,
            postscript_nameid: self.postscript_nameid,
        }
    }
}

/// The instance record in the `size` bytes at `q`: a name id, zero flags,
/// `axis_count` coordinates, and, when `size` is 2 more than a multiple of
/// 4, a PostScript name id; all within `size` bytes.
pub open spec fn spec_instance(t: Seq<u8>, q: int, axis_count: u16, size: u16) -> Option<
    SpecInstanceRecord,
> {
    let has_ps = size % 4 == 2;
    let need = 4 + 4 * axis_count + if has_ps {
        2int
    } else {
        0
    };
    if avail(t, q, size as int) && need <= size && u16_at(t, q + 2) == 0 {
        Some(SpecInstanceRecord {
            subfamily_nameid: u16_at(t, q),
            flags: 0,
            coordinates: Seq::new(axis_count as nat, |i: int| Fixed32(u32_at(t, q + 4 + 4 * i))),
            postscript_nameid: if has_ps {
                Some(u16_at(t, q + 4 + 4 * axis_count))
            } else {
                None
            },
        })
    } else {
        None
    }
}

/// Instance `i` of the instance array at `start`.
pub open spec fn instance_at(t: Seq<u8>, start: int, axis_count: u16, size: u16, i: int) -> Option<
    SpecInstanceRecord,
> {
    spec_instance(t, start + size * i, axis_count, size)
}

/// The `fvar` table.
#[derive(Clone, Debug, PartialEq, Eq)]
pub struct FvarTable {
    pub major_version: u16,
    pub minor_version: u16,
    pub offset_axes: u16,
    pub axis_count: u16,
    pub axis_size: u16,
    pub instance_count: u16,
    pub instance_size: u16,
    pub axes: Vec<VariationAxisRecord>,
    pub instances: Vec<InstanceRecord>,
}

/// Mathematical form of `FvarTable`.
pub struct SpecFvarTable {
    pub major_version: u16,
    pub minor_version: u16,
    pub offset_axes: u16,
    pub axis_count: u16,
    pub axis_size: u16,
    pub instance_count: u16,
    pub instance_size: u16,
    pub axes: Seq<VariationAxisRecord>,
    pub instances: Seq<SpecInstanceRecord>,
}

/// The views of a sequence of instance records.
pub open spec fn instances_view(v: Seq<InstanceRecord>) -> Seq<SpecInstanceRecord> {
    v.map_values(|r: InstanceRecord| r@)
}

impl View for FvarTable {
    type V = SpecFvarTable;

    open spec fn view(&self) -> SpecFvarTable {
        SpecFvarTable {
            major_version: self.major_version,
            minor_version: self.minor_version,
            offset_axes: self.offset_axes,
            axis_count: self.axis_count,
            axis_size: self.axis_size,
            instance_count: self.instance_count,
            instance_size: self.instance_size,
            axes: self.axes@,
            instances: instances_view(self.instances@),
        }
    }
}

/// Whether each of the `count` instance records from `start` parses.
pub open spec fn instances_parse(t: Seq<u8>, start: int, axis_count: u16, size: u16, count: u16) -> bool {
    forall|i: int| 0 <= i < count ==> #[trigger] instance_at(t, start, axis_count, size, i) is Some
}

fn instances(t: &[u8], start: usize, axis_count: u16, size: u16, count: u16) -> (r: Option<
    Vec<InstanceRecord>,
>)
    requires
        avail(t@, start as int, size * count),
        t@.len() <= usize::MAX,
    ensures
        match r {
            Some(v) => instances_parse(t@, start as int, axis_count, size, count) && instances_view(
                v@,
            ) =~= Seq::new(
                count as nat,
                |j: int| instance_at(t@, start as int, axis_count, size, j).unwrap(),
            ),
            None => !instances_parse(t@, start as int, axis_count, size, count),
        },
{
    let mut out: Vec<InstanceRecord> = Vec::new();
    let mut k: usize = 0;
    while k < count as usize
        invariant
            0 <= k <= count,
            avail(t@, start as int, size * count),
            t@.len() <= usize::MAX,
            forall|j: int|
                0 <= j < k ==> #[trigger] instance_at(t@, start as int, axis_count, size, j) is Some,
            instances_view(out@) =~= Seq::new(
                k as nat,
                |j: int| instance_at(t@, start as int, axis_count, size, j).unwrap(),
            ),
        decreases count - k,
    {
        assert(size * k <= size * count) by (nonlinear_arith)
            requires
                k < count,
        ;
        let q = start + (size as usize) * k;
        let rec = match instance(t, q, axis_count, size) {
            Some(r) => r,
            None => {
                assert(instance_at(t@, start as int, axis_count, size, k as int) is None);
                return None;
            },
        };
        assert(instance_at(t@, start as int, axis_count, size, k as int) == Some(rec@));
        let ghost old_v = out@;
        out.push(rec);
        assert(instances_view(out@) =~= instances_view(old_v).push(rec@));
        k = k + 1;
        assert(instances_view(out@) =~= Seq::new(
            k as nat,
            |j: int| instance_at(t@, start as int, axis_count, size, j).unwrap(),
        ));
    }
    Some(out)
}

/// The `fvar` table held in `t`: version 1.0, a non-zero axes offset that
/// must not lead back into the sixteen-byte header, a reserved count of 2,
/// twenty-byte axis records (whose total length must fit a `u16`), then,
/// right after the axes, `instance_count` instance records of
/// `instance_size` bytes each.
pub open spec fn spec_fvar_table(t: Seq<u8>) -> Option<(SpecFvarTable, int)> {
    if !avail(t, 0, 16) || u16_at(t, 0) != 1 || u16_at(t, 2) != 0 || u16_at(t, 4) == 0 || u16_at(
        t,
        6,
    ) != 2 || u16_at(t, 10) != 20 {
        None
    } else {
        let off = u16_at(t, 4) as int;
        let ac = u16_at(t, 8);
        let ic = u16_at(t, 12);
        let isz = u16_at(t, 14);
        let axes_len = 20 * ac;
        let inst = off + axes_len;
        if axes_len > 0xffff || off < 16 || !avail(t, off, axes_len) || inst > 0xffff || !avail(
            t,
            inst,
            isz * ic,
        ) || !instances_parse(t, inst, ac, isz, ic) {
            None
        } else {
            Some((SpecFvarTable {
                major_version: 1,
                minor_version: 0,
                offset_axes: off as u16,
                axis_count: ac,
                axis_size: 20,
                instance_count: ic,
                instance_size: isz,
                axes: Seq::new(ac as nat, |i: int| axis_record_at(t, off + 20 * i)),
                instances: Seq::new(ic as nat, |i: int| instance_at(t, inst, ac, isz, i).unwrap()),
            }, 16))
        }
    }
}

fn instance(t: &[u8], q: usize, axis_count: u16, size: u16) -> (r: Option<InstanceRecord>)
    ensures
        match r {
            Some(v) => spec_instance(t@, q as int, axis_count, size) == Some(v@),
            None => spec_instance(t@, q as int, axis_count, size) is None,
        },
{
    let has_ps = size % 4 == 2;
    let need: usize = 4 + 4 * (axis_count as usize) + if has_ps {
        2
    } else {
        0
    };
    if !has_bytes(t, q, size as usize) || need > size as usize || get_u16be(t, q + 2) != 0 {
        return None;
    }
    let mut coords: Vec<Fixed32> = Vec::new();
    let mut i: usize = 0;
    while i < axis_count as usize
        invariant
            0 <= i <= axis_count,
            avail(t@, q as int, size as int),
            4 + 4 * axis_count <= size,
            t@.len() <= usize::MAX,
            coords@ =~= Seq::new(i as nat, |j: int| Fixed32(u32_at(t@, q + 4 + 4 * j))),
        decreases axis_count - i,
    {
        coords.push(Fixed32(get_u32be(t, q + 4 + 4 * i)));
        i = i + 1;
        assert(coords@ =~= Seq::new(i as nat, |j: int| Fixed32(u32_at(t@, q + 4 + 4 * j))));
    }
    let ps = if has_ps {
        Some(get_u16be(t, q + 4 + 4 * (axis_count as usize)))
    } else {
        None
    };
    Some(
        InstanceRecord {
            subfamily_nameid: get_u16be(t, q),
            flags: 0,
            coordinates: coords,
            postscript_nameid: ps,
        },
    )
}

/// Parses the `fvar` table held in `t`.
pub fn fvar_table(t: &[u8]) -> (r: Option<(FvarTable, usize)>)
    ensures
        agrees(r, spec_fvar_table(t@)),
{
    if !has_bytes(t, 0, 16) || get_u16be(t, 0) != 1 || get_u16be(t, 2) != 0 || get_u16be(t, 4) == 0
        || get_u16be(t, 6) != 2 || get_u16be(t, 10) != 20 {
        return None;
    }
    let off = get_u16be(t, 4);
    let ac = get_u16be(t, 8);
    let ic = get_u16be(t, 12);
    let isz = get_u16be(t, 14);
    let axes_len: u32 = 20 * (ac as u32);
    if axes_len > 0xffff {
        return None;
    }
    let axes_at = match pos_add_u16(0, off) {
        Some(x) => x as usize,
        None => return None,
    };
    let axes_at = match link_forward_unchecked(axes_at, 16) {
        Some(x) => x,
        None => return None,
    };
    if !has_bytes(t, axes_at, axes_len as usize) {
        return None;
    }
    let inst_rel: u32 = (off as u32) + axes_len;
    if inst_rel > 0xffff {
        return None;
    }
    let inst = inst_rel as usize;
    proof {
        assert(isz * ic <= 0xffff * 0xffff) by (nonlinear_arith)
            requires
                isz <= 0xffff,
                ic <= 0xffff,
        ;
    }
    let total: u32 = (isz as u32) * (ic as u32);
    if !has_bytes(t, inst, total as usize) {
        return None;
    }
    let mut axes: Vec<VariationAxisRecord> = Vec::new();
    let mut i: usize = 0;
    while i < ac as usize
        invariant
            0 <= i <= ac,
            avail(t@, axes_at as int, 20 * ac),
            t@.len() <= usize::MAX,
            axes@ =~= Seq::new(i as nat, |j: int| axis_record_at(t@, axes_at + 20 * j)),
        decreases ac - i,
    {
        let q = axes_at + 20 * i;
        let flags = get_u16be(t, q + 16);
        axes.push(
            VariationAxisRecord {
                axis_tag: get_u32be(t, q),
                min_value: Fixed32(get_u32be(t, q + 4)),
                default_value: Fixed32(get_u32be(t, q + 8)),
                max_value: Fixed32(get_u32be(t, q + 12)),
                hidden_axis: flags % 2 == 1,
                axis_name_id: get_u16be(t, q + 18),
            },
        );
        i = i + 1;
        assert(axes@ =~= Seq::new(i as nat, |j: int| axis_record_at(t@, axes_at + 20 * j)));
    }
    let instances = match instances(t, inst, ac, isz, ic) {
        Some(v) => v,
        None => return None,
    };
    let f = FvarTable {
        major_version: 1,
        minor_version: 0,
        offset_axes: off,
        axis_count: ac,
        axis_size: 20,
        instance_count: ic,
        instance_size: isz,
        axes,
        instances,
    };
    Some((f, 16))
}


/// An `fvar` table holds `axis_count` axis records and `instance_count`
/// instance records; each instance gives one coordinate per axis, and has a
/// PostScript name id exactly when the instance size leaves room for one
/// (two bytes more than a multiple of four).
pub proof fn lemma_fvar_shape(t: Seq<u8>)
    ensures
        spec_fvar_table(t) matches Some((f, _)) ==> f.axes.len() == f.axis_count && f.instances.len()
            == f.instance_count && forall|i: int|
            0 <= i < f.instance_count ==> (#[trigger] f.instances[i]).coordinates.len() == f.axis_count && (
            f.instances[i].postscript_nameid is Some <==> f.instance_size % 4 == 2),
{
    if let Some((f, _)) = spec_fvar_table(t) {
        assert forall|i: int| 0 <= i < f.instance_count implies (#[trigger] f.instances[i]).coordinates.len()
            == f.axis_count && (f.instances[i].postscript_nameid is Some <==> f.instance_size % 4 == 2) by {
            let inst = u16_at(t, 4) + 20 * f.axis_count;
            assert(instance_at(t, inst, f.axis_count, f.instance_size, i) is Some);
        }
    }
}


/// An axis record at `p` holds its tag, minimum, default and maximum as the
/// double words at `p` to `p + 12`, hides the axis exactly when bit 0 of
/// the flags word at `p + 16` is set, and names it by the word at `p + 18`;
/// the `fvar` header's axes offset, counts and sizes are the words at 4 to
/// 14, and axis `i` lies at the axes offset plus `20 * i`.
pub proof fn lemma_fvar_fields(t: Seq<u8>, p: int)
    requires
        0 <= p && p + 20 <= t.len(),
    ensures
        axis_record_at(t, p).axis_tag == crate::bytes::dword_at(t, p),
        axis_record_at(t, p).min_value.0 == crate::bytes::dword_at(t, p + 4),
        axis_record_at(t, p).default_value.0 == crate::bytes::dword_at(t, p + 8),
        axis_record_at(t, p).max_value.0 == crate::bytes::dword_at(t, p + 12),
        axis_record_at(t, p).hidden_axis == (u16_at(t, p + 16) & 1 != 0),
        axis_record_at(t, p).axis_name_id == crate::bytes::word_at(t, p + 18),
{
    crate::bytes::lemma_dword_spells(t, p);
    crate::bytes::lemma_dword_spells(t, p + 4);
    crate::bytes::lemma_dword_spells(t, p + 8);
    crate::bytes::lemma_dword_spells(t, p + 12);
    crate::bytes::lemma_readers_spell(t, p + 18);
    let f = u16_at(t, p + 16);
    assert((f % 2 == 1) == (f & 1 != 0)) by (bit_vector);
}

/// The `fvar` header's fields are the words at 4 to 14: axes offset, axis
/// count, axis size, instance count and instance size; axis `i` is the
/// record at the axes offset plus `20 * i`, and each instance's subfamily
/// name id and coordinates are the word and double words of its record.
pub proof fn lemma_fvar_header_fields(t: Seq<u8>)
    ensures
        spec_fvar_table(t) matches Some((f, _)) ==> {
            &&& f.offset_axes == crate::bytes::word_at(t, 4)
            &&& f.axis_count == crate::bytes::word_at(t, 8)
            &&& f.axis_size == crate::bytes::word_at(t, 10)
            &&& f.instance_count == crate::bytes::word_at(t, 12)
            &&& f.instance_size == crate::bytes::word_at(t, 14)
            &&& forall|i: int| 0 <= i < f.axis_count ==> #[trigger] f.axes[i] == axis_record_at(t, f.offset_axes + 20 * i)
            &&& forall|i: int|
                0 <= i < f.instance_count ==> {
                    let q = f.offset_axes + 20 * f.axis_count + f.instance_size * i;
                    &&& (#[trigger] f.instances[i]).subfamily_nameid == crate::bytes::word_at(t, q)
                    &&& f.instances[i].coordinates.len() == f.axis_count
                    &&& forall|j: int| 0 <= j < f.axis_count ==> #[trigger] f.instances[i].coordinates[j].0 == crate::bytes::dword_at(t, q + 4 + 4 * j)
                }
        },
{
    if let Some((f, _)) = spec_fvar_table(t) {
        crate::bytes::lemma_readers_spell(t, 4);
        crate::bytes::lemma_readers_spell(t, 8);
        crate::bytes::lemma_readers_spell(t, 10);
        crate::bytes::lemma_readers_spell(t, 12);
        crate::bytes::lemma_readers_spell(t, 14);
        assert forall|i: int| 0 <= i < f.instance_count implies {
            let q = f.offset_axes + 20 * f.axis_count + f.instance_size * i;
            &&& (#[trigger] f.instances[i]).subfamily_nameid == crate::bytes::word_at(t, q)
            &&& f.instances[i].coordinates.len() == f.axis_count
            &&& forall|j: int| 0 <= j < f.axis_count ==> #[trigger] f.instances[i].coordinates[j].0 == crate::bytes::dword_at(t, q + 4 + 4 * j)
        } by {
            let q = f.offset_axes + 20 * f.axis_count + f.instance_size * i;
            assert(instance_at(t, f.offset_axes + 20 * f.axis_count, f.axis_count, f.instance_size, i) is Some);
            crate::bytes::lemma_readers_spell(t, q);
            assert forall|j: int| 0 <= j < f.axis_count implies #[trigger] f.instances[i].coordinates[j].0 == crate::bytes::dword_at(t, q + 4 + 4 * j) by {
                crate::bytes::lemma_dword_spells(t, q + 4 + 4 * j);
            }
        }
    }
}

} // verus!
