//! The glyph definition table (`GDEF`) and the item variation store that
//! it and other tables use. Offsets are relative to the start of the table
//! that holds them; positions are relative to the start of the `GDEF`
//! table.
use vstd::prelude::*;
use crate::bytes::{as_i16, as_i8, avail, get_u16be, get_u32be, has_bytes, prepend_parsed, to_i16, to_i8, u16_at, u32_at};
use crate::opentype::cmap::{read_u16s, u16s_at};
use crate::opentype::context::{class_def_link, spec_class_def_link};
use crate::opentype::gpos_values::{device_link, spec_device_link, DeviceTable, SpecDeviceTable};
use crate::opentype::layout::{
    coverage_link, coverage_table, spec_coverage_link, spec_coverage_table, ClassDef, CoverageTable,
    SpecClassDef, SpecCoverageTable,
};
use crate::opentype::links::{Link16, Link32, offset16_mandatory, offset32, spec_offset16, spec_offset32};
use crate::opentype::values::F2Dot14;

verus! {

/// The start, peak and end of a region along one axis, in 2.14 fixed point.
#[derive(Clone, Copy, Debug, PartialEq, Eq)]
pub struct RegionAxisCoordinates {
    pub start_coord: F2Dot14,
    pub peak_coord: F2Dot14,
    pub end_coord: F2Dot14,
}

impl View for RegionAxisCoordinates {
    type V = RegionAxisCoordinates;

    open spec fn view(&self) -> RegionAxisCoordinates {
        *self
    }
}

/// The six-byte axis coordinates at `q`.
pub open spec fn axis_coords_item(t: Seq<u8>, q: int) -> Option<(RegionAxisCoordinates, int)> {
    if avail(t, q, 6) {
        Some((RegionAxisCoordinates {
            start_coord: F2Dot14(u16_at(t, q)),
            peak_coord: F2Dot14(u16_at(t, q + 2)),
            end_coord: F2Dot14(u16_at(t, q + 4)),
        }, q + 6))
    } else {
        None
    }
}

fn axis_coords_item_exec(t: &[u8], q: usize) -> (r: Option<(RegionAxisCoordinates, usize)>)
    ensures
        match r {
            Some((v, e)) => axis_coords_item(t@, q as int) == Some((v@, e as int)),
            None => axis_coords_item(t@, q as int) is None,
        },
{
    if !has_bytes(t, q, 6) {
        return None;
    }
    Some(
        (
            RegionAxisCoordinates {
                start_coord: F2Dot14(get_u16be(t, q)),
                peak_coord: F2Dot14(get_u16be(t, q + 2)),
                end_coord: F2Dot14(get_u16be(t, q + 4)),
            },
            q + 6,
        ),
    )
}

/// The identity view of a sequence of plain values.
pub open spec fn plain_view<T>(v: Seq<T>) -> Seq<T> {
    v
}

/// `n` axis coordinates one after the other from `q`: one region.
pub open spec fn spec_region_axes(t: Seq<u8>, q: int, n: nat) -> Option<(Seq<RegionAxisCoordinates>, int)>
    decreases n,
{
    if n == 0 {
        Some((Seq::empty(), q))
    } else {
        match axis_coords_item(t, q) {
            None => None,
            Some((x, e)) => match spec_region_axes(t, e, (n - 1) as nat) {
                None => None,
                Some((rest, e2)) => Some((seq![x] + rest, e2)),
            },
        }
    }
}

fn region_axes(t: &[u8], q: usize, n: u16) -> (r: Option<(Vec<RegionAxisCoordinates>, usize)>)
    ensures
        match r {
            Some((v, e)) => spec_region_axes(t@, q as int, n as nat) == Some((plain_view(v@), e as int)),
            None => spec_region_axes(t@, q as int, n as nat) is None,
        },
{
    let mut v: Vec<RegionAxisCoordinates> = Vec::new();
    let mut i: u16 = 0;
    let mut p: usize = q;
    proof {
        if let Some((rest, _)) = spec_region_axes(t@, q as int, n as nat) {
            assert(plain_view(v@) + rest =~= rest);
        }
    }
    while i < n
        invariant
            0 <= i <= n,
            spec_region_axes(t@, q as int, n as nat) == prepend_parsed(
                plain_view(v@),
                spec_region_axes(t@, p as int, (n - i) as nat),
            ),
        decreases n - i,
    {
        let (x, e) = match axis_coords_item_exec(t, p) {
            Some(r) => r,
            None => return None,
        };
        let ghost old_v = plain_view(v@);
        let ghost tail = spec_region_axes(t@, e as int, (n - i - 1) as nat);
        assert(spec_region_axes(t@, p as int, (n - i) as nat) == prepend_parsed(seq![x@], tail));
        v.push(x);
        assert(plain_view(v@) =~= old_v + seq![x@]);
        proof {
            if let Some((rest, _)) = tail {
                assert(old_v + (seq![x@] + rest) =~= (old_v + seq![x@]) + rest);
            }
        }
        i = i + 1;
        p = e;
    }
    assert(plain_view(v@) + Seq::<RegionAxisCoordinates>::empty() =~= plain_view(v@));
    Some((v, p))
}

/// A region of the design space: its extent along each axis.
#[derive(Clone, Debug, PartialEq, Eq)]
pub struct VariationRegion {
    pub region_axes: Vec<RegionAxisCoordinates>,
}

/// Mathematical form of `VariationRegion`.
pub struct SpecVariationRegion {
    pub region_axes: Seq<RegionAxisCoordinates>,
}

impl View for VariationRegion {
    type V = SpecVariationRegion;

    open spec fn view(&self) -> SpecVariationRegion {
        SpecVariationRegion { region_axes: self.region_axes@ }
    }
}

/// The region of `axes` axes at `q`.
pub open spec fn region_item(t: Seq<u8>, axes: u16, q: int) -> Option<(SpecVariationRegion, int)> {
    match spec_region_axes(t, q, axes as nat) {
        Some((v, e)) => Some((SpecVariationRegion { region_axes: v }, e)),
        None => None,
    }
}

fn region_item_exec(t: &[u8], axes: u16, q: usize) -> (r: Option<(VariationRegion, usize)>)
    ensures
        match r {
            Some((v, e)) => region_item(t@, axes, q as int) == Some((v@, e as int)),
            None => region_item(t@, axes, q as int) is None,
        },
{
    match region_axes(t, q, axes) {
        Some((v, e)) => Some((VariationRegion { region_axes: v }, e)),
        None => None,
    }
}

/// The views of a sequence of `VariationRegion`.
pub open spec fn regions_view(v: Seq<VariationRegion>) -> Seq<SpecVariationRegion> {
    v.map_values(|x: VariationRegion| x@)
}

/// `n` regions one after the other from `q`.
pub open spec fn spec_regions(t: Seq<u8>, axes: u16, q: int, n: nat) -> Option<(Seq<SpecVariationRegion>, int)>
    decreases n,
{
    if n == 0 {
        Some((Seq::empty(), q))
    } else {
        match region_item(t, axes, q) {
            None => None,
            Some((x, e)) => match spec_regions(t, axes, e, (n - 1) as nat) {
                None => None,
                Some((rest, e2)) => Some((seq![x] + rest, e2)),
            },
        }
    }
}

fn regions(t: &[u8], axes: u16, q: usize, n: u16) -> (r: Option<(Vec<VariationRegion>, usize)>)
    ensures
        match r {
            Some((v, e)) => spec_regions(t@, axes, q as int, n as nat) == Some((regions_view(v@), e as int)),
            None => spec_regions(t@, axes, q as int, n as nat) is None,
        },
{
    let mut v: Vec<VariationRegion> = Vec::new();
    let mut i: u16 = 0;
    let mut p: usize = q;
    proof {
        if let Some((rest, _)) = spec_regions(t@, axes, q as int, n as nat) {
            assert(regions_view(v@) + rest =~= rest);
        }
    }
    while i < n
        invariant
            0 <= i <= n,
            spec_regions(t@, axes, q as int, n as nat) == prepend_parsed(
                regions_view(v@),
                spec_regions(t@, axes, p as int, (n - i) as nat),
            ),
        decreases n - i,
    {
        let (x, e) = match region_item_exec(t, axes, p) {
            Some(r) => r,
            None => return None,
        };
        let ghost old_v = regions_view(v@);
        let ghost tail = spec_regions(t@, axes, e as int, (n - i - 1) as nat);
        assert(spec_regions(t@, axes, p as int, (n - i) as nat) == prepend_parsed(seq![x@], tail));
        v.push(x);
        assert(regions_view(v@) =~= old_v + seq![x@]);
        proof {
            if let Some((rest, _)) = tail {
                assert(old_v + (seq![x@] + rest) =~= (old_v + seq![x@]) + rest);
            }
        }
        i = i + 1;
        p = e;
    }
    assert(regions_view(v@) + Seq::<SpecVariationRegion>::empty() =~= regions_view(v@));
    Some((v, p))
}

/// The variation regions of a store.
#[derive(Clone, Debug, PartialEq, Eq)]
pub struct VariationRegionList {
    pub axis_count: u16,
    pub region_count: u16,
    pub variation_regions: Vec<VariationRegion>,
}

/// Mathematical form of `VariationRegionList`.
pub struct SpecVariationRegionList {
    pub axis_count: u16,
    pub region_count: u16,
    pub variation_regions: Seq<SpecVariationRegion>,
}

impl View for VariationRegionList {
    type V = SpecVariationRegionList;

    open spec fn view(&self) -> SpecVariationRegionList {
        SpecVariationRegionList {
            axis_count: self.axis_count,
            region_count: self.region_count,
            variation_regions: regions_view(self.variation_regions@),
        }
    }
}

/// The region list at `y`: the axis count, a region count of at most
/// 32767, and the regions.
pub open spec fn spec_region_list(t: Seq<u8>, y: int) -> Option<SpecVariationRegionList> {
    if !avail(t, y, 4) || u16_at(t, y + 2) > 0x7fff {
        None
    } else {
        match spec_regions(t, u16_at(t, y), y + 4, u16_at(t, y + 2) as nat) {
            Some((v, _)) => Some(SpecVariationRegionList {
                axis_count: u16_at(t, y),
                region_count: u16_at(t, y + 2),
                variation_regions: v,
            }),
            None => None,
        }
    }
}

fn region_list(t: &[u8], y: usize) -> (r: Option<VariationRegionList>)
    ensures
        match r {
            Some(v) => spec_region_list(t@, y as int) == Some(v@),
            None => spec_region_list(t@, y as int) is None,
        },
{
    if !has_bytes(t, y, 4) || get_u16be(t, y + 2) > 0x7fff {
        return None;
    }
    let axes = get_u16be(t, y);
    let n = get_u16be(t, y + 2);
    match regions(t, axes, y + 4, n) {
        Some((v, _)) => Some(VariationRegionList { axis_count: axes, region_count: n, variation_regions: v }),
        None => None,
    }
}

/// `n` signed 32-bit values at `p`.
pub open spec fn i32s_at(t: Seq<u8>, p: int, n: int) -> Seq<i32> {
    Seq::new(n as nat, |i: int| crate::bytes::to_i32(u32_at(t, p + 4 * i)))
}

/// `n` signed 16-bit values at `p`.
pub open spec fn i16s_at(t: Seq<u8>, p: int, n: int) -> Seq<i16> {
    Seq::new(n as nat, |i: int| to_i16(u16_at(t, p + 2 * i)))
}

/// `n` signed bytes at `p`.
pub open spec fn i8s_at(t: Seq<u8>, p: int, n: int) -> Seq<i8> {
    Seq::new(n as nat, |i: int| to_i8(t[p + i]))
}

fn read_i32s(t: &[u8], p: usize, n: usize) -> (v: Vec<i32>)
    requires
        avail(t@, p as int, 4 * n),
    ensures
        v@ == i32s_at(t@, p as int, n as int),
{
    let _len = t.len();
    let mut v: Vec<i32> = Vec::new();
    let mut i: usize = 0;
    while i < n
        invariant
            0 <= i <= n,
            avail(t@, p as int, 4 * n),
            t@.len() <= usize::MAX,
            v@ =~= i32s_at(t@, p as int, i as int),
        decreases n - i,
    {
        v.push(crate::bytes::as_i32(get_u32be(t, p + 4 * i)));
        i = i + 1;
        assert(v@ =~= i32s_at(t@, p as int, i as int));
    }
    v
}

fn read_i16s(t: &[u8], p: usize, n: usize) -> (v: Vec<i16>)
    requires
        avail(t@, p as int, 2 * n),
    ensures
        v@ == i16s_at(t@, p as int, n as int),
{
    let _len = t.len();
    let mut v: Vec<i16> = Vec::new();
    let mut i: usize = 0;
    while i < n
        invariant
            0 <= i <= n,
            avail(t@, p as int, 2 * n),
            t@.len() <= usize::MAX,
            v@ =~= i16s_at(t@, p as int, i as int),
        decreases n - i,
    {
        v.push(as_i16(get_u16be(t, p + 2 * i)));
        i = i + 1;
        assert(v@ =~= i16s_at(t@, p as int, i as int));
    }
    v
}

fn read_i8s(t: &[u8], p: usize, n: usize) -> (v: Vec<i8>)
    requires
        avail(t@, p as int, n as int),
    ensures
        v@ == i8s_at(t@, p as int, n as int),
{
    let _len = t.len();
    let mut v: Vec<i8> = Vec::new();
    let mut i: usize = 0;
    while i < n
        invariant
            0 <= i <= n,
            avail(t@, p as int, n as int),
            t@.len() <= usize::MAX,
            v@ =~= i8s_at(t@, p as int, i as int),
        decreases n - i,
    {
        v.push(as_i8(t[p + i]));
        i = i + 1;
        assert(v@ =~= i8s_at(t@, p as int, i as int));
    }
    v
}

/// The deltas of one item: `word_count` wide deltas, then the rest of the
/// regions' deltas narrow; wide and narrow are 32 and 16 bits where long
/// words are set, 16 and 8 bits otherwise.
#[derive(Clone, Debug, PartialEq, Eq)]
pub enum DeltaSet {
    Delta32 { delta_data_full_word: Vec<i32>, delta_data_half_word: Vec<i16> },
    Delta16 { delta_data_full_word: Vec<i16>, delta_data_half_word: Vec<i8> },
}

/// Mathematical form of `DeltaSet`.
pub enum SpecDeltaSet {
    Delta32 { delta_data_full_word: Seq<i32>, delta_data_half_word: Seq<i16> },
    Delta16 { delta_data_full_word: Seq<i16>, delta_data_half_word: Seq<i8> },
}

impl View for DeltaSet {
    type V = SpecDeltaSet;

    open spec fn view(&self) -> SpecDeltaSet {
        match self {
            DeltaSet::Delta32 { delta_data_full_word, delta_data_half_word } => SpecDeltaSet::Delta32 {
                delta_data_full_word: delta_data_full_word@,
                delta_data_half_word: delta_data_half_word@,
            },
            DeltaSet::Delta16 { delta_data_full_word, delta_data_half_word } => SpecDeltaSet::Delta16 {
                delta_data_full_word: delta_data_full_word@,
                delta_data_half_word: delta_data_half_word@,
            },
        }
    }
}

/// The delta set at `q` for `regions` regions of which the first `words`
/// are wide.
pub open spec fn delta_set_item(t: Seq<u8>, long_words: bool, words: u16, regions: u16, q: int) -> Option<
    (SpecDeltaSet, int),
> {
    if long_words {
        let h = q + 4 * words;
        if avail(t, q, 4 * words) && avail(t, h, 2 * (regions - words)) {
            Some((SpecDeltaSet::Delta32 {
                delta_data_full_word: i32s_at(t, q, words as int),
                delta_data_half_word: i16s_at(t, h, regions - words),
            }, h + 2 * (regions - words)))
        } else {
            None
        }
    } else {
        let h = q + 2 * words;
        if avail(t, q, 2 * words) && avail(t, h, regions - words) {
            Some((SpecDeltaSet::Delta16 {
                delta_data_full_word: i16s_at(t, q, words as int),
                delta_data_half_word: i8s_at(t, h, regions - words),
            }, h + (regions - words)))
        } else {
            None
        }
    }
}

fn delta_set_item_exec(t: &[u8], long_words: bool, words: u16, regions: u16, q: usize) -> (r: Option<
    (DeltaSet, usize),
>)
    requires
        words <= regions,
    ensures
        match r {
            Some((v, e)) => delta_set_item(t@, long_words, words, regions, q as int) == Some((v@, e as int)),
            None => delta_set_item(t@, long_words, words, regions, q as int) is None,
        },
{
    let w = words as usize;
    let k = (regions - words) as usize;
    if long_words {
        if !has_bytes(t, q, 4 * w) {
            return None;
        }
        let h = q + 4 * w;
        if !has_bytes(t, h, 2 * k) {
            return None;
        }
        let d = DeltaSet::Delta32 {
            delta_data_full_word: read_i32s(t, q, w),
            delta_data_half_word: read_i16s(t, h, k),
        };
        Some((d, h + 2 * k))
    } else {
        if !has_bytes(t, q, 2 * w) {
            return None;
        }
        let h = q + 2 * w;
        if !has_bytes(t, h, k) {
            return None;
        }
        let d = DeltaSet::Delta16 {
            delta_data_full_word: read_i16s(t, q, w),
            delta_data_half_word: read_i8s(t, h, k),
        };
        Some((d, h + k))
    }
}

/// The views of a sequence of `DeltaSet`.
pub open spec fn delta_sets_view(v: Seq<DeltaSet>) -> Seq<SpecDeltaSet> {
    v.map_values(|x: DeltaSet| x@)
}

/// The delta set at `q` as a sequence item; wide deltas may not outnumber
/// the regions.
pub open spec fn delta_item(t: Seq<u8>, long_words: bool, words: u16, regions: u16, q: int) -> Option<
    (SpecDeltaSet, int),
> {
    if words > regions {
        None
    } else {
        delta_set_item(t, long_words, words, regions, q)
    }
}

fn delta_item_exec(t: &[u8], long_words: bool, words: u16, regions: u16, q: usize) -> (r: Option<
    (DeltaSet, usize),
>)
    ensures
        match r {
            Some((v, e)) => delta_item(t@, long_words, words, regions, q as int) == Some((v@, e as int)),
            None => delta_item(t@, long_words, words, regions, q as int) is None,
        },
{
    if words > regions {
        return None;
    }
    delta_set_item_exec(t, long_words, words, regions, q)
}

/// `n` delta sets one after the other from `q`.
pub open spec fn spec_delta_sets(t: Seq<u8>, long_words: bool, words: u16, regions: u16, q: int, n: nat) -> Option<(Seq<SpecDeltaSet>, int)>
    decreases n,
{
    if n == 0 {
        Some((Seq::empty(), q))
    } else {
        match delta_item(t, long_words, words, regions, q) {
            None => None,
            Some((x, e)) => match spec_delta_sets(t, long_words, words, regions, e, (n - 1) as nat) {
                None => None,
                Some((rest, e2)) => Some((seq![x] + rest, e2)),
            },
        }
    }
}

fn delta_sets(t: &[u8], long_words: bool, words: u16, regions: u16, q: usize, n: u16) -> (r: Option<(Vec<DeltaSet>, usize)>)
    ensures
        match r {
            Some((v, e)) => spec_delta_sets(t@, long_words, words, regions, q as int, n as nat) == Some((delta_sets_view(v@), e as int)),
            None => spec_delta_sets(t@, long_words, words, regions, q as int, n as nat) is None,
        },
{
    let mut v: Vec<DeltaSet> = Vec::new();
    let mut i: u16 = 0;
    let mut p: usize = q;
    proof {
        if let Some((rest, _)) = spec_delta_sets(t@, long_words, words, regions, q as int, n as nat) {
            assert(delta_sets_view(v@) + rest =~= rest);
        }
    }
    while i < n
        invariant
            0 <= i <= n,
            spec_delta_sets(t@, long_words, words, regions, q as int, n as nat) == prepend_parsed(
                delta_sets_view(v@),
                spec_delta_sets(t@, long_words, words, regions, p as int, (n - i) as nat),
            ),
        decreases n - i,
    {
        let (x, e) = match delta_item_exec(t, long_words, words, regions, p) {
            Some(r) => r,
            None => return None,
        };
        let ghost old_v = delta_sets_view(v@);
        let ghost tail = spec_delta_sets(t@, long_words, words, regions, e as int, (n - i - 1) as nat);
        assert(spec_delta_sets(t@, long_words, words, regions, p as int, (n - i) as nat) == prepend_parsed(seq![x@], tail));
        v.push(x);
        assert(delta_sets_view(v@) =~= old_v + seq![x@]);
        proof {
            if let Some((rest, _)) = tail {
                assert(old_v + (seq![x@] + rest) =~= (old_v + seq![x@]) + rest);
            }
        }
        i = i + 1;
        p = e;
    }
    assert(delta_sets_view(v@) + Seq::<SpecDeltaSet>::empty() =~= delta_sets_view(v@));
    Some((v, p))
}

/// A block of variation data: the regions it uses and a delta set per
/// item.
#[derive(Clone, Debug, PartialEq, Eq)]
pub struct ItemVariationData {
    pub item_count: u16,
    pub long_words: bool,
    pub word_count: u16,
    pub region_index_count: u16,
    pub region_indices: Vec<u16>,
    pub delta_sets: Vec<DeltaSet>,
}

/// Mathematical form of `ItemVariationData`.
pub struct SpecItemVariationData {
    pub item_count: u16,
    pub long_words: bool,
    pub word_count: u16,
    pub region_index_count: u16,
    pub region_indices: Seq<u16>,
    pub delta_sets: Seq<SpecDeltaSet>,
}

impl View for ItemVariationData {
    type V = SpecItemVariationData;

    open spec fn view(&self) -> SpecItemVariationData {
        SpecItemVariationData {
            item_count: self.item_count,
            long_words: self.long_words,
            word_count: self.word_count,
            region_index_count: self.region_index_count,
            region_indices: self.region_indices@,
            delta_sets: delta_sets_view(self.delta_sets@),
        }
    }
}

/// The variation data at `z`: the item count, the wide-delta count (its
/// high bit saying whether deltas are long), the region indices and the
/// delta sets; there may not be more wide deltas than regions.
pub open spec fn spec_item_variation_data(t: Seq<u8>, z: int) -> Option<SpecItemVariationData> {
    if !avail(t, z, 6) {
        None
    } else {
        let n = u16_at(t, z);
        let raw = u16_at(t, z + 2);
        let long_words = raw >= 0x8000;
        let words = (raw % 0x8000) as u16;
        let k = u16_at(t, z + 4);
        if !avail(t, z + 6, 2 * k) {
            None
        } else {
            match spec_delta_sets(t, long_words, words, k, z + 6 + 2 * k, n as nat) {
                None => None,
                Some((sets, _)) => Some(SpecItemVariationData {
                    item_count: n,
                    long_words,
                    word_count: words,
                    region_index_count: k,
                    region_indices: u16s_at(t, z + 6, k as int),
                    delta_sets: sets,
                }),
            }
        }
    }
}

fn item_variation_data(t: &[u8], z: usize) -> (r: Option<ItemVariationData>)
    ensures
        match r {
            Some(v) => spec_item_variation_data(t@, z as int) == Some(v@),
            None => spec_item_variation_data(t@, z as int) is None,
        },
{
    if !has_bytes(t, z, 6) {
        return None;
    }
    let n = get_u16be(t, z);
    let raw = get_u16be(t, z + 2);
    let long_words = raw >= 0x8000;
    let words = raw % 0x8000;
    let k = get_u16be(t, z + 4);
    if !has_bytes(t, z + 6, 2 * (k as usize)) {
        return None;
    }
    let q = z + 6 + 2 * (k as usize);
    match delta_sets(t, long_words, words, k, q, n) {
        None => None,
        Some((sets, _)) => Some(
            ItemVariationData {
                item_count: n,
                long_words,
                word_count: words,
                region_index_count: k,
                region_indices: read_u16s(t, z + 6, k as usize),
                delta_sets: sets,
            },
        ),
    }
}

/// A 32-bit offset at `q`, relative to `base`, to variation data.
pub open spec fn variation_data_item(t: Seq<u8>, base: int, q: int) -> Option<(Link32<SpecItemVariationData>, int)> {
    match spec_offset32(t, base, q) {
        None => None,
        Some(((off, None), e)) => Some((Link32 { offset: off, link: None }, e)),
        Some(((off, Some(x)), e)) => match spec_item_variation_data(t, x) {
            Some(v) => Some((Link32 { offset: off, link: Some(v) }, e)),
            None => None,
        },
    }
}

fn variation_data_item_exec(t: &[u8], base: usize, q: usize) -> (r: Option<(Link32<ItemVariationData>, usize)>)
    ensures
        match r {
            Some((v, e)) => variation_data_item(t@, base as int, q as int) == Some((v@, e as int)),
            None => variation_data_item(t@, base as int, q as int) is None,
        },
{
    let (off, target, e) = match offset32(t, base, q) {
        Some(o) => o,
        None => return None,
    };
    match target {
        None => Some((Link32 { offset: off, link: None }, e)),
        Some(x) => match item_variation_data(t, x) {
            Some(v) => Some((Link32 { offset: off, link: Some(v) }, e)),
            None => None,
        },
    }
}

/// The views of a sequence of `Link32<ItemVariationData>`.
pub open spec fn variation_data_view(v: Seq<Link32<ItemVariationData>>) -> Seq<Link32<SpecItemVariationData>> {
    v.map_values(|x: Link32<ItemVariationData>| x@)
}

/// `n` 32-bit offsets from `q`, relative to `base`, to variation data.
pub open spec fn spec_variation_data_links(t: Seq<u8>, base: int, q: int, n: nat) -> Option<(Seq<Link32<SpecItemVariationData>>, int)>
    decreases n,
{
    if n == 0 {
        Some((Seq::empty(), q))
    } else {
        match variation_data_item(t, base, q) {
            None => None,
            Some((x, e)) => match spec_variation_data_links(t, base, e, (n - 1) as nat) {
                None => None,
                Some((rest, e2)) => Some((seq![x] + rest, e2)),
            },
        }
    }
}

fn variation_data_links(t: &[u8], base: usize, q: usize, n: u16) -> (r: Option<(Vec<Link32<ItemVariationData>>, usize)>)
    ensures
        match r {
            Some((v, e)) => spec_variation_data_links(t@, base as int, q as int, n as nat) == Some((variation_data_view(v@), e as int)),
            None => spec_variation_data_links(t@, base as int, q as int, n as nat) is None,
        },
{
    let mut v: Vec<Link32<ItemVariationData>> = Vec::new();
    let mut i: u16 = 0;
    let mut p: usize = q;
    proof {
        if let Some((rest, _)) = spec_variation_data_links(t@, base as int, q as int, n as nat) {
            assert(variation_data_view(v@) + rest =~= rest);
        }
    }
    while i < n
        invariant
            0 <= i <= n,
            spec_variation_data_links(t@, base as int, q as int, n as nat) == prepend_parsed(
                variation_data_view(v@),
                spec_variation_data_links(t@, base as int, p as int, (n - i) as nat),
            ),
        decreases n - i,
    {
        let (x, e) = match variation_data_item_exec(t, base, p) {
            Some(r) => r,
            None => return None,
        };
        let ghost old_v = variation_data_view(v@);
        let ghost tail = spec_variation_data_links(t@, base as int, e as int, (n - i - 1) as nat);
        assert(spec_variation_data_links(t@, base as int, p as int, (n - i) as nat) == prepend_parsed(seq![x@], tail));
        v.push(x);
        assert(variation_data_view(v@) =~= old_v + seq![x@]);
        proof {
            if let Some((rest, _)) = tail {
                assert(old_v + (seq![x@] + rest) =~= (old_v + seq![x@]) + rest);
            }
        }
        i = i + 1;
        p = e;
    }
    assert(variation_data_view(v@) + Seq::<Link32<SpecItemVariationData>>::empty() =~= variation_data_view(v@));
    Some((v, p))
}

/// An item variation store: the regions and the blocks of deltas.
#[derive(Clone, Debug, PartialEq, Eq)]
pub struct ItemVariationStore {
    pub format: u16,
    pub variation_region_list_offset: Link32<VariationRegionList>,
    pub item_variation_data_count: u16,
    pub item_variation_data_offsets: Vec<Link32<ItemVariationData>>,
}

/// Mathematical form of `ItemVariationStore`.
pub struct SpecItemVariationStore {
    pub format: u16,
    pub variation_region_list_offset: Link32<SpecVariationRegionList>,
    pub item_variation_data_count: u16,
    pub item_variation_data_offsets: Seq<Link32<SpecItemVariationData>>,
}

impl View for ItemVariationStore {
    type V = SpecItemVariationStore;

    open spec fn view(&self) -> SpecItemVariationStore {
        SpecItemVariationStore {
            format: self.format,
            variation_region_list_offset: self.variation_region_list_offset@,
            item_variation_data_count: self.item_variation_data_count,
            item_variation_data_offsets: variation_data_view(self.item_variation_data_offsets@),
        }
    }
}

/// A 32-bit offset at `q`, relative to `base`, to a region list.
pub open spec fn region_list_item(t: Seq<u8>, base: int, q: int) -> Option<(Link32<SpecVariationRegionList>, int)> {
    match spec_offset32(t, base, q) {
        None => None,
        Some(((off, None), e)) => Some((Link32 { offset: off, link: None }, e)),
        Some(((off, Some(x)), e)) => match spec_region_list(t, x) {
            Some(v) => Some((Link32 { offset: off, link: Some(v) }, e)),
            None => None,
        },
    }
}

fn region_list_item_exec(t: &[u8], base: usize, q: usize) -> (r: Option<(Link32<VariationRegionList>, usize)>)
    ensures
        match r {
            Some((v, e)) => region_list_item(t@, base as int, q as int) == Some((v@, e as int)),
            None => region_list_item(t@, base as int, q as int) is None,
        },
{
    let (off, target, e) = match offset32(t, base, q) {
        Some(o) => o,
        None => return None,
    };
    match target {
        None => Some((Link32 { offset: off, link: None }, e)),
        Some(x) => match region_list(t, x) {
            Some(v) => Some((Link32 { offset: off, link: Some(v) }, e)),
            None => None,
        },
    }
}

/// The item variation store at `x`: format 1, the region list offset, and
/// the counted variation data offsets, all 32-bit and relative to `x`.
pub open spec fn spec_item_variation_store(t: Seq<u8>, x: int) -> Option<SpecItemVariationStore> {
    if !avail(t, x, 2) || u16_at(t, x) != 1 {
        None
    } else {
        match region_list_item(t, x, x + 2) {
            None => None,
            Some((rl, _)) => if !avail(t, x + 6, 2) {
                None
            } else {
                match spec_variation_data_links(t, x, x + 8, u16_at(t, x + 6) as nat) {
                    None => None,
                    Some((data, _)) => Some(SpecItemVariationStore {
                        format: 1,
                        variation_region_list_offset: rl,
                        item_variation_data_count: u16_at(t, x + 6),
                        item_variation_data_offsets: data,
                    }),
                }
            },
        }
    }
}

/// Parses the item variation store at `x`.
pub fn item_variation_store(t: &[u8], x: usize) -> (r: Option<ItemVariationStore>)
    ensures
        match r {
            Some(v) => spec_item_variation_store(t@, x as int) == Some(v@),
            None => spec_item_variation_store(t@, x as int) is None,
        },
{
    if !has_bytes(t, x, 2) || get_u16be(t, x) != 1 {
        return None;
    }
    let (rl, _) = match region_list_item_exec(t, x, x + 2) {
        Some(r) => r,
        None => return None,
    };
    if !has_bytes(t, x + 6, 2) {
        return None;
    }
    let n = get_u16be(t, x + 6);
    match variation_data_links(t, x, x + 8, n) {
        None => None,
        Some((data, _)) => Some(
            ItemVariationStore {
                format: 1,
                variation_region_list_offset: rl,
                item_variation_data_count: n,
                item_variation_data_offsets: data,
            },
        ),
    }
}

/// A coverage table with the end of its parse, for use as a link target.
pub open spec fn coverage_only(t: Seq<u8>, x: int) -> Option<SpecCoverageTable> {
    match spec_coverage_table(t, x) {
        Some((c, _)) => Some(c),
        None => None,
    }
}

fn coverage_only_exec(t: &[u8], x: usize) -> (r: Option<CoverageTable>)
    ensures
        match r {
            Some(c) => coverage_only(t@, x as int) == Some(c@),
            None => coverage_only(t@, x as int) is None,
        },
{
    match coverage_table(t, x) {
        Some((c, _)) => Some(c),
        None => None,
    }
}

/// A 32-bit offset at `q`, relative to `base`, to a coverage table.
pub open spec fn coverage32_item(t: Seq<u8>, base: int, q: int) -> Option<(Link32<SpecCoverageTable>, int)> {
    match spec_offset32(t, base, q) {
        None => None,
        Some(((off, None), e)) => Some((Link32 { offset: off, link: None }, e)),
        Some(((off, Some(x)), e)) => match coverage_only(t, x) {
            Some(v) => Some((Link32 { offset: off, link: Some(v) }, e)),
            None => None,
        },
    }
}

fn coverage32_item_exec(t: &[u8], base: usize, q: usize) -> (r: Option<(Link32<CoverageTable>, usize)>)
    ensures
        match r {
            Some((v, e)) => coverage32_item(t@, base as int, q as int) == Some((v@, e as int)),
            None => coverage32_item(t@, base as int, q as int) is None,
        },
{
    let (off, target, e) = match offset32(t, base, q) {
        Some(o) => o,
        None => return None,
    };
    match target {
        None => Some((Link32 { offset: off, link: None }, e)),
        Some(x) => match coverage_only_exec(t, x) {
            Some(v) => Some((Link32 { offset: off, link: Some(v) }, e)),
            None => None,
        },
    }
}

/// The views of a sequence of `Link32<CoverageTable>`.
pub open spec fn coverages32_view(v: Seq<Link32<CoverageTable>>) -> Seq<Link32<SpecCoverageTable>> {
    v.map_values(|x: Link32<CoverageTable>| x@)
}

/// `n` 32-bit coverage offsets from `q`, relative to `base`.
pub open spec fn spec_coverage32_links(t: Seq<u8>, base: int, q: int, n: nat) -> Option<(Seq<Link32<SpecCoverageTable>>, int)>
    decreases n,
{
    if n == 0 {
        Some((Seq::empty(), q))
    } else {
        match coverage32_item(t, base, q) {
            None => None,
            Some((x, e)) => match spec_coverage32_links(t, base, e, (n - 1) as nat) {
                None => None,
                Some((rest, e2)) => Some((seq![x] + rest, e2)),
            },
        }
    }
}

fn coverage32_links(t: &[u8], base: usize, q: usize, n: u16) -> (r: Option<(Vec<Link32<CoverageTable>>, usize)>)
    ensures
        match r {
            Some((v, e)) => spec_coverage32_links(t@, base as int, q as int, n as nat) == Some((coverages32_view(v@), e as int)),
            None => spec_coverage32_links(t@, base as int, q as int, n as nat) is None,
        },
{
    let mut v: Vec<Link32<CoverageTable>> = Vec::new();
    let mut i: u16 = 0;
    let mut p: usize = q;
    proof {
        if let Some((rest, _)) = spec_coverage32_links(t@, base as int, q as int, n as nat) {
            assert(coverages32_view(v@) + rest =~= rest);
        }
    }
    while i < n
        invariant
            0 <= i <= n,
            spec_coverage32_links(t@, base as int, q as int, n as nat) == prepend_parsed(
                coverages32_view(v@),
                spec_coverage32_links(t@, base as int, p as int, (n - i) as nat),
            ),
        decreases n - i,
    {
        let (x, e) = match coverage32_item_exec(t, base, p) {
            Some(r) => r,
            None => return None,
        };
        let ghost old_v = coverages32_view(v@);
        let ghost tail = spec_coverage32_links(t@, base as int, e as int, (n - i - 1) as nat);
        assert(spec_coverage32_links(t@, base as int, p as int, (n - i) as nat) == prepend_parsed(seq![x@], tail));
        v.push(x);
        assert(coverages32_view(v@) =~= old_v + seq![x@]);
        proof {
            if let Some((rest, _)) = tail {
                assert(old_v + (seq![x@] + rest) =~= (old_v + seq![x@]) + rest);
            }
        }
        i = i + 1;
        p = e;
    }
    assert(coverages32_view(v@) + Seq::<Link32<SpecCoverageTable>>::empty() =~= coverages32_view(v@));
    Some((v, p))
}

/// The mark glyph sets: one coverage table per set.
#[derive(Clone, Debug, PartialEq, Eq)]
pub struct MarkGlyphSet {
    pub format: u16,
    pub mark_glyph_set_count: u16,
    pub coverage: Vec<Link32<CoverageTable>>,
}

/// Mathematical form of `MarkGlyphSet`.
pub struct SpecMarkGlyphSet {
    pub format: u16,
    pub mark_glyph_set_count: u16,
    pub coverage: Seq<Link32<SpecCoverageTable>>,
}

impl View for MarkGlyphSet {
    type V = SpecMarkGlyphSet;

    open spec fn view(&self) -> SpecMarkGlyphSet {
        SpecMarkGlyphSet {
            format: self.format,
            mark_glyph_set_count: self.mark_glyph_set_count,
            coverage: coverages32_view(self.coverage@),
        }
    }
}

/// The mark glyph sets at `m`: format 1 and counted 32-bit coverage offsets
/// relative to `m`.
pub open spec fn spec_mark_glyph_set(t: Seq<u8>, m: int) -> Option<SpecMarkGlyphSet> {
    if !avail(t, m, 4) || u16_at(t, m) != 1 {
        None
    } else {
        match spec_coverage32_links(t, m, m + 4, u16_at(t, m + 2) as nat) {
            Some((v, _)) => Some(SpecMarkGlyphSet { format: 1, mark_glyph_set_count: u16_at(t, m + 2), coverage: v }),
            None => None,
        }
    }
}

fn mark_glyph_set(t: &[u8], m: usize) -> (r: Option<MarkGlyphSet>)
    ensures
        match r {
            Some(v) => spec_mark_glyph_set(t@, m as int) == Some(v@),
            None => spec_mark_glyph_set(t@, m as int) is None,
        },
{
    if !has_bytes(t, m, 4) || get_u16be(t, m) != 1 {
        return None;
    }
    let n = get_u16be(t, m + 2);
    match coverage32_links(t, m, m + 4, n) {
        Some((v, _)) => Some(MarkGlyphSet { format: 1, mark_glyph_set_count: n, coverage: v }),
        None => None,
    }
}

/// The attachment points of a glyph: contour point indices.
#[derive(Clone, Debug, PartialEq, Eq)]
pub struct AttachPoint {
    pub point_count: u16,
    pub point_indices: Vec<u16>,
}

/// Mathematical form of `AttachPoint`.
pub struct SpecAttachPoint {
    pub point_count: u16,
    pub point_indices: Seq<u16>,
}

impl View for AttachPoint {
    type V = SpecAttachPoint;

    open spec fn view(&self) -> SpecAttachPoint {
        SpecAttachPoint { point_count: self.point_count, point_indices: self.point_indices@ }
    }
}

/// The attachment point table at `x`.
pub open spec fn spec_attach_point(t: Seq<u8>, x: int) -> Option<SpecAttachPoint> {
    if avail(t, x, 2) && avail(t, x + 2, 2 * u16_at(t, x)) {
        Some(SpecAttachPoint { point_count: u16_at(t, x), point_indices: u16s_at(t, x + 2, u16_at(t, x) as int) })
    } else {
        None
    }
}

fn attach_point(t: &[u8], x: usize) -> (r: Option<AttachPoint>)
    ensures
        match r {
            Some(v) => spec_attach_point(t@, x as int) == Some(v@),
            None => spec_attach_point(t@, x as int) is None,
        },
{
    if !has_bytes(t, x, 2) {
        return None;
    }
    let n = get_u16be(t, x);
    if !has_bytes(t, x + 2, 2 * (n as usize)) {
        return None;
    }
    Some(AttachPoint { point_count: n, point_indices: read_u16s(t, x + 2, n as usize) })
}

/// An offset at `q`, relative to `base`, to an attachment point table.
pub open spec fn attach_point_item(t: Seq<u8>, base: int, q: int) -> Option<(Link16<SpecAttachPoint>, int)> {
    match spec_offset16(t, base, q) {
        None => None,
        Some(((off, None), e)) => Some((Link16 { offset: off, link: None }, e)),
        Some(((off, Some(x)), e)) => match spec_attach_point(t, x) {
            Some(v) => Some((Link16 { offset: off, link: Some(v) }, e)),
            None => None,
        },
    }
}

fn attach_point_item_exec(t: &[u8], base: usize, q: usize) -> (r: Option<(Link16<AttachPoint>, usize)>)
    ensures
        match r {
            Some((v, e)) => attach_point_item(t@, base as int, q as int) == Some((v@, e as int)),
            None => attach_point_item(t@, base as int, q as int) is None,
        },
{
    let (off, target, e) = match offset16_mandatory(t, base, q) {
        Some(o) => o,
        None => return None,
    };
    match target {
        None => Some((Link16 { offset: off, link: None }, e)),
        Some(x) => match attach_point(t, x) {
            Some(v) => Some((Link16 { offset: off, link: Some(v) }, e)),
            None => None,
        },
    }
}

/// The views of a sequence of `Link16<AttachPoint>`.
pub open spec fn attach_points_view(v: Seq<Link16<AttachPoint>>) -> Seq<Link16<SpecAttachPoint>> {
    v.map_values(|x: Link16<AttachPoint>| x@)
}

/// `n` attachment point offsets from `q`, relative to `base`.
pub open spec fn spec_attach_point_links(t: Seq<u8>, base: int, q: int, n: nat) -> Option<(Seq<Link16<SpecAttachPoint>>, int)>
    decreases n,
{
    if n == 0 {
        Some((Seq::empty(), q))
    } else {
        match attach_point_item(t, base, q) {
            None => None,
            Some((x, e)) => match spec_attach_point_links(t, base, e, (n - 1) as nat) {
                None => None,
                Some((rest, e2)) => Some((seq![x] + rest, e2)),
            },
        }
    }
}

fn attach_point_links(t: &[u8], base: usize, q: usize, n: u16) -> (r: Option<(Vec<Link16<AttachPoint>>, usize)>)
    ensures
        match r {
            Some((v, e)) => spec_attach_point_links(t@, base as int, q as int, n as nat) == Some((attach_points_view(v@), e as int)),
            None => spec_attach_point_links(t@, base as int, q as int, n as nat) is None,
        },
{
    let mut v: Vec<Link16<AttachPoint>> = Vec::new();
    let mut i: u16 = 0;
    let mut p: usize = q;
    proof {
        if let Some((rest, _)) = spec_attach_point_links(t@, base as int, q as int, n as nat) {
            assert(attach_points_view(v@) + rest =~= rest);
        }
    }
    while i < n
        invariant
            0 <= i <= n,
            spec_attach_point_links(t@, base as int, q as int, n as nat) == prepend_parsed(
                attach_points_view(v@),
                spec_attach_point_links(t@, base as int, p as int, (n - i) as nat),
            ),
        decreases n - i,
    {
        let (x, e) = match attach_point_item_exec(t, base, p) {
            Some(r) => r,
            None => return None,
        };
        let ghost old_v = attach_points_view(v@);
        let ghost tail = spec_attach_point_links(t@, base as int, e as int, (n - i - 1) as nat);
        assert(spec_attach_point_links(t@, base as int, p as int, (n - i) as nat) == prepend_parsed(seq![x@], tail));
        v.push(x);
        assert(attach_points_view(v@) =~= old_v + seq![x@]);
        proof {
            if let Some((rest, _)) = tail {
                assert(old_v + (seq![x@] + rest) =~= (old_v + seq![x@]) + rest);
            }
        }
        i = i + 1;
        p = e;
    }
    assert(attach_points_view(v@) + Seq::<Link16<SpecAttachPoint>>::empty() =~= attach_points_view(v@));
    Some((v, p))
}

/// The attachment point list: for each covered glyph, its attachment
/// points.
#[derive(Clone, Debug, PartialEq, Eq)]
pub struct AttachList {
    pub coverage: Link16<CoverageTable>,
    pub glyph_count: u16,
    pub attach_point_offsets: Vec<Link16<AttachPoint>>,
}

/// Mathematical form of `AttachList`.
pub struct SpecAttachList {
    pub coverage: Link16<SpecCoverageTable>,
    pub glyph_count: u16,
    pub attach_point_offsets: Seq<Link16<SpecAttachPoint>>,
}

impl View for AttachList {
    type V = SpecAttachList;

    open spec fn view(&self) -> SpecAttachList {
        SpecAttachList {
            coverage: self.coverage@,
            glyph_count: self.glyph_count,
            attach_point_offsets: attach_points_view(self.attach_point_offsets@),
        }
    }
}

/// The attachment point list at `a`, its offsets relative to `a`.
pub open spec fn spec_attach_list(t: Seq<u8>, a: int) -> Option<SpecAttachList> {
    match spec_coverage_link(t, a, a) {
        None => None,
        Some(cov) => if !avail(t, a + 2, 2) {
            None
        } else {
            match spec_attach_point_links(t, a, a + 4, u16_at(t, a + 2) as nat) {
                Some((v, _)) => Some(SpecAttachList { coverage: cov, glyph_count: u16_at(t, a + 2), attach_point_offsets: v }),
                None => None,
            }
        },
    }
}

fn attach_list(t: &[u8], a: usize) -> (r: Option<AttachList>)
    ensures
        match r {
            Some(v) => spec_attach_list(t@, a as int) == Some(v@),
            None => spec_attach_list(t@, a as int) is None,
        },
{
    let _len = t.len();
    let cov = match coverage_link(t, a, a) {
        Some(c) => c,
        None => return None,
    };
    if !has_bytes(t, a + 2, 2) {
        return None;
    }
    let n = get_u16be(t, a + 2);
    match attach_point_links(t, a, a + 4, n) {
        Some((v, _)) => Some(AttachList { coverage: cov, glyph_count: n, attach_point_offsets: v }),
        None => None,
    }
}

/// A ligature caret position, by format: a coordinate, a contour point, or
/// a coordinate with a device table.
#[derive(Clone, Debug, PartialEq, Eq)]
pub enum CaretValueData {
    Format1 { coordinate: i16 },
    Format2 { caret_value_point_index: u16 },
    Format3 { coordinate: i16, table: Link16<DeviceTable> },
}

/// Mathematical form of `CaretValueData`.
pub enum SpecCaretValueData {
    Format1 { coordinate: i16 },
    Format2 { caret_value_point_index: u16 },
    Format3 { coordinate: i16, table: Link16<SpecDeviceTable> },
}

/// A caret value table.
#[derive(Clone, Debug, PartialEq, Eq)]
pub struct CaretValue {
    pub caret_value_format: u16,
    pub data: CaretValueData,
}

/// Mathematical form of `CaretValue`.
pub struct SpecCaretValue {
    pub caret_value_format: u16,
    pub data: SpecCaretValueData,
}

impl View for CaretValue {
    type V = SpecCaretValue;

    open spec fn view(&self) -> SpecCaretValue {
        SpecCaretValue {
            caret_value_format: self.caret_value_format,
            data: match &self.data {
                CaretValueData::Format1 { coordinate } => SpecCaretValueData::Format1 { coordinate: *coordinate },
                CaretValueData::Format2 { caret_value_point_index } => SpecCaretValueData::Format2 {
                    caret_value_point_index: *caret_value_point_index,
                },
                CaretValueData::Format3 { coordinate, table } => SpecCaretValueData::Format3 {
                    coordinate: *coordinate,
                    table: table@,
                },
            },
        }
    }
}

/// The caret value at `c`, of format 1, 2 or 3 (whose device offset is
/// relative to `c`); other formats fail.
pub open spec fn spec_caret_value(t: Seq<u8>, c: int) -> Option<SpecCaretValue> {
    if !avail(t, c, 4) {
        None
    } else {
        let f = u16_at(t, c);
        if f == 1 {
            Some(SpecCaretValue { caret_value_format: 1, data: SpecCaretValueData::Format1 { coordinate: to_i16(u16_at(t, c + 2)) } })
        } else if f == 2 {
            Some(SpecCaretValue { caret_value_format: 2, data: SpecCaretValueData::Format2 { caret_value_point_index: u16_at(t, c + 2) } })
        } else if f == 3 {
            match spec_device_link(t, c, c + 4) {
                Some(d) => Some(SpecCaretValue {
                    caret_value_format: 3,
                    data: SpecCaretValueData::Format3 { coordinate: to_i16(u16_at(t, c + 2)), table: d },
                }),
                None => None,
            }
        } else {
            None
        }
    }
}

fn caret_value(t: &[u8], c: usize) -> (r: Option<CaretValue>)
    ensures
        match r {
            Some(v) => spec_caret_value(t@, c as int) == Some(v@),
            None => spec_caret_value(t@, c as int) is None,
        },
{
    if !has_bytes(t, c, 4) {
        return None;
    }
    let f = get_u16be(t, c);
    if f == 1 {
        Some(CaretValue { caret_value_format: 1, data: CaretValueData::Format1 { coordinate: as_i16(get_u16be(t, c + 2)) } })
    } else if f == 2 {
        Some(CaretValue { caret_value_format: 2, data: CaretValueData::Format2 { caret_value_point_index: get_u16be(t, c + 2) } })
    } else if f == 3 {
        match device_link(t, c, c + 4) {
            Some(d) => Some(CaretValue {
                caret_value_format: 3,
                data: CaretValueData::Format3 { coordinate: as_i16(get_u16be(t, c + 2)), table: d },
            }),
            None => None,
        }
    } else {
        None
    }
}

/// An offset at `q`, relative to `base`, to a caret value.
pub open spec fn caret_value_item(t: Seq<u8>, base: int, q: int) -> Option<(Link16<SpecCaretValue>, int)> {
    match spec_offset16(t, base, q) {
        None => None,
        Some(((off, None), e)) => Some((Link16 { offset: off, link: None }, e)),
        Some(((off, Some(x)), e)) => match spec_caret_value(t, x) {
            Some(v) => Some((Link16 { offset: off, link: Some(v) }, e)),
            None => None,
        },
    }
}

fn caret_value_item_exec(t: &[u8], base: usize, q: usize) -> (r: Option<(Link16<CaretValue>, usize)>)
    ensures
        match r {
            Some((v, e)) => caret_value_item(t@, base as int, q as int) == Some((v@, e as int)),
            None => caret_value_item(t@, base as int, q as int) is None,
        },
{
    let (off, target, e) = match offset16_mandatory(t, base, q) {
        Some(o) => o,
        None => return None,
    };
    match target {
        None => Some((Link16 { offset: off, link: None }, e)),
        Some(x) => match caret_value(t, x) {
            Some(v) => Some((Link16 { offset: off, link: Some(v) }, e)),
            None => None,
        },
    }
}

/// The views of a sequence of `Link16<CaretValue>`.
pub open spec fn caret_values_view(v: Seq<Link16<CaretValue>>) -> Seq<Link16<SpecCaretValue>> {
    v.map_values(|x: Link16<CaretValue>| x@)
}

/// `n` caret value offsets from `q`, relative to `base`.
pub open spec fn spec_caret_value_links(t: Seq<u8>, base: int, q: int, n: nat) -> Option<(Seq<Link16<SpecCaretValue>>, int)>
    decreases n,
{
    if n == 0 {
        Some((Seq::empty(), q))
    } else {
        match caret_value_item(t, base, q) {
            None => None,
            Some((x, e)) => match spec_caret_value_links(t, base, e, (n - 1) as nat) {
                None => None,
                Some((rest, e2)) => Some((seq![x] + rest, e2)),
            },
        }
    }
}

fn caret_value_links(t: &[u8], base: usize, q: usize, n: u16) -> (r: Option<(Vec<Link16<CaretValue>>, usize)>)
    ensures
        match r {
            Some((v, e)) => spec_caret_value_links(t@, base as int, q as int, n as nat) == Some((caret_values_view(v@), e as int)),
            None => spec_caret_value_links(t@, base as int, q as int, n as nat) is None,
        },
{
    let mut v: Vec<Link16<CaretValue>> = Vec::new();
    let mut i: u16 = 0;
    let mut p: usize = q;
    proof {
        if let Some((rest, _)) = spec_caret_value_links(t@, base as int, q as int, n as nat) {
            assert(caret_values_view(v@) + rest =~= rest);
        }
    }
    while i < n
        invariant
            0 <= i <= n,
            spec_caret_value_links(t@, base as int, q as int, n as nat) == prepend_parsed(
                caret_values_view(v@),
                spec_caret_value_links(t@, base as int, p as int, (n - i) as nat),
            ),
        decreases n - i,
    {
        let (x, e) = match caret_value_item_exec(t, base, p) {
            Some(r) => r,
            None => return None,
        };
        let ghost old_v = caret_values_view(v@);
        let ghost tail = spec_caret_value_links(t@, base as int, e as int, (n - i - 1) as nat);
        assert(spec_caret_value_links(t@, base as int, p as int, (n - i) as nat) == prepend_parsed(seq![x@], tail));
        v.push(x);
        assert(caret_values_view(v@) =~= old_v + seq![x@]);
        proof {
            if let Some((rest, _)) = tail {
                assert(old_v + (seq![x@] + rest) =~= (old_v + seq![x@]) + rest);
            }
        }
        i = i + 1;
        p = e;
    }
    assert(caret_values_view(v@) + Seq::<Link16<SpecCaretValue>>::empty() =~= caret_values_view(v@));
    Some((v, p))
}

/// The carets of a ligature glyph.
#[derive(Clone, Debug, PartialEq, Eq)]
pub struct LigGlyph {
    pub caret_count: u16,
    pub caret_values: Vec<Link16<CaretValue>>,
}

/// Mathematical form of `LigGlyph`.
pub struct SpecLigGlyph {
    pub caret_count: u16,
    pub caret_values: Seq<Link16<SpecCaretValue>>,
}

impl View for LigGlyph {
    type V = SpecLigGlyph;

    open spec fn view(&self) -> SpecLigGlyph {
        SpecLigGlyph { caret_count: self.caret_count, caret_values: caret_values_view(self.caret_values@) }
    }
}

/// The ligature glyph table at `g`, its offsets relative to `g`.
pub open spec fn spec_lig_glyph(t: Seq<u8>, g: int) -> Option<SpecLigGlyph> {
    if !avail(t, g, 2) {
        None
    } else {
        match spec_caret_value_links(t, g, g + 2, u16_at(t, g) as nat) {
            Some((v, _)) => Some(SpecLigGlyph { caret_count: u16_at(t, g), caret_values: v }),
            None => None,
        }
    }
}

fn lig_glyph(t: &[u8], g: usize) -> (r: Option<LigGlyph>)
    ensures
        match r {
            Some(v) => spec_lig_glyph(t@, g as int) == Some(v@),
            None => spec_lig_glyph(t@, g as int) is None,
        },
{
    if !has_bytes(t, g, 2) {
        return None;
    }
    let n = get_u16be(t, g);
    match caret_value_links(t, g, g + 2, n) {
        Some((v, _)) => Some(LigGlyph { caret_count: n, caret_values: v }),
        None => None,
    }
}

/// An offset at `q`, relative to `base`, to a ligature glyph table.
pub open spec fn lig_glyph_item(t: Seq<u8>, base: int, q: int) -> Option<(Link16<SpecLigGlyph>, int)> {
    match spec_offset16(t, base, q) {
        None => None,
        Some(((off, None), e)) => Some((Link16 { offset: off, link: None }, e)),
        Some(((off, Some(x)), e)) => match spec_lig_glyph(t, x) {
            Some(v) => Some((Link16 { offset: off, link: Some(v) }, e)),
            None => None,
        },
    }
}

fn lig_glyph_item_exec(t: &[u8], base: usize, q: usize) -> (r: Option<(Link16<LigGlyph>, usize)>)
    ensures
        match r {
            Some((v, e)) => lig_glyph_item(t@, base as int, q as int) == Some((v@, e as int)),
            None => lig_glyph_item(t@, base as int, q as int) is None,
        },
{
    let (off, target, e) = match offset16_mandatory(t, base, q) {
        Some(o) => o,
        None => return None,
    };
    match target {
        None => Some((Link16 { offset: off, link: None }, e)),
        Some(x) => match lig_glyph(t, x) {
            Some(v) => Some((Link16 { offset: off, link: Some(v) }, e)),
            None => None,
        },
    }
}

/// The views of a sequence of `Link16<LigGlyph>`.
pub open spec fn lig_glyphs_view(v: Seq<Link16<LigGlyph>>) -> Seq<Link16<SpecLigGlyph>> {
    v.map_values(|x: Link16<LigGlyph>| x@)
}

/// `n` ligature glyph offsets from `q`, relative to `base`.
pub open spec fn spec_lig_glyph_links(t: Seq<u8>, base: int, q: int, n: nat) -> Option<(Seq<Link16<SpecLigGlyph>>, int)>
    decreases n,
{
    if n == 0 {
        Some((Seq::empty(), q))
    } else {
        match lig_glyph_item(t, base, q) {
            None => None,
            Some((x, e)) => match spec_lig_glyph_links(t, base, e, (n - 1) as nat) {
                None => None,
                Some((rest, e2)) => Some((seq![x] + rest, e2)),
            },
        }
    }
}

fn lig_glyph_links(t: &[u8], base: usize, q: usize, n: u16) -> (r: Option<(Vec<Link16<LigGlyph>>, usize)>)
    ensures
        match r {
            Some((v, e)) => spec_lig_glyph_links(t@, base as int, q as int, n as nat) == Some((lig_glyphs_view(v@), e as int)),
            None => spec_lig_glyph_links(t@, base as int, q as int, n as nat) is None,
        },
{
    let mut v: Vec<Link16<LigGlyph>> = Vec::new();
    let mut i: u16 = 0;
    let mut p: usize = q;
    proof {
        if let Some((rest, _)) = spec_lig_glyph_links(t@, base as int, q as int, n as nat) {
            assert(lig_glyphs_view(v@) + rest =~= rest);
        }
    }
    while i < n
        invariant
            0 <= i <= n,
            spec_lig_glyph_links(t@, base as int, q as int, n as nat) == prepend_parsed(
                lig_glyphs_view(v@),
                spec_lig_glyph_links(t@, base as int, p as int, (n - i) as nat),
            ),
        decreases n - i,
    {
        let (x, e) = match lig_glyph_item_exec(t, base, p) {
            Some(r) => r,
            None => return None,
        };
        let ghost old_v = lig_glyphs_view(v@);
        let ghost tail = spec_lig_glyph_links(t@, base as int, e as int, (n - i - 1) as nat);
        assert(spec_lig_glyph_links(t@, base as int, p as int, (n - i) as nat) == prepend_parsed(seq![x@], tail));
        v.push(x);
        assert(lig_glyphs_view(v@) =~= old_v + seq![x@]);
        proof {
            if let Some((rest, _)) = tail {
                assert(old_v + (seq![x@] + rest) =~= (old_v + seq![x@]) + rest);
            }
        }
        i = i + 1;
        p = e;
    }
    assert(lig_glyphs_view(v@) + Seq::<Link16<SpecLigGlyph>>::empty() =~= lig_glyphs_view(v@));
    Some((v, p))
}

/// The ligature caret list: for each covered ligature, its carets.
#[derive(Clone, Debug, PartialEq, Eq)]
pub struct LigCaretList {
    pub coverage: Link16<CoverageTable>,
    pub lig_glyph_count: u16,
    pub lig_glyph_offsets: Vec<Link16<LigGlyph>>,
}

/// Mathematical form of `LigCaretList`.
pub struct SpecLigCaretList {
    pub coverage: Link16<SpecCoverageTable>,
    pub lig_glyph_count: u16,
    pub lig_glyph_offsets: Seq<Link16<SpecLigGlyph>>,
}

impl View for LigCaretList {
    type V = SpecLigCaretList;

    open spec fn view(&self) -> SpecLigCaretList {
        SpecLigCaretList {
            coverage: self.coverage@,
            lig_glyph_count: self.lig_glyph_count,
            lig_glyph_offsets: lig_glyphs_view(self.lig_glyph_offsets@),
        }
    }
}

/// The ligature caret list at `l`, its offsets relative to `l`.
pub open spec fn spec_lig_caret_list(t: Seq<u8>, l: int) -> Option<SpecLigCaretList> {
    match spec_coverage_link(t, l, l) {
        None => None,
        Some(cov) => if !avail(t, l + 2, 2) {
            None
        } else {
            match spec_lig_glyph_links(t, l, l + 4, u16_at(t, l + 2) as nat) {
                Some((v, _)) => Some(SpecLigCaretList { coverage: cov, lig_glyph_count: u16_at(t, l + 2), lig_glyph_offsets: v }),
                None => None,
            }
        },
    }
}

fn lig_caret_list(t: &[u8], l: usize) -> (r: Option<LigCaretList>)
    ensures
        match r {
            Some(v) => spec_lig_caret_list(t@, l as int) == Some(v@),
            None => spec_lig_caret_list(t@, l as int) is None,
        },
{
    let _len = t.len();
    let cov = match coverage_link(t, l, l) {
        Some(c) => c,
        None => return None,
    };
    if !has_bytes(t, l + 2, 2) {
        return None;
    }
    let n = get_u16be(t, l + 2);
    match lig_glyph_links(t, l, l + 4, n) {
        Some((v, _)) => Some(LigCaretList { coverage: cov, lig_glyph_count: n, lig_glyph_offsets: v }),
        None => None,
    }
}

/// The attachment-list offset at `q`, relative to `base`.
pub open spec fn attach_list_item(t: Seq<u8>, base: int, q: int) -> Option<(Link16<SpecAttachList>, int)> {
    match spec_offset16(t, base, q) {
        None => None,
        Some(((off, None), e)) => Some((Link16 { offset: off, link: None }, e)),
        Some(((off, Some(x)), e)) => match spec_attach_list(t, x) {
            Some(v) => Some((Link16 { offset: off, link: Some(v) }, e)),
            None => None,
        },
    }
}

fn attach_list_item_exec(t: &[u8], base: usize, q: usize) -> (r: Option<(Link16<AttachList>, usize)>)
    ensures
        match r {
            Some((v, e)) => attach_list_item(t@, base as int, q as int) == Some((v@, e as int)),
            None => attach_list_item(t@, base as int, q as int) is None,
        },
{
    let (off, target, e) = match offset16_mandatory(t, base, q) {
        Some(o) => o,
        None => return None,
    };
    match target {
        None => Some((Link16 { offset: off, link: None }, e)),
        Some(x) => match attach_list(t, x) {
            Some(v) => Some((Link16 { offset: off, link: Some(v) }, e)),
            None => None,
        },
    }
}

/// The ligature-caret-list offset at `q`, relative to `base`.
pub open spec fn lig_caret_list_item(t: Seq<u8>, base: int, q: int) -> Option<(Link16<SpecLigCaretList>, int)> {
    match spec_offset16(t, base, q) {
        None => None,
        Some(((off, None), e)) => Some((Link16 { offset: off, link: None }, e)),
        Some(((off, Some(x)), e)) => match spec_lig_caret_list(t, x) {
            Some(v) => Some((Link16 { offset: off, link: Some(v) }, e)),
            None => None,
        },
    }
}

fn lig_caret_list_item_exec(t: &[u8], base: usize, q: usize) -> (r: Option<(Link16<LigCaretList>, usize)>)
    ensures
        match r {
            Some((v, e)) => lig_caret_list_item(t@, base as int, q as int) == Some((v@, e as int)),
            None => lig_caret_list_item(t@, base as int, q as int) is None,
        },
{
    let (off, target, e) = match offset16_mandatory(t, base, q) {
        Some(o) => o,
        None => return None,
    };
    match target {
        None => Some((Link16 { offset: off, link: None }, e)),
        Some(x) => match lig_caret_list(t, x) {
            Some(v) => Some((Link16 { offset: off, link: Some(v) }, e)),
            None => None,
        },
    }
}

/// The mark-glyph-sets offset at `q`, relative to `base`.
pub open spec fn mark_glyph_set_item(t: Seq<u8>, base: int, q: int) -> Option<(Link16<SpecMarkGlyphSet>, int)> {
    match spec_offset16(t, base, q) {
        None => None,
        Some(((off, None), e)) => Some((Link16 { offset: off, link: None }, e)),
        Some(((off, Some(x)), e)) => match spec_mark_glyph_set(t, x) {
            Some(v) => Some((Link16 { offset: off, link: Some(v) }, e)),
            None => None,
        },
    }
}

fn mark_glyph_set_item_exec(t: &[u8], base: usize, q: usize) -> (r: Option<(Link16<MarkGlyphSet>, usize)>)
    ensures
        match r {
            Some((v, e)) => mark_glyph_set_item(t@, base as int, q as int) == Some((v@, e as int)),
            None => mark_glyph_set_item(t@, base as int, q as int) is None,
        },
{
    let (off, target, e) = match offset16_mandatory(t, base, q) {
        Some(o) => o,
        None => return None,
    };
    match target {
        None => Some((Link16 { offset: off, link: None }, e)),
        Some(x) => match mark_glyph_set(t, x) {
            Some(v) => Some((Link16 { offset: off, link: Some(v) }, e)),
            None => None,
        },
    }
}

/// The 32-bit item-variation-store offset at `q`, relative to `base`.
pub open spec fn item_variation_store_item(t: Seq<u8>, base: int, q: int) -> Option<(Link32<SpecItemVariationStore>, int)> {
    match spec_offset32(t, base, q) {
        None => None,
        Some(((off, None), e)) => Some((Link32 { offset: off, link: None }, e)),
        Some(((off, Some(x)), e)) => match spec_item_variation_store(t, x) {
            Some(v) => Some((Link32 { offset: off, link: Some(v) }, e)),
            None => None,
        },
    }
}

fn item_variation_store_item_exec(t: &[u8], base: usize, q: usize) -> (r: Option<(Link32<ItemVariationStore>, usize)>)
    ensures
        match r {
            Some((v, e)) => item_variation_store_item(t@, base as int, q as int) == Some((v@, e as int)),
            None => item_variation_store_item(t@, base as int, q as int) is None,
        },
{
    let (off, target, e) = match offset32(t, base, q) {
        Some(o) => o,
        None => return None,
    };
    match target {
        None => Some((Link32 { offset: off, link: None }, e)),
        Some(x) => match item_variation_store(t, x) {
            Some(v) => Some((Link32 { offset: off, link: Some(v) }, e)),
            None => None,
        },
    }
}

/// The class-definition offset at `q` as an item.
pub open spec fn class_def_item(t: Seq<u8>, base: int, q: int) -> Option<(Link16<SpecClassDef>, int)> {
    match spec_class_def_link(t, base, q) {
        Some(l) => Some((l, q + 2)),
        None => None,
    }
}

/// The fields that minor versions above 0 add to a `GDEF` header.
#[derive(Clone, Debug, PartialEq, Eq)]
pub enum GdefData {
    Version1_0,
    Version1_2 { mark_glyph_sets_def: Link16<MarkGlyphSet> },
    Version1_3 { mark_glyph_sets_def: Link16<MarkGlyphSet>, item_var_store: Link32<ItemVariationStore> },
}

/// Mathematical form of `GdefData`.
pub enum SpecGdefData {
    Version1_0,
    Version1_2 { mark_glyph_sets_def: Link16<SpecMarkGlyphSet> },
    Version1_3 {
        mark_glyph_sets_def: Link16<SpecMarkGlyphSet>,
        item_var_store: Link32<SpecItemVariationStore>,
    },
}

/// The `GDEF` table.
#[derive(Clone, Debug, PartialEq, Eq)]
pub struct GdefTable {
    pub major_version: u16,
    pub minor_version: u16,
    pub glyph_class_def: Link16<ClassDef>,
    pub attach_list: Link16<AttachList>,
    pub lig_caret_list: Link16<LigCaretList>,
    pub mark_attach_class_def: Link16<ClassDef>,
    pub data: GdefData,
}

/// Mathematical form of `GdefTable`.
pub struct SpecGdefTable {
    pub major_version: u16,
    pub minor_version: u16,
    pub glyph_class_def: Link16<SpecClassDef>,
    pub attach_list: Link16<SpecAttachList>,
    pub lig_caret_list: Link16<SpecLigCaretList>,
    pub mark_attach_class_def: Link16<SpecClassDef>,
    pub data: SpecGdefData,
}

impl View for GdefTable {
    type V = SpecGdefTable;

    open spec fn view(&self) -> SpecGdefTable {
        SpecGdefTable {
            major_version: self.major_version,
            minor_version: self.minor_version,
            glyph_class_def: self.glyph_class_def@,
            attach_list: self.attach_list@,
            lig_caret_list: self.lig_caret_list@,
            mark_attach_class_def: self.mark_attach_class_def@,
            data: match &self.data {
                GdefData::Version1_0 => SpecGdefData::Version1_0,
                GdefData::Version1_2 { mark_glyph_sets_def } => SpecGdefData::Version1_2 {
                    mark_glyph_sets_def: mark_glyph_sets_def@,
                },
                GdefData::Version1_3 { mark_glyph_sets_def, item_var_store } => SpecGdefData::Version1_3 {
                    mark_glyph_sets_def: mark_glyph_sets_def@,
                    item_var_store: item_var_store@,
                },
            },
        }
    }
}

/// The version-dependent fields from 12: none for minor version 0, the
/// mark glyph sets for 2, and from 3 on also the item variation store;
/// minor version 1 fails.
pub open spec fn spec_gdef_data(t: Seq<u8>, minor: u16) -> Option<(SpecGdefData, int)> {
    if minor == 0 {
        Some((SpecGdefData::Version1_0, 12))
    } else if minor == 1 {
        None
    } else {
        match mark_glyph_set_item(t, 0, 12) {
            None => None,
            Some((m, e)) => if minor == 2 {
                Some((SpecGdefData::Version1_2 { mark_glyph_sets_def: m }, e))
            } else {
                match item_variation_store_item(t, 0, 14) {
                    None => None,
                    Some((v, e2)) => Some((SpecGdefData::Version1_3 { mark_glyph_sets_def: m, item_var_store: v }, e2)),
                }
            },
        }
    }
}

/// The `GDEF` table held in `t`: major version 1, the minor version, the
/// offsets of the glyph class definition, the attachment list, the
/// ligature caret list and the mark attachment class definition, then the
/// fields of the minor version.
#[verifier::opaque]
pub open spec fn spec_gdef_table(t: Seq<u8>) -> Option<(SpecGdefTable, int)> {
    if !avail(t, 0, 4) || u16_at(t, 0) != 1 {
        None
    } else {
        match (
            class_def_item(t, 0, 4),
            attach_list_item(t, 0, 6),
            lig_caret_list_item(t, 0, 8),
            class_def_item(t, 0, 10),
            spec_gdef_data(t, u16_at(t, 2)),
        ) {
            (Some((gc, _)), Some((al, _)), Some((lc, _)), Some((mc, _)), Some((data, e))) => Some((SpecGdefTable {
                major_version: 1,
                minor_version: u16_at(t, 2),
                glyph_class_def: gc,
                attach_list: al,
                lig_caret_list: lc,
                mark_attach_class_def: mc,
                data,
            }, e)),
            _ => None,
        }
    }
}

fn gdef_data(t: &[u8], minor: u16) -> (r: Option<(GdefData, usize)>)
    ensures
        match r {
            Some((d, e)) => spec_gdef_data(t@, minor) == Some((
                GdefTable {
                    major_version: 1,
                    minor_version: 0,
                    glyph_class_def: Link16 { offset: 0, link: None },
                    attach_list: Link16 { offset: 0, link: None },
                    lig_caret_list: Link16 { offset: 0, link: None },
                    mark_attach_class_def: Link16 { offset: 0, link: None },
                    data: d,
                }@.data,
                e as int,
            )),
            None => spec_gdef_data(t@, minor) is None,
        },
{
    if minor == 0 {
        Some((GdefData::Version1_0, 12))
    } else if minor == 1 {
        None
    } else {
        let (m, e) = match mark_glyph_set_item_exec(t, 0, 12) {
            Some(x) => x,
            None => return None,
        };
        if minor == 2 {
            Some((GdefData::Version1_2 { mark_glyph_sets_def: m }, e))
        } else {
            match item_variation_store_item_exec(t, 0, 14) {
                None => None,
                Some((v, e2)) => Some((GdefData::Version1_3 { mark_glyph_sets_def: m, item_var_store: v }, e2)),
            }
        }
    }
}

/// Parses the `GDEF` table held in `t`.
pub fn gdef_table(t: &[u8]) -> (r: Option<(GdefTable, usize)>)
    ensures
        match r {
            Some((g, e)) => spec_gdef_table(t@) == Some((g@, e as int)),
            None => spec_gdef_table(t@) is None,
        },
{
    reveal(spec_gdef_table);
    if !has_bytes(t, 0, 4) || get_u16be(t, 0) != 1 {
        return None;
    }
    let minor = get_u16be(t, 2);
    let gc = match class_def_link(t, 0, 4) {
        Some(l) => l,
        None => return None,
    };
    let (al, _) = match attach_list_item_exec(t, 0, 6) {
        Some(x) => x,
        None => return None,
    };
    let (lc, _) = match lig_caret_list_item_exec(t, 0, 8) {
        Some(x) => x,
        None => return None,
    };
    let mc = match class_def_link(t, 0, 10) {
        Some(l) => l,
        None => return None,
    };
    let (data, e) = match gdef_data(t, minor) {
        Some(x) => x,
        None => return None,
    };
    Some(
        (
            GdefTable {
                major_version: 1,
                minor_version: minor,
                glyph_class_def: gc,
                attach_list: al,
                lig_caret_list: lc,
                mark_attach_class_def: mc,
                data,
            },
            e,
        ),
    )
}


proof fn lemma_region_axes_len(t: Seq<u8>, q: int, n: nat)
    ensures
        spec_region_axes(t, q, n) matches Some((v, _)) ==> v.len() == n,
    decreases n,
{
    if n > 0 {
        if let Some((_, e)) = axis_coords_item(t, q) {
            lemma_region_axes_len(t, e, (n - 1) as nat);
        }
    }
}

proof fn lemma_regions_len(t: Seq<u8>, axes: u16, q: int, n: nat)
    ensures
        spec_regions(t, axes, q, n) matches Some((v, _)) ==> v.len() == n,
    decreases n,
{
    if n > 0 {
        if let Some((_, e)) = region_item(t, axes, q) {
            lemma_regions_len(t, axes, e, (n - 1) as nat);
        }
    }
}

proof fn lemma_variation_data_links_len(t: Seq<u8>, base: int, q: int, n: nat)
    ensures
        spec_variation_data_links(t, base, q, n) matches Some((v, _)) ==> v.len() == n,
    decreases n,
{
    if n > 0 {
        if let Some((_, e)) = variation_data_item(t, base, q) {
            lemma_variation_data_links_len(t, base, e, (n - 1) as nat);
        }
    }
}

proof fn lemma_coverage32_links_len(t: Seq<u8>, base: int, q: int, n: nat)
    ensures
        spec_coverage32_links(t, base, q, n) matches Some((v, _)) ==> v.len() == n,
    decreases n,
{
    if n > 0 {
        if let Some((_, e)) = coverage32_item(t, base, q) {
            lemma_coverage32_links_len(t, base, e, (n - 1) as nat);
        }
    }
}

proof fn lemma_attach_point_links_len(t: Seq<u8>, base: int, q: int, n: nat)
    ensures
        spec_attach_point_links(t, base, q, n) matches Some((v, _)) ==> v.len() == n,
    decreases n,
{
    if n > 0 {
        if let Some((_, e)) = attach_point_item(t, base, q) {
            lemma_attach_point_links_len(t, base, e, (n - 1) as nat);
        }
    }
}

proof fn lemma_caret_value_links_len(t: Seq<u8>, base: int, q: int, n: nat)
    ensures
        spec_caret_value_links(t, base, q, n) matches Some((v, _)) ==> v.len() == n,
    decreases n,
{
    if n > 0 {
        if let Some((_, e)) = caret_value_item(t, base, q) {
            lemma_caret_value_links_len(t, base, e, (n - 1) as nat);
        }
    }
}

proof fn lemma_lig_glyph_links_len(t: Seq<u8>, base: int, q: int, n: nat)
    ensures
        spec_lig_glyph_links(t, base, q, n) matches Some((v, _)) ==> v.len() == n,
    decreases n,
{
    if n > 0 {
        if let Some((_, e)) = lig_glyph_item(t, base, q) {
            lemma_lig_glyph_links_len(t, base, e, (n - 1) as nat);
        }
    }
}

/// Whether a delta set has the shape that its item variation data
/// announces: `words` wide deltas (32-bit where `long_words`) and
/// `regions - words` narrow ones.
pub open spec fn delta_set_fits(d: SpecDeltaSet, long_words: bool, words: u16, regions: u16) -> bool {
    match d {
        SpecDeltaSet::Delta32 { delta_data_full_word, delta_data_half_word } => long_words
            && delta_data_full_word.len() == words && delta_data_half_word.len() == regions - words,
        SpecDeltaSet::Delta16 { delta_data_full_word, delta_data_half_word } => !long_words
            && delta_data_full_word.len() == words && delta_data_half_word.len() == regions - words,
    }
}

proof fn lemma_delta_sets_shape(t: Seq<u8>, long_words: bool, words: u16, regions: u16, q: int, n: nat)
    ensures
        spec_delta_sets(t, long_words, words, regions, q, n) matches Some((v, _)) ==> v.len() == n && forall|i: int|
            0 <= i < n ==> delta_set_fits(#[trigger] v[i], long_words, words, regions),
    decreases n,
{
    if n > 0 {
        if let Some((x, e)) = delta_item(t, long_words, words, regions, q) {
            lemma_delta_sets_shape(t, long_words, words, regions, e, (n - 1) as nat);
            if let Some((rest, _)) = spec_delta_sets(t, long_words, words, regions, e, (n - 1) as nat) {
                let v = seq![x] + rest;
                assert(delta_set_fits(x, long_words, words, regions));
                assert forall|i: int| 0 <= i < n implies delta_set_fits(#[trigger] v[i], long_words, words, regions) by {
                    if i > 0 {
                        assert(v[i] == rest[i - 1]);
                    }
                }
            }
        }
    }
}

/// Every list of the glyph definition tables holds exactly as many entries
/// as its count says: the regions of a region list (each with one set of
/// coordinates per axis), the region indices and delta sets of item
/// variation data (each delta set with `word_count` wide deltas, 32-bit
/// exactly where `long_words`, and the rest narrow, so that no delta set
/// comes with more wide deltas than regions), the data offsets of an
/// item variation store, the coverages of the mark glyph sets, the point
/// indices of an attachment point, the attachment points of an attachment
/// list, the caret values of a ligature glyph and the ligature glyphs of a
/// ligature caret list.
pub proof fn lemma_gdef_counts(t: Seq<u8>, x: int)
    ensures
        spec_region_list(t, x) matches Some(l) ==> l.variation_regions.len() == l.region_count && forall|i: int|
            0 <= i < l.region_count ==> (#[trigger] l.variation_regions[i]).region_axes.len() == l.axis_count,
        spec_item_variation_data(t, x) matches Some(d) ==> d.region_indices.len() == d.region_index_count
            && (d.item_count > 0 ==> d.word_count <= d.region_index_count) && d.delta_sets.len() == d.item_count && forall|i: int|
            0 <= i < d.item_count ==> delta_set_fits(
                #[trigger] d.delta_sets[i],
                d.long_words,
                d.word_count,
                d.region_index_count,
            ),
        spec_item_variation_store(t, x) matches Some(s) ==> s.item_variation_data_offsets.len()
            == s.item_variation_data_count,
        spec_mark_glyph_set(t, x) matches Some(m) ==> m.coverage.len() == m.mark_glyph_set_count,
        spec_attach_point(t, x) matches Some(a) ==> a.point_indices.len() == a.point_count,
        spec_attach_list(t, x) matches Some(a) ==> a.attach_point_offsets.len() == a.glyph_count,
        spec_lig_glyph(t, x) matches Some(g) ==> g.caret_values.len() == g.caret_count,
        spec_lig_caret_list(t, x) matches Some(l) ==> l.lig_glyph_offsets.len() == l.lig_glyph_count,
{
    if avail(t, x, 4) {
        let axes = u16_at(t, x);
        let n = u16_at(t, x + 2);
        lemma_regions_len(t, axes, x + 4, n as nat);
        if let Some((v, _)) = spec_regions(t, axes, x + 4, n as nat) {
            assert forall|i: int| 0 <= i < n implies (#[trigger] v[i]).region_axes.len() == axes by {
                lemma_regions_item(t, axes, x + 4, n as nat, i);
            }
        }
    }
    if avail(t, x, 6) {
        let raw = u16_at(t, x + 2);
        let k = u16_at(t, x + 4);
        lemma_delta_sets_shape(t, raw >= 0x8000, (raw % 0x8000) as u16, k, x + 6 + 2 * k, u16_at(t, x) as nat);
        if let Some(d) = spec_item_variation_data(t, x) {
            if d.item_count > 0 {
                assert(delta_set_fits(d.delta_sets[0], d.long_words, d.word_count, d.region_index_count));
            }
        }
    }
    if avail(t, x + 6, 2) {
        lemma_variation_data_links_len(t, x, x + 8, u16_at(t, x + 6) as nat);
    }
    if avail(t, x, 4) {
        lemma_coverage32_links_len(t, x, x + 4, u16_at(t, x + 2) as nat);
    }
    if avail(t, x + 2, 2) {
        lemma_attach_point_links_len(t, x, x + 4, u16_at(t, x + 2) as nat);
        lemma_lig_glyph_links_len(t, x, x + 4, u16_at(t, x + 2) as nat);
    }
    if avail(t, x, 2) {
        lemma_caret_value_links_len(t, x, x + 2, u16_at(t, x) as nat);
    }
}

proof fn lemma_regions_item(t: Seq<u8>, axes: u16, q: int, n: nat, i: int)
    requires
        spec_regions(t, axes, q, n) is Some,
        0 <= i < n,
    ensures
        spec_regions(t, axes, q, n).unwrap().0[i].region_axes.len() == axes,
    decreases n,
{
    let (x, e) = region_item(t, axes, q).unwrap();
    lemma_region_axes_len(t, q, axes as nat);
    if i > 0 {
        lemma_regions_item(t, axes, e, (n - 1) as nat, i - 1);
        lemma_regions_len(t, axes, e, (n - 1) as nat);
        let rest = spec_regions(t, axes, e, (n - 1) as nat).unwrap().0;
        assert((seq![x] + rest)[i] == rest[i - 1]);
    }
}


/// The `GDEF` header holds its minor version word at 2 and the offsets of
/// the glyph class definitions, attachment list, ligature caret list and
/// mark attachment classes as the words at 4, 6, 8 and 10; a caret value
/// holds its format word and then a signed coordinate (format 1 and 3) or a
/// contour point word (format 2) at `c + 2`, format 3 adding a device
/// offset at `c + 4`; region coordinates are three F2Dot14 words: start,
/// peak, end.
pub proof fn lemma_gdef_fields(t: Seq<u8>, c: int)
    ensures
        spec_gdef_table(t) matches Some((g, _)) ==> g.minor_version == crate::bytes::word_at(t, 2) && g.glyph_class_def.offset
            == crate::bytes::word_at(t, 4) && g.attach_list.offset == crate::bytes::word_at(t, 6) && g.lig_caret_list.offset == crate::bytes::word_at(t, 8)
            && g.mark_attach_class_def.offset == crate::bytes::word_at(t, 10),
        spec_caret_value(t, c) matches Some(v) ==> v.caret_value_format == crate::bytes::word_at(t, c) && match v.data {
            SpecCaretValueData::Format1 { coordinate } => v.caret_value_format == 1 && coordinate == crate::bytes::signed_word_at(t, c + 2),
            SpecCaretValueData::Format2 { caret_value_point_index } => v.caret_value_format == 2
                && caret_value_point_index == crate::bytes::word_at(t, c + 2),
            SpecCaretValueData::Format3 { coordinate, table } => v.caret_value_format == 3 && coordinate
                == crate::bytes::signed_word_at(t, c + 2) && table.offset == crate::bytes::word_at(t, c + 4),
        },
        axis_coords_item(t, c) matches Some((a, _)) ==> a.start_coord.0 == crate::bytes::word_at(t, c) && a.peak_coord.0
            == crate::bytes::word_at(t, c + 2) && a.end_coord.0 == crate::bytes::word_at(t, c + 4),
{
    reveal(spec_gdef_table);
    if let Some(_) = spec_gdef_table(t) {
        crate::bytes::lemma_readers_spell(t, 2);
        crate::bytes::lemma_readers_spell(t, 4);
        crate::bytes::lemma_readers_spell(t, 6);
        crate::bytes::lemma_readers_spell(t, 8);
        crate::bytes::lemma_readers_spell(t, 10);
    }
    if avail(t, c, 4) {
        crate::bytes::lemma_readers_spell(t, c);
        crate::bytes::lemma_readers_spell(t, c + 2);
    }
    if avail(t, c, 6) {
        crate::bytes::lemma_readers_spell(t, c + 4);
    }
}

/// The fields after the `GDEF` header follow the minor version: none for
/// 0; version 1 is refused; from 2 the mark glyph sets offset word at 12;
/// from 3 also the item variation store offset, a double word, at 14.
pub proof fn lemma_gdef_version_fields(t: Seq<u8>, minor: u16)
    ensures
        spec_gdef_data(t, minor) matches Some((d, _)) ==> {
            &&& minor != 1
            &&& (minor == 0 <==> d is Version1_0)
            &&& (minor == 2 <==> d is Version1_2)
            &&& (minor >= 3 <==> d is Version1_3)
            &&& (d matches SpecGdefData::Version1_2 { mark_glyph_sets_def } ==> mark_glyph_sets_def.offset
                == crate::bytes::word_at(t, 12))
            &&& (d matches SpecGdefData::Version1_3 { mark_glyph_sets_def, item_var_store } ==> mark_glyph_sets_def.offset
                == crate::bytes::word_at(t, 12) && item_var_store.offset == crate::bytes::dword_at(t, 14))
        },
{
    if let Some((d, _)) = spec_gdef_data(t, minor) {
        if minor >= 2 {
            assert(spec_offset16(t, 0, 12) is Some);
            crate::bytes::lemma_readers_spell(t, 12);
        }
        if minor >= 3 {
            assert(spec_offset32(t, 0, 14) is Some);
            crate::bytes::lemma_dword_spells(t, 14);
        }
    }
}

} // verus!
