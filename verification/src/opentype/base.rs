//! The baseline table (`BASE`). Offsets are relative to the start of the
//! table that holds them; positions are relative to the start of the
//! `BASE` table.
use vstd::prelude::*;
use crate::bytes::{as_i16, avail, get_u16be, get_u32be, has_bytes, prepend_parsed, to_i16, u16_at, u32_at};
use crate::opentype::gdef::{item_variation_store, spec_item_variation_store, ItemVariationStore, SpecItemVariationStore};
use crate::opentype::gpos_values::{device_link, spec_device_link, DeviceTable, SpecDeviceTable};
use crate::opentype::links::{Link16, Link32, offset16_mandatory, offset32, spec_offset16, spec_offset32};

verus! {

/// What a baseline coordinate comes with, by format: nothing, a glyph and
/// one of its contour points, or a device table.
#[derive(Clone, Debug, PartialEq, Eq)]
pub enum BaseCoordHint {
    NoHint,
    GlyphHint { reference_glyph: u16, base_coord_point: u16 },
    DeviceHint { device_offset: Link16<DeviceTable> },
}

/// Mathematical form of `BaseCoordHint`.
pub enum SpecBaseCoordHint {
    NoHint,
    GlyphHint { reference_glyph: u16, base_coord_point: u16 },
    DeviceHint { device_offset: Link16<SpecDeviceTable> },
}

/// A baseline coordinate.
#[derive(Clone, Debug, PartialEq, Eq)]
pub struct BaseCoord {
    pub format: u16,
    pub coordinate: i16,
    pub hint: BaseCoordHint,
}

/// Mathematical form of `BaseCoord`.
pub struct SpecBaseCoord {
    pub format: u16,
    pub coordinate: i16,
    pub hint: SpecBaseCoordHint,
}

impl View for BaseCoord {
    type V = SpecBaseCoord;

    open spec fn view(&self) -> SpecBaseCoord {
        SpecBaseCoord {
            format: self.format,
            coordinate: self.coordinate,
            hint: match &self.hint {
                BaseCoordHint::NoHint => SpecBaseCoordHint::NoHint,
                BaseCoordHint::GlyphHint { reference_glyph, base_coord_point } => SpecBaseCoordHint::GlyphHint {
                    reference_glyph: *reference_glyph,
                    base_coord_point: *base_coord_point,
                },
                BaseCoordHint::DeviceHint { device_offset } => SpecBaseCoordHint::DeviceHint {
                    device_offset: device_offset@,
                },
            },
        }
    }
}

/// The baseline coordinate at `c`, of format 1, 2 or 3 (whose device offset
/// is relative to `c`); other formats fail.
pub open spec fn spec_base_coord(t: Seq<u8>, c: int) -> Option<SpecBaseCoord> {
    if !avail(t, c, 4) {
        None
    } else {
        let f = u16_at(t, c);
        let v = to_i16(u16_at(t, c + 2));
        if f == 1 {
            Some(SpecBaseCoord { format: 1, coordinate: v, hint: SpecBaseCoordHint::NoHint })
        } else if f == 2 && avail(t, c + 4, 4) {
            Some(SpecBaseCoord {
                format: 2,
                coordinate: v,
                hint: SpecBaseCoordHint::GlyphHint { reference_glyph: u16_at(t, c + 4), base_coord_point: u16_at(t, c + 6) },
            })
        } else if f == 3 {
            match spec_device_link(t, c, c + 4) {
                Some(d) => Some(SpecBaseCoord { format: 3, coordinate: v, hint: SpecBaseCoordHint::DeviceHint { device_offset: d } }),
                None => None,
            }
        } else {
            None
        }
    }
}

fn base_coord(t: &[u8], c: usize) -> (r: Option<BaseCoord>)
    ensures
        match r {
            Some(v) => spec_base_coord(t@, c as int) == Some(v@),
            None => spec_base_coord(t@, c as int) is None,
        },
{
    if !has_bytes(t, c, 4) {
        return None;
    }
    let f = get_u16be(t, c);
    let v = as_i16(get_u16be(t, c + 2));
    if f == 1 {
        Some(BaseCoord { format: 1, coordinate: v, hint: BaseCoordHint::NoHint })
    } else if f == 2 && has_bytes(t, c + 4, 4) {
        Some(BaseCoord {
            format: 2,
            coordinate: v,
            hint: BaseCoordHint::GlyphHint { reference_glyph: get_u16be(t, c + 4), base_coord_point: get_u16be(t, c + 6) },
        })
    } else if f == 3 {
        match device_link(t, c, c + 4) {
            Some(d) => Some(BaseCoord { format: 3, coordinate: v, hint: BaseCoordHint::DeviceHint { device_offset: d } }),
            None => None,
        }
    } else {
        None
    }
}

/// A baseline-coordinate offset at `q`, relative to `base`.
pub open spec fn base_coord_item(t: Seq<u8>, base: int, q: int) -> Option<(Link16<SpecBaseCoord>, int)> {
    match spec_offset16(t, base, q) {
        None => None,
        Some(((off, None), e)) => Some((Link16 { offset: off, link: None }, e)),
        Some(((off, Some(x)), e)) => match spec_base_coord(t, x) {
            Some(v) => Some((Link16 { offset: off, link: Some(v) }, e)),
            None => None,
        },
    }
}

fn base_coord_item_exec(t: &[u8], base: usize, q: usize) -> (r: Option<(Link16<BaseCoord>, usize)>)
    ensures
        match r {
            Some((v, e)) => base_coord_item(t@, base as int, q as int) == Some((v@, e as int)),
            None => base_coord_item(t@, base as int, q as int) is None,
        },
{
    let (off, target, e) = match offset16_mandatory(t, base, q) {
        Some(o) => o,
        None => return None,
    };
    match target {
        None => Some((Link16 { offset: off, link: None }, e)),
        Some(x) => match base_coord(t, x) {
            Some(v) => Some((Link16 { offset: off, link: Some(v) }, e)),
            None => None,
        },
    }
}

/// The views of a sequence of `Link16<BaseCoord>`.
pub open spec fn base_coords_view(v: Seq<Link16<BaseCoord>>) -> Seq<Link16<SpecBaseCoord>> {
    v.map_values(|x: Link16<BaseCoord>| x@)
}

/// `n` baseline-coordinate offsets from `q`, relative to `base`.
pub open spec fn spec_base_coord_links(t: Seq<u8>, base: int, q: int, n: nat) -> Option<(Seq<Link16<SpecBaseCoord>>, int)>
    decreases n,
{
    if n == 0 {
        Some((Seq::empty(), q))
    } else {
        match base_coord_item(t, base, q) {
            None => None,
            Some((x, e)) => match spec_base_coord_links(t, base, e, (n - 1) as nat) {
                None => None,
                Some((rest, e2)) => Some((seq![x] + rest, e2)),
            },
        }
    }
}

fn base_coord_links(t: &[u8], base: usize, q: usize, n: u16) -> (r: Option<(Vec<Link16<BaseCoord>>, usize)>)
    ensures
        match r {
            Some((v, e)) => spec_base_coord_links(t@, base as int, q as int, n as nat) == Some((base_coords_view(v@), e as int)),
            None => spec_base_coord_links(t@, base as int, q as int, n as nat) is None,
        },
{
    let mut v: Vec<Link16<BaseCoord>> = Vec::new();
    let mut i: u16 = 0;
    let mut p: usize = q;
    proof {
        if let Some((rest, _)) = spec_base_coord_links(t@, base as int, q as int, n as nat) {
            assert(base_coords_view(v@) + rest =~= rest);
        }
    }
    while i < n
        invariant
            0 <= i <= n,
            spec_base_coord_links(t@, base as int, q as int, n as nat) == prepend_parsed(
                base_coords_view(v@),
                spec_base_coord_links(t@, base as int, p as int, (n - i) as nat),
            ),
        decreases n - i,
    {
        let (x, e) = match base_coord_item_exec(t, base, p) {
            Some(r) => r,
            None => return None,
        };
        let ghost old_v = base_coords_view(v@);
        let ghost tail = spec_base_coord_links(t@, base as int, e as int, (n - i - 1) as nat);
        assert(spec_base_coord_links(t@, base as int, p as int, (n - i) as nat) == prepend_parsed(seq![x@], tail));
        v.push(x);
        assert(base_coords_view(v@) =~= old_v + seq![x@]);
        proof {
            if let Some((rest, _)) = tail {
                assert(old_v + (seq![x@] + rest) =~= (old_v + seq![x@]) + rest);
            }
        }
        i = i + 1;
        p = e;
    }
    assert(base_coords_view(v@) + Seq::<Link16<SpecBaseCoord>>::empty() =~= base_coords_view(v@));
    Some((v, p))
}

/// The extent of a feature: its tag and its lowest and highest
/// coordinates.
#[derive(Clone, Debug, PartialEq, Eq)]
pub struct FeatMinMax {
    pub feature_tag: u32,
    pub min_coord_offset: Link16<BaseCoord>,
    pub max_coord_offset: Link16<BaseCoord>,
}

/// Mathematical form of `FeatMinMax`.
pub struct SpecFeatMinMax {
    pub feature_tag: u32,
    pub min_coord_offset: Link16<SpecBaseCoord>,
    pub max_coord_offset: Link16<SpecBaseCoord>,
}

impl View for FeatMinMax {
    type V = SpecFeatMinMax;

    open spec fn view(&self) -> SpecFeatMinMax {
        SpecFeatMinMax {
            feature_tag: self.feature_tag,
            min_coord_offset: self.min_coord_offset@,
            max_coord_offset: self.max_coord_offset@,
        }
    }
}

/// The eight-byte feature extent record at `q`, its offsets relative to
/// `base`.
pub open spec fn feat_min_max_item(t: Seq<u8>, base: int, q: int) -> Option<(SpecFeatMinMax, int)> {
    if !avail(t, q, 4) {
        None
    } else {
        match (base_coord_item(t, base, q + 4), base_coord_item(t, base, q + 6)) {
            (Some((lo, _)), Some((hi, e))) => Some((SpecFeatMinMax { feature_tag: u32_at(t, q), min_coord_offset: lo, max_coord_offset: hi }, e)),
            _ => None,
        }
    }
}

fn feat_min_max_item_exec(t: &[u8], base: usize, q: usize) -> (r: Option<(FeatMinMax, usize)>)
    ensures
        match r {
            Some((v, e)) => feat_min_max_item(t@, base as int, q as int) == Some((v@, e as int)),
            None => feat_min_max_item(t@, base as int, q as int) is None,
        },
{
    if !has_bytes(t, q, 4) {
        return None;
    }
    let tag = get_u32be(t, q);
    let (lo, _) = match base_coord_item_exec(t, base, q + 4) {
        Some(x) => x,
        None => return None,
    };
    let (hi, e) = match base_coord_item_exec(t, base, q + 6) {
        Some(x) => x,
        None => return None,
    };
    Some((FeatMinMax { feature_tag: tag, min_coord_offset: lo, max_coord_offset: hi }, e))
}

/// The views of a sequence of `FeatMinMax`.
pub open spec fn feat_min_max_view(v: Seq<FeatMinMax>) -> Seq<SpecFeatMinMax> {
    v.map_values(|x: FeatMinMax| x@)
}

/// `n` feature extent records from `q`, relative to `base`.
pub open spec fn spec_feat_min_max_records(t: Seq<u8>, base: int, q: int, n: nat) -> Option<(Seq<SpecFeatMinMax>, int)>
    decreases n,
{
    if n == 0 {
        Some((Seq::empty(), q))
    } else {
        match feat_min_max_item(t, base, q) {
            None => None,
            Some((x, e)) => match spec_feat_min_max_records(t, base, e, (n - 1) as nat) {
                None => None,
                Some((rest, e2)) => Some((seq![x] + rest, e2)),
            },
        }
    }
}

fn feat_min_max_records(t: &[u8], base: usize, q: usize, n: u16) -> (r: Option<(Vec<FeatMinMax>, usize)>)
    ensures
        match r {
            Some((v, e)) => spec_feat_min_max_records(t@, base as int, q as int, n as nat) == Some((feat_min_max_view(v@), e as int)),
            None => spec_feat_min_max_records(t@, base as int, q as int, n as nat) is None,
        },
{
    let mut v: Vec<FeatMinMax> = Vec::new();
    let mut i: u16 = 0;
    let mut p: usize = q;
    proof {
        if let Some((rest, _)) = spec_feat_min_max_records(t@, base as int, q as int, n as nat) {
            assert(feat_min_max_view(v@) + rest =~= rest);
        }
    }
    while i < n
        invariant
            0 <= i <= n,
            spec_feat_min_max_records(t@, base as int, q as int, n as nat) == prepend_parsed(
                feat_min_max_view(v@),
                spec_feat_min_max_records(t@, base as int, p as int, (n - i) as nat),
            ),
        decreases n - i,
    {
        let (x, e) = match feat_min_max_item_exec(t, base, p) {
            Some(r) => r,
            None => return None,
        };
        let ghost old_v = feat_min_max_view(v@);
        let ghost tail = spec_feat_min_max_records(t@, base as int, e as int, (n - i - 1) as nat);
        assert(spec_feat_min_max_records(t@, base as int, p as int, (n - i) as nat) == prepend_parsed(seq![x@], tail));
        v.push(x);
        assert(feat_min_max_view(v@) =~= old_v + seq![x@]);
        proof {
            if let Some((rest, _)) = tail {
                assert(old_v + (seq![x@] + rest) =~= (old_v + seq![x@]) + rest);
            }
        }
        i = i + 1;
        p = e;
    }
    assert(feat_min_max_view(v@) + Seq::<SpecFeatMinMax>::empty() =~= feat_min_max_view(v@));
    Some((v, p))
}

/// The extent of a script or language system: its lowest and highest
/// coordinates, overall and by feature.
#[derive(Clone, Debug, PartialEq, Eq)]
pub struct MinMax {
    pub min_coord_offset: Link16<BaseCoord>,
    pub max_coord_offset: Link16<BaseCoord>,
    pub feat_min_max_count: u16,
    pub feat_min_max_records: Vec<FeatMinMax>,
}

/// Mathematical form of `MinMax`.
pub struct SpecMinMax {
    pub min_coord_offset: Link16<SpecBaseCoord>,
    pub max_coord_offset: Link16<SpecBaseCoord>,
    pub feat_min_max_count: u16,
    pub feat_min_max_records: Seq<SpecFeatMinMax>,
}

impl View for MinMax {
    type V = SpecMinMax;

    open spec fn view(&self) -> SpecMinMax {
        SpecMinMax {
            min_coord_offset: self.min_coord_offset@,
            max_coord_offset: self.max_coord_offset@,
            feat_min_max_count: self.feat_min_max_count,
            feat_min_max_records: feat_min_max_view(self.feat_min_max_records@),
        }
    }
}

/// The extent table at `m`, its offsets relative to `m`.
pub open spec fn spec_min_max(t: Seq<u8>, m: int) -> Option<SpecMinMax> {
    match (base_coord_item(t, m, m), base_coord_item(t, m, m + 2)) {
        (Some((lo, _)), Some((hi, _))) => if !avail(t, m + 4, 2) {
            None
        } else {
            match spec_feat_min_max_records(t, m, m + 6, u16_at(t, m + 4) as nat) {
                Some((recs, _)) => Some(SpecMinMax {
                    min_coord_offset: lo,
                    max_coord_offset: hi,
                    feat_min_max_count: u16_at(t, m + 4),
                    feat_min_max_records: recs,
                }),
                None => None,
            }
        },
        _ => None,
    }
}

fn min_max(t: &[u8], m: usize) -> (r: Option<MinMax>)
    ensures
        match r {
            Some(v) => spec_min_max(t@, m as int) == Some(v@),
            None => spec_min_max(t@, m as int) is None,
        },
{
    let _len = t.len();
    let (lo, _) = match base_coord_item_exec(t, m, m) {
        Some(x) => x,
        None => return None,
    };
    let (hi, _) = match base_coord_item_exec(t, m, m + 2) {
        Some(x) => x,
        None => return None,
    };
    if !has_bytes(t, m + 4, 2) {
        return None;
    }
    let n = get_u16be(t, m + 4);
    match feat_min_max_records(t, m, m + 6, n) {
        Some((recs, _)) => Some(MinMax { min_coord_offset: lo, max_coord_offset: hi, feat_min_max_count: n, feat_min_max_records: recs }),
        None => None,
    }
}

/// The baseline values of a script: the default baseline and a coordinate
/// per baseline tag.
#[derive(Clone, Debug, PartialEq, Eq)]
pub struct BaseValues {
    pub default_baseline_index: u16,
    pub base_coord_count: u16,
    pub base_coord_offsets: Vec<Link16<BaseCoord>>,
}

/// Mathematical form of `BaseValues`.
pub struct SpecBaseValues {
    pub default_baseline_index: u16,
    pub base_coord_count: u16,
    pub base_coord_offsets: Seq<Link16<SpecBaseCoord>>,
}

impl View for BaseValues {
    type V = SpecBaseValues;

    open spec fn view(&self) -> SpecBaseValues {
        SpecBaseValues {
            default_baseline_index: self.default_baseline_index,
            base_coord_count: self.base_coord_count,
            base_coord_offsets: base_coords_view(self.base_coord_offsets@),
        }
    }
}

/// The baseline values at `v`, their offsets relative to `v`.
pub open spec fn spec_base_values(t: Seq<u8>, v: int) -> Option<SpecBaseValues> {
    if !avail(t, v, 4) {
        None
    } else {
        match spec_base_coord_links(t, v, v + 4, u16_at(t, v + 2) as nat) {
            Some((c, _)) => Some(SpecBaseValues { default_baseline_index: u16_at(t, v), base_coord_count: u16_at(t, v + 2), base_coord_offsets: c }),
            None => None,
        }
    }
}

fn base_values(t: &[u8], v: usize) -> (r: Option<BaseValues>)
    ensures
        match r {
            Some(x) => spec_base_values(t@, v as int) == Some(x@),
            None => spec_base_values(t@, v as int) is None,
        },
{
    if !has_bytes(t, v, 4) {
        return None;
    }
    let n = get_u16be(t, v + 2);
    match base_coord_links(t, v, v + 4, n) {
        Some((c, _)) => Some(BaseValues { default_baseline_index: get_u16be(t, v), base_coord_count: n, base_coord_offsets: c }),
        None => None,
    }
}

/// An extent-table offset at `q`, relative to `base`.
pub open spec fn min_max_item(t: Seq<u8>, base: int, q: int) -> Option<(Link16<SpecMinMax>, int)> {
    match spec_offset16(t, base, q) {
        None => None,
        Some(((off, None), e)) => Some((Link16 { offset: off, link: None }, e)),
        Some(((off, Some(x)), e)) => match spec_min_max(t, x) {
            Some(v) => Some((Link16 { offset: off, link: Some(v) }, e)),
            None => None,
        },
    }
}

fn min_max_item_exec(t: &[u8], base: usize, q: usize) -> (r: Option<(Link16<MinMax>, usize)>)
    ensures
        match r {
            Some((v, e)) => min_max_item(t@, base as int, q as int) == Some((v@, e as int)),
            None => min_max_item(t@, base as int, q as int) is None,
        },
{
    let (off, target, e) = match offset16_mandatory(t, base, q) {
        Some(o) => o,
        None => return None,
    };
    match target {
        None => Some((Link16 { offset: off, link: None }, e)),
        Some(x) => match min_max(t, x) {
            Some(v) => Some((Link16 { offset: off, link: Some(v) }, e)),
            None => None,
        },
    }
}

/// A baseline-values offset at `q`, relative to `base`.
pub open spec fn base_values_item(t: Seq<u8>, base: int, q: int) -> Option<(Link16<SpecBaseValues>, int)> {
    match spec_offset16(t, base, q) {
        None => None,
        Some(((off, None), e)) => Some((Link16 { offset: off, link: None }, e)),
        Some(((off, Some(x)), e)) => match spec_base_values(t, x) {
            Some(v) => Some((Link16 { offset: off, link: Some(v) }, e)),
            None => None,
        },
    }
}

fn base_values_item_exec(t: &[u8], base: usize, q: usize) -> (r: Option<(Link16<BaseValues>, usize)>)
    ensures
        match r {
            Some((v, e)) => base_values_item(t@, base as int, q as int) == Some((v@, e as int)),
            None => base_values_item(t@, base as int, q as int) is None,
        },
{
    let (off, target, e) = match offset16_mandatory(t, base, q) {
        Some(o) => o,
        None => return None,
    };
    match target {
        None => Some((Link16 { offset: off, link: None }, e)),
        Some(x) => match base_values(t, x) {
            Some(v) => Some((Link16 { offset: off, link: Some(v) }, e)),
            None => None,
        },
    }
}

/// The extent of a language system of a script.
#[derive(Clone, Debug, PartialEq, Eq)]
pub struct BaseLangSys {
    pub base_lang_sys_tag: u32,
    pub min_max_offset: Link16<MinMax>,
}

/// Mathematical form of `BaseLangSys`.
pub struct SpecBaseLangSys {
    pub base_lang_sys_tag: u32,
    pub min_max_offset: Link16<SpecMinMax>,
}

impl View for BaseLangSys {
    type V = SpecBaseLangSys;

    open spec fn view(&self) -> SpecBaseLangSys {
        SpecBaseLangSys { base_lang_sys_tag: self.base_lang_sys_tag, min_max_offset: self.min_max_offset@ }
    }
}

/// The six-byte language-system record at `q`, its offset relative to
/// `base`.
pub open spec fn base_lang_sys_item(t: Seq<u8>, base: int, q: int) -> Option<(SpecBaseLangSys, int)> {
    if !avail(t, q, 4) {
        None
    } else {
        match min_max_item(t, base, q + 4) {
            Some((m, e)) => Some((SpecBaseLangSys { base_lang_sys_tag: u32_at(t, q), min_max_offset: m }, e)),
            None => None,
        }
    }
}

fn base_lang_sys_item_exec(t: &[u8], base: usize, q: usize) -> (r: Option<(BaseLangSys, usize)>)
    ensures
        match r {
            Some((v, e)) => base_lang_sys_item(t@, base as int, q as int) == Some((v@, e as int)),
            None => base_lang_sys_item(t@, base as int, q as int) is None,
        },
{
    if !has_bytes(t, q, 4) {
        return None;
    }
    match min_max_item_exec(t, base, q + 4) {
        Some((m, e)) => Some((BaseLangSys { base_lang_sys_tag: get_u32be(t, q), min_max_offset: m }, e)),
        None => None,
    }
}

/// The views of a sequence of `BaseLangSys`.
pub open spec fn base_lang_sys_view(v: Seq<BaseLangSys>) -> Seq<SpecBaseLangSys> {
    v.map_values(|x: BaseLangSys| x@)
}

/// `n` language-system records from `q`, relative to `base`.
pub open spec fn spec_base_lang_sys_records(t: Seq<u8>, base: int, q: int, n: nat) -> Option<(Seq<SpecBaseLangSys>, int)>
    decreases n,
{
    if n == 0 {
        Some((Seq::empty(), q))
    } else {
        match base_lang_sys_item(t, base, q) {
            None => None,
            Some((x, e)) => match spec_base_lang_sys_records(t, base, e, (n - 1) as nat) {
                None => None,
                Some((rest, e2)) => Some((seq![x] + rest, e2)),
            },
        }
    }
}

fn base_lang_sys_records(t: &[u8], base: usize, q: usize, n: u16) -> (r: Option<(Vec<BaseLangSys>, usize)>)
    ensures
        match r {
            Some((v, e)) => spec_base_lang_sys_records(t@, base as int, q as int, n as nat) == Some((base_lang_sys_view(v@), e as int)),
            None => spec_base_lang_sys_records(t@, base as int, q as int, n as nat) is None,
        },
{
    let mut v: Vec<BaseLangSys> = Vec::new();
    let mut i: u16 = 0;
    let mut p: usize = q;
    proof {
        if let Some((rest, _)) = spec_base_lang_sys_records(t@, base as int, q as int, n as nat) {
            assert(base_lang_sys_view(v@) + rest =~= rest);
        }
    }
    while i < n
        invariant
            0 <= i <= n,
            spec_base_lang_sys_records(t@, base as int, q as int, n as nat) == prepend_parsed(
                base_lang_sys_view(v@),
                spec_base_lang_sys_records(t@, base as int, p as int, (n - i) as nat),
            ),
        decreases n - i,
    {
        let (x, e) = match base_lang_sys_item_exec(t, base, p) {
            Some(r) => r,
            None => return None,
        };
        let ghost old_v = base_lang_sys_view(v@);
        let ghost tail = spec_base_lang_sys_records(t@, base as int, e as int, (n - i - 1) as nat);
        assert(spec_base_lang_sys_records(t@, base as int, p as int, (n - i) as nat) == prepend_parsed(seq![x@], tail));
        v.push(x);
        assert(base_lang_sys_view(v@) =~= old_v + seq![x@]);
        proof {
            if let Some((rest, _)) = tail {
                assert(old_v + (seq![x@] + rest) =~= (old_v + seq![x@]) + rest);
            }
        }
        i = i + 1;
        p = e;
    }
    assert(base_lang_sys_view(v@) + Seq::<SpecBaseLangSys>::empty() =~= base_lang_sys_view(v@));
    Some((v, p))
}

/// The baseline data of a script.
#[derive(Clone, Debug, PartialEq, Eq)]
pub struct BaseScript {
    pub base_values_offset: Link16<BaseValues>,
    pub default_min_max_offset: Link16<MinMax>,
    pub base_lang_sys_count: u16,
    pub base_lang_sys_records: Vec<BaseLangSys>,
}

/// Mathematical form of `BaseScript`.
pub struct SpecBaseScript {
    pub base_values_offset: Link16<SpecBaseValues>,
    pub default_min_max_offset: Link16<SpecMinMax>,
    pub base_lang_sys_count: u16,
    pub base_lang_sys_records: Seq<SpecBaseLangSys>,
}

impl View for BaseScript {
    type V = SpecBaseScript;

    open spec fn view(&self) -> SpecBaseScript {
        SpecBaseScript {
            base_values_offset: self.base_values_offset@,
            default_min_max_offset: self.default_min_max_offset@,
            base_lang_sys_count: self.base_lang_sys_count,
            base_lang_sys_records: base_lang_sys_view(self.base_lang_sys_records@),
        }
    }
}

/// The script baseline table at `s`, its offsets relative to `s`.
pub open spec fn spec_base_script(t: Seq<u8>, s: int) -> Option<SpecBaseScript> {
    match (base_values_item(t, s, s), min_max_item(t, s, s + 2)) {
        (Some((bv, _)), Some((mm, _))) => if !avail(t, s + 4, 2) {
            None
        } else {
            match spec_base_lang_sys_records(t, s, s + 6, u16_at(t, s + 4) as nat) {
                Some((recs, _)) => Some(SpecBaseScript {
                    base_values_offset: bv,
                    default_min_max_offset: mm,
                    base_lang_sys_count: u16_at(t, s + 4),
                    base_lang_sys_records: recs,
                }),
                None => None,
            }
        },
        _ => None,
    }
}

fn base_script(t: &[u8], s: usize) -> (r: Option<BaseScript>)
    ensures
        match r {
            Some(v) => spec_base_script(t@, s as int) == Some(v@),
            None => spec_base_script(t@, s as int) is None,
        },
{
    let _len = t.len();
    let (bv, _) = match base_values_item_exec(t, s, s) {
        Some(x) => x,
        None => return None,
    };
    let (mm, _) = match min_max_item_exec(t, s, s + 2) {
        Some(x) => x,
        None => return None,
    };
    if !has_bytes(t, s + 4, 2) {
        return None;
    }
    let n = get_u16be(t, s + 4);
    match base_lang_sys_records(t, s, s + 6, n) {
        Some((recs, _)) => Some(BaseScript { base_values_offset: bv, default_min_max_offset: mm, base_lang_sys_count: n, base_lang_sys_records: recs }),
        None => None,
    }
}

/// A script baseline offset at `q`, relative to `base`.
pub open spec fn base_script_item(t: Seq<u8>, base: int, q: int) -> Option<(Link16<SpecBaseScript>, int)> {
    match spec_offset16(t, base, q) {
        None => None,
        Some(((off, None), e)) => Some((Link16 { offset: off, link: None }, e)),
        Some(((off, Some(x)), e)) => match spec_base_script(t, x) {
            Some(v) => Some((Link16 { offset: off, link: Some(v) }, e)),
            None => None,
        },
    }
}

fn base_script_item_exec(t: &[u8], base: usize, q: usize) -> (r: Option<(Link16<BaseScript>, usize)>)
    ensures
        match r {
            Some((v, e)) => base_script_item(t@, base as int, q as int) == Some((v@, e as int)),
            None => base_script_item(t@, base as int, q as int) is None,
        },
{
    let (off, target, e) = match offset16_mandatory(t, base, q) {
        Some(o) => o,
        None => return None,
    };
    match target {
        None => Some((Link16 { offset: off, link: None }, e)),
        Some(x) => match base_script(t, x) {
            Some(v) => Some((Link16 { offset: off, link: Some(v) }, e)),
            None => None,
        },
    }
}

/// A script and its baseline data.
#[derive(Clone, Debug, PartialEq, Eq)]
pub struct BaseScriptRecord {
    pub base_script_tag: u32,
    pub base_script_offset: Link16<BaseScript>,
}

/// Mathematical form of `BaseScriptRecord`.
pub struct SpecBaseScriptRecord {
    pub base_script_tag: u32,
    pub base_script_offset: Link16<SpecBaseScript>,
}

impl View for BaseScriptRecord {
    type V = SpecBaseScriptRecord;

    open spec fn view(&self) -> SpecBaseScriptRecord {
        SpecBaseScriptRecord { base_script_tag: self.base_script_tag, base_script_offset: self.base_script_offset@ }
    }
}

/// The six-byte script record at `q`, its offset relative to `base`.
pub open spec fn base_script_record_item(t: Seq<u8>, base: int, q: int) -> Option<(SpecBaseScriptRecord, int)> {
    if !avail(t, q, 4) {
        None
    } else {
        match base_script_item(t, base, q + 4) {
            Some((s, e)) => Some((SpecBaseScriptRecord { base_script_tag: u32_at(t, q), base_script_offset: s }, e)),
            None => None,
        }
    }
}

fn base_script_record_item_exec(t: &[u8], base: usize, q: usize) -> (r: Option<(BaseScriptRecord, usize)>)
    ensures
        match r {
            Some((v, e)) => base_script_record_item(t@, base as int, q as int) == Some((v@, e as int)),
            None => base_script_record_item(t@, base as int, q as int) is None,
        },
{
    if !has_bytes(t, q, 4) {
        return None;
    }
    match base_script_item_exec(t, base, q + 4) {
        Some((s, e)) => Some((BaseScriptRecord { base_script_tag: get_u32be(t, q), base_script_offset: s }, e)),
        None => None,
    }
}

/// The views of a sequence of `BaseScriptRecord`.
pub open spec fn base_script_records_view(v: Seq<BaseScriptRecord>) -> Seq<SpecBaseScriptRecord> {
    v.map_values(|x: BaseScriptRecord| x@)
}

/// `n` script records from `q`, relative to `base`.
pub open spec fn spec_base_script_records(t: Seq<u8>, base: int, q: int, n: nat) -> Option<(Seq<SpecBaseScriptRecord>, int)>
    decreases n,
{
    if n == 0 {
        Some((Seq::empty(), q))
    } else {
        match base_script_record_item(t, base, q) {
            None => None,
            Some((x, e)) => match spec_base_script_records(t, base, e, (n - 1) as nat) {
                None => None,
                Some((rest, e2)) => Some((seq![x] + rest, e2)),
            },
        }
    }
}

fn base_script_records(t: &[u8], base: usize, q: usize, n: u16) -> (r: Option<(Vec<BaseScriptRecord>, usize)>)
    ensures
        match r {
            Some((v, e)) => spec_base_script_records(t@, base as int, q as int, n as nat) == Some((base_script_records_view(v@), e as int)),
            None => spec_base_script_records(t@, base as int, q as int, n as nat) is None,
        },
{
    let mut v: Vec<BaseScriptRecord> = Vec::new();
    let mut i: u16 = 0;
    let mut p: usize = q;
    proof {
        if let Some((rest, _)) = spec_base_script_records(t@, base as int, q as int, n as nat) {
            assert(base_script_records_view(v@) + rest =~= rest);
        }
    }
    while i < n
        invariant
            0 <= i <= n,
            spec_base_script_records(t@, base as int, q as int, n as nat) == prepend_parsed(
                base_script_records_view(v@),
                spec_base_script_records(t@, base as int, p as int, (n - i) as nat),
            ),
        decreases n - i,
    {
        let (x, e) = match base_script_record_item_exec(t, base, p) {
            Some(r) => r,
            None => return None,
        };
        let ghost old_v = base_script_records_view(v@);
        let ghost tail = spec_base_script_records(t@, base as int, e as int, (n - i - 1) as nat);
        assert(spec_base_script_records(t@, base as int, p as int, (n - i) as nat) == prepend_parsed(seq![x@], tail));
        v.push(x);
        assert(base_script_records_view(v@) =~= old_v + seq![x@]);
        proof {
            if let Some((rest, _)) = tail {
                assert(old_v + (seq![x@] + rest) =~= (old_v + seq![x@]) + rest);
            }
        }
        i = i + 1;
        p = e;
    }
    assert(base_script_records_view(v@) + Seq::<SpecBaseScriptRecord>::empty() =~= base_script_records_view(v@));
    Some((v, p))
}

/// The scripts of an axis and their baseline data.
#[derive(Clone, Debug, PartialEq, Eq)]
pub struct BaseScriptList {
    pub base_script_count: u16,
    pub base_script_records: Vec<BaseScriptRecord>,
}

/// Mathematical form of `BaseScriptList`.
pub struct SpecBaseScriptList {
    pub base_script_count: u16,
    pub base_script_records: Seq<SpecBaseScriptRecord>,
}

impl View for BaseScriptList {
    type V = SpecBaseScriptList;

    open spec fn view(&self) -> SpecBaseScriptList {
        SpecBaseScriptList {
            base_script_count: self.base_script_count,
            base_script_records: base_script_records_view(self.base_script_records@),
        }
    }
}

/// The script list at `l`, its offsets relative to `l`.
pub open spec fn spec_base_script_list(t: Seq<u8>, l: int) -> Option<SpecBaseScriptList> {
    if !avail(t, l, 2) {
        None
    } else {
        match spec_base_script_records(t, l, l + 2, u16_at(t, l) as nat) {
            Some((recs, _)) => Some(SpecBaseScriptList { base_script_count: u16_at(t, l), base_script_records: recs }),
            None => None,
        }
    }
}

fn base_script_list(t: &[u8], l: usize) -> (r: Option<BaseScriptList>)
    ensures
        match r {
            Some(v) => spec_base_script_list(t@, l as int) == Some(v@),
            None => spec_base_script_list(t@, l as int) is None,
        },
{
    if !has_bytes(t, l, 2) {
        return None;
    }
    let n = get_u16be(t, l);
    match base_script_records(t, l, l + 2, n) {
        Some((recs, _)) => Some(BaseScriptList { base_script_count: n, base_script_records: recs }),
        None => None,
    }
}

/// The baseline tags of an axis.
#[derive(Clone, Debug, PartialEq, Eq)]
pub struct BaseTagList {
    pub base_tag_count: u16,
    pub baseline_tags: Vec<u32>,
}

/// Mathematical form of `BaseTagList`.
pub struct SpecBaseTagList {
    pub base_tag_count: u16,
    pub baseline_tags: Seq<u32>,
}

impl View for BaseTagList {
    type V = SpecBaseTagList;

    open spec fn view(&self) -> SpecBaseTagList {
        SpecBaseTagList { base_tag_count: self.base_tag_count, baseline_tags: self.baseline_tags@ }
    }
}

/// The tag list at `g`: a count and that many tags.
pub open spec fn spec_base_tag_list(t: Seq<u8>, g: int) -> Option<SpecBaseTagList> {
    if avail(t, g, 2) && avail(t, g + 2, 4 * u16_at(t, g)) {
        Some(SpecBaseTagList {
            base_tag_count: u16_at(t, g),
            baseline_tags: Seq::new(u16_at(t, g) as nat, |i: int| u32_at(t, g + 2 + 4 * i)),
        })
    } else {
        None
    }
}

fn base_tag_list(t: &[u8], g: usize) -> (r: Option<BaseTagList>)
    ensures
        match r {
            Some(v) => spec_base_tag_list(t@, g as int) == Some(v@),
            None => spec_base_tag_list(t@, g as int) is None,
        },
{
    if !has_bytes(t, g, 2) {
        return None;
    }
    let n = get_u16be(t, g);
    if !has_bytes(t, g + 2, 4 * (n as usize)) {
        return None;
    }
    let mut v: Vec<u32> = Vec::new();
    let mut i: usize = 0;
    while i < n as usize
        invariant
            0 <= i <= n,
            avail(t@, g + 2, 4 * n),
            t@.len() <= usize::MAX,
            v@ =~= Seq::new(i as nat, |j: int| u32_at(t@, g + 2 + 4 * j)),
        decreases n - i,
    {
        v.push(get_u32be(t, g + 2 + 4 * i));
        i = i + 1;
        assert(v@ =~= Seq::new(i as nat, |j: int| u32_at(t@, g + 2 + 4 * j)));
    }
    Some(BaseTagList { base_tag_count: n, baseline_tags: v })
}

/// A tag-list offset at `q`, relative to `base`.
pub open spec fn base_tag_list_item(t: Seq<u8>, base: int, q: int) -> Option<(Link16<SpecBaseTagList>, int)> {
    match spec_offset16(t, base, q) {
        None => None,
        Some(((off, None), e)) => Some((Link16 { offset: off, link: None }, e)),
        Some(((off, Some(x)), e)) => match spec_base_tag_list(t, x) {
            Some(v) => Some((Link16 { offset: off, link: Some(v) }, e)),
            None => None,
        },
    }
}

fn base_tag_list_item_exec(t: &[u8], base: usize, q: usize) -> (r: Option<(Link16<BaseTagList>, usize)>)
    ensures
        match r {
            Some((v, e)) => base_tag_list_item(t@, base as int, q as int) == Some((v@, e as int)),
            None => base_tag_list_item(t@, base as int, q as int) is None,
        },
{
    let (off, target, e) = match offset16_mandatory(t, base, q) {
        Some(o) => o,
        None => return None,
    };
    match target {
        None => Some((Link16 { offset: off, link: None }, e)),
        Some(x) => match base_tag_list(t, x) {
            Some(v) => Some((Link16 { offset: off, link: Some(v) }, e)),
            None => None,
        },
    }
}

/// A script-list offset at `q`, relative to `base`.
pub open spec fn base_script_list_item(t: Seq<u8>, base: int, q: int) -> Option<(Link16<SpecBaseScriptList>, int)> {
    match spec_offset16(t, base, q) {
        None => None,
        Some(((off, None), e)) => Some((Link16 { offset: off, link: None }, e)),
        Some(((off, Some(x)), e)) => match spec_base_script_list(t, x) {
            Some(v) => Some((Link16 { offset: off, link: Some(v) }, e)),
            None => None,
        },
    }
}

fn base_script_list_item_exec(t: &[u8], base: usize, q: usize) -> (r: Option<(Link16<BaseScriptList>, usize)>)
    ensures
        match r {
            Some((v, e)) => base_script_list_item(t@, base as int, q as int) == Some((v@, e as int)),
            None => base_script_list_item(t@, base as int, q as int) is None,
        },
{
    let (off, target, e) = match offset16_mandatory(t, base, q) {
        Some(o) => o,
        None => return None,
    };
    match target {
        None => Some((Link16 { offset: off, link: None }, e)),
        Some(x) => match base_script_list(t, x) {
            Some(v) => Some((Link16 { offset: off, link: Some(v) }, e)),
            None => None,
        },
    }
}

/// The baseline data of one axis (horizontal or vertical).
#[derive(Clone, Debug, PartialEq, Eq)]
pub struct AxisTable {
    pub base_tag_list_offset: Link16<BaseTagList>,
    pub base_script_list_offset: Link16<BaseScriptList>,
}

/// Mathematical form of `AxisTable`.
pub struct SpecAxisTable {
    pub base_tag_list_offset: Link16<SpecBaseTagList>,
    pub base_script_list_offset: Link16<SpecBaseScriptList>,
}

impl View for AxisTable {
    type V = SpecAxisTable;

    open spec fn view(&self) -> SpecAxisTable {
        SpecAxisTable {
            base_tag_list_offset: self.base_tag_list_offset@,
            base_script_list_offset: self.base_script_list_offset@,
        }
    }
}

/// The axis table at `a`, its offsets relative to `a`.
pub open spec fn spec_axis_table(t: Seq<u8>, a: int) -> Option<SpecAxisTable> {
    match (base_tag_list_item(t, a, a), base_script_list_item(t, a, a + 2)) {
        (Some((g, _)), Some((l, _))) => Some(SpecAxisTable { base_tag_list_offset: g, base_script_list_offset: l }),
        _ => None,
    }
}

fn axis_table(t: &[u8], a: usize) -> (r: Option<AxisTable>)
    ensures
        match r {
            Some(v) => spec_axis_table(t@, a as int) == Some(v@),
            None => spec_axis_table(t@, a as int) is None,
        },
{
    let _len = t.len();
    let (g, _) = match base_tag_list_item_exec(t, a, a) {
        Some(x) => x,
        None => return None,
    };
    let (l, _) = match base_script_list_item_exec(t, a, a + 2) {
        Some(x) => x,
        None => return None,
    };
    Some(AxisTable { base_tag_list_offset: g, base_script_list_offset: l })
}

/// An axis-table offset at `q`, relative to `base`.
pub open spec fn axis_table_item(t: Seq<u8>, base: int, q: int) -> Option<(Link16<SpecAxisTable>, int)> {
    match spec_offset16(t, base, q) {
        None => None,
        Some(((off, None), e)) => Some((Link16 { offset: off, link: None }, e)),
        Some(((off, Some(x)), e)) => match spec_axis_table(t, x) {
            Some(v) => Some((Link16 { offset: off, link: Some(v) }, e)),
            None => None,
        },
    }
}

fn axis_table_item_exec(t: &[u8], base: usize, q: usize) -> (r: Option<(Link16<AxisTable>, usize)>)
    ensures
        match r {
            Some((v, e)) => axis_table_item(t@, base as int, q as int) == Some((v@, e as int)),
            None => axis_table_item(t@, base as int, q as int) is None,
        },
{
    let (off, target, e) = match offset16_mandatory(t, base, q) {
        Some(o) => o,
        None => return None,
    };
    match target {
        None => Some((Link16 { offset: off, link: None }, e)),
        Some(x) => match axis_table(t, x) {
            Some(v) => Some((Link16 { offset: off, link: Some(v) }, e)),
            None => None,
        },
    }
}

/// The 32-bit item-variation-store offset at `q`, relative to `base`.
pub open spec fn base_store_item(t: Seq<u8>, base: int, q: int) -> Option<(Link32<SpecItemVariationStore>, int)> {
    match spec_offset32(t, base, q) {
        None => None,
        Some(((off, None), e)) => Some((Link32 { offset: off, link: None }, e)),
        Some(((off, Some(x)), e)) => match spec_item_variation_store(t, x) {
            Some(v) => Some((Link32 { offset: off, link: Some(v) }, e)),
            None => None,
        },
    }
}

fn base_store_item_exec(t: &[u8], base: usize, q: usize) -> (r: Option<(Link32<ItemVariationStore>, usize)>)
    ensures
        match r {
            Some((v, e)) => base_store_item(t@, base as int, q as int) == Some((v@, e as int)),
            None => base_store_item(t@, base as int, q as int) is None,
        },
{
    let (off, target, e) = match offset32(t, base, q) {
        Some(o) => o,
        None => return None,
    };
    match target {
        None => Some((Link32 { offset: off, link: None }, e)),
        Some(x) => match item_variation_store(t, x) {
            Some(v) => Some((Link32 { offset: off, link: Some(v) }, e)),
            None => None,
        },
    }
}

/// The `BASE` table.
#[derive(Clone, Debug, PartialEq, Eq)]
pub struct BaseTable {
    pub major_version: u16,
    pub minor_version: u16,
    pub horiz_axis_offset: Link16<AxisTable>,
    pub vert_axis_offset: Link16<AxisTable>,
    pub item_var_store_offset: Option<Link32<ItemVariationStore>>,
}

/// Mathematical form of `BaseTable`.
pub struct SpecBaseTable {
    pub major_version: u16,
    pub minor_version: u16,
    pub horiz_axis_offset: Link16<SpecAxisTable>,
    pub vert_axis_offset: Link16<SpecAxisTable>,
    pub item_var_store_offset: Option<Link32<SpecItemVariationStore>>,
}

impl View for BaseTable {
    type V = SpecBaseTable;

    open spec fn view(&self) -> SpecBaseTable {
        SpecBaseTable {
            major_version: self.major_version,
            minor_version: self.minor_version,
            horiz_axis_offset: self.horiz_axis_offset@,
            vert_axis_offset: self.vert_axis_offset@,
            item_var_store_offset: match self.item_var_store_offset {
                Some(l) => Some(l@),
                None => None,
            },
        }
    }
}

/// The `BASE` table held in `t`: version 1.0 or 1.1, the horizontal and
/// vertical axis offsets, and for version 1.1 the 32-bit offset of an item
/// variation store.
#[verifier::opaque]
pub open spec fn spec_base_table(t: Seq<u8>) -> Option<(SpecBaseTable, int)> {
    if !avail(t, 0, 4) || u16_at(t, 0) != 1 || u16_at(t, 2) > 1 {
        None
    } else {
        match (axis_table_item(t, 0, 4), axis_table_item(t, 0, 6)) {
            (Some((h, _)), Some((v, e))) => if u16_at(t, 2) == 0 {
                Some((SpecBaseTable {
                    major_version: 1,
                    minor_version: 0,
                    horiz_axis_offset: h,
                    vert_axis_offset: v,
                    item_var_store_offset: None,
                }, e))
            } else {
                match base_store_item(t, 0, 8) {
                    Some((s, e2)) => Some((SpecBaseTable {
                        major_version: 1,
                        minor_version: 1,
                        horiz_axis_offset: h,
                        vert_axis_offset: v,
                        item_var_store_offset: Some(s),
                    }, e2)),
                    None => None,
                }
            },
            _ => None,
        }
    }
}

/// Parses the `BASE` table held in `t`.
pub fn base_table(t: &[u8]) -> (r: Option<(BaseTable, usize)>)
    ensures
        match r {
            Some((b, e)) => spec_base_table(t@) == Some((b@, e as int)),
            None => spec_base_table(t@) is None,
        },
{
    reveal(spec_base_table);
    if !has_bytes(t, 0, 4) || get_u16be(t, 0) != 1 || get_u16be(t, 2) > 1 {
        return None;
    }
    let minor = get_u16be(t, 2);
    let (h, _) = match axis_table_item_exec(t, 0, 4) {
        Some(x) => x,
        None => return None,
    };
    let (v, e) = match axis_table_item_exec(t, 0, 6) {
        Some(x) => x,
        None => return None,
    };
    if minor == 0 {
        Some(
            (
                BaseTable {
                    major_version: 1,
                    minor_version: 0,
                    horiz_axis_offset: h,
                    vert_axis_offset: v,
                    item_var_store_offset: None,
                },
                e,
            ),
        )
    } else {
        match base_store_item_exec(t, 0, 8) {
            Some((s, e2)) => Some(
                (
                    BaseTable {
                        major_version: 1,
                        minor_version: 1,
                        horiz_axis_offset: h,
                        vert_axis_offset: v,
                        item_var_store_offset: Some(s),
                    },
                    e2,
                ),
            ),
            None => None,
        }
    }
}


proof fn lemma_base_coord_links_len(t: Seq<u8>, base: int, q: int, n: nat)
    ensures
        spec_base_coord_links(t, base, q, n) matches Some((v, _)) ==> v.len() == n,
    decreases n,
{
    if n > 0 {
        if let Some((_, e)) = base_coord_item(t, base, q) {
            lemma_base_coord_links_len(t, base, e, (n - 1) as nat);
        }
    }
}

proof fn lemma_feat_min_max_records_len(t: Seq<u8>, base: int, q: int, n: nat)
    ensures
        spec_feat_min_max_records(t, base, q, n) matches Some((v, _)) ==> v.len() == n,
    decreases n,
{
    if n > 0 {
        if let Some((_, e)) = feat_min_max_item(t, base, q) {
            lemma_feat_min_max_records_len(t, base, e, (n - 1) as nat);
        }
    }
}

proof fn lemma_base_lang_sys_records_len(t: Seq<u8>, base: int, q: int, n: nat)
    ensures
        spec_base_lang_sys_records(t, base, q, n) matches Some((v, _)) ==> v.len() == n,
    decreases n,
{
    if n > 0 {
        if let Some((_, e)) = base_lang_sys_item(t, base, q) {
            lemma_base_lang_sys_records_len(t, base, e, (n - 1) as nat);
        }
    }
}

proof fn lemma_base_script_records_len(t: Seq<u8>, base: int, q: int, n: nat)
    ensures
        spec_base_script_records(t, base, q, n) matches Some((v, _)) ==> v.len() == n,
    decreases n,
{
    if n > 0 {
        if let Some((_, e)) = base_script_record_item(t, base, q) {
            lemma_base_script_records_len(t, base, e, (n - 1) as nat);
        }
    }
}

/// Every list of the baseline table holds exactly as many entries as its
/// count says: the coordinates of a set of baseline values, the
/// feature extents of a min/max table, the language systems of a script,
/// the scripts of a script list and the tags of a tag list.
pub proof fn lemma_base_counts(t: Seq<u8>, x: int)
    ensures
        spec_base_values(t, x) matches Some(v) ==> v.base_coord_offsets.len() == v.base_coord_count,
        spec_min_max(t, x) matches Some(m) ==> m.feat_min_max_records.len() == m.feat_min_max_count,
        spec_base_script(t, x) matches Some(s) ==> s.base_lang_sys_records.len() == s.base_lang_sys_count,
        spec_base_script_list(t, x) matches Some(l) ==> l.base_script_records.len() == l.base_script_count,
        spec_base_tag_list(t, x) matches Some(l) ==> l.baseline_tags.len() == l.base_tag_count,
{
    if avail(t, x, 4) {
        lemma_base_coord_links_len(t, x, x + 4, u16_at(t, x + 2) as nat);
    }
    if avail(t, x + 4, 2) {
        lemma_feat_min_max_records_len(t, x, x + 6, u16_at(t, x + 4) as nat);
        lemma_base_lang_sys_records_len(t, x, x + 6, u16_at(t, x + 4) as nat);
    }
    if avail(t, x, 2) {
        lemma_base_script_records_len(t, x, x + 2, u16_at(t, x) as nat);
    }
}


/// A base coordinate holds its format word and signed coordinate at `c`
/// and `c + 2`; format 2 adds the reference glyph and contour point words
/// at `c + 4` and `c + 6`, format 3 a device offset at `c + 4`.
pub proof fn lemma_base_coord_fields(t: Seq<u8>, c: int)
    ensures
        spec_base_coord(t, c) matches Some(b) ==> b.format == crate::bytes::word_at(t, c) && b.coordinate == crate::bytes::signed_word_at(t, c + 2)
            && match b.hint {
            SpecBaseCoordHint::NoHint => b.format == 1,
            SpecBaseCoordHint::GlyphHint { reference_glyph, base_coord_point } => b.format == 2
                && reference_glyph == crate::bytes::word_at(t, c + 4) && base_coord_point == crate::bytes::word_at(t, c + 6),
            SpecBaseCoordHint::DeviceHint { device_offset } => b.format == 3 && device_offset.offset == crate::bytes::word_at(
                t,
                c + 4,
            ),
        },
{
    if let Some(b) = spec_base_coord(t, c) {
        crate::bytes::lemma_readers_spell(t, c);
        crate::bytes::lemma_readers_spell(t, c + 2);
        if b.format != 1 {
            crate::bytes::lemma_readers_spell(t, c + 4);
        }
        if b.format == 2 {
            crate::bytes::lemma_readers_spell(t, c + 6);
        }
    }
}

/// The baseline axis records read their own bytes: an axis table holds the
/// tag list and script list offsets at `x` and `x + 2`; a tag list a count
/// at `x` and tag double words from `x + 2`; a script list a count at `x`;
/// a script record its tag double word at `x` and its script offset at
/// `x + 4`.
pub proof fn lemma_base_axis_fields(t: Seq<u8>, base: int, x: int)
    ensures
        spec_axis_table(t, x) matches Some(a) ==> a.base_tag_list_offset.offset == crate::bytes::word_at(t, x)
            && a.base_script_list_offset.offset == crate::bytes::word_at(t, x + 2),
        spec_base_tag_list(t, x) matches Some(g) ==> {
            &&& g.base_tag_count == crate::bytes::word_at(t, x)
            &&& g.baseline_tags.len() == g.base_tag_count
            &&& forall|i: int|
                0 <= i < g.base_tag_count ==> #[trigger] g.baseline_tags[i] == crate::bytes::dword_at(t, x + 2 + 4 * i)
        },
        spec_base_script_list(t, x) matches Some(l) ==> l.base_script_count == crate::bytes::word_at(t, x),
        base_script_record_item(t, base, x) matches Some((r, _)) ==> r.base_script_tag == crate::bytes::dword_at(t, x)
            && r.base_script_offset.offset == crate::bytes::word_at(t, x + 4),
{
    if let Some(a) = spec_axis_table(t, x) {
        crate::bytes::lemma_readers_spell(t, x);
        crate::bytes::lemma_readers_spell(t, x + 2);
    }
    if let Some(g) = spec_base_tag_list(t, x) {
        crate::bytes::lemma_readers_spell(t, x);
        assert forall|i: int| 0 <= i < g.base_tag_count implies #[trigger] g.baseline_tags[i] == crate::bytes::dword_at(t, x + 2 + 4 * i) by {
            crate::bytes::lemma_dword_spells(t, x + 2 + 4 * i);
        }
    }
    if let Some(l) = spec_base_script_list(t, x) {
        crate::bytes::lemma_readers_spell(t, x);
    }
    if let Some((r, _)) = base_script_record_item(t, base, x) {
        crate::bytes::lemma_dword_spells(t, x);
        crate::bytes::lemma_readers_spell(t, x + 4);
    }
}

/// A baseline script holds the values and default min/max offsets at `x`
/// and `x + 2` and the language system count at `x + 4`; a language system
/// record its tag double word at `x` and min/max offset at `x + 4`.
pub proof fn lemma_base_script_fields(t: Seq<u8>, base: int, x: int)
    ensures
        spec_base_script(t, x) matches Some(s) ==> s.base_values_offset.offset == crate::bytes::word_at(t, x)
            && s.default_min_max_offset.offset == crate::bytes::word_at(t, x + 2) && s.base_lang_sys_count
            == crate::bytes::word_at(t, x + 4),
        base_lang_sys_item(t, base, x) matches Some((r, _)) ==> r.base_lang_sys_tag == crate::bytes::dword_at(t, x)
            && r.min_max_offset.offset == crate::bytes::word_at(t, x + 4),
{
    if let Some(s) = spec_base_script(t, x) {
        let (bv, _) = base_values_item(t, x, x).unwrap();
        let (mm, _) = min_max_item(t, x, x + 2).unwrap();
        assert(spec_offset16(t, x, x) is Some && spec_offset16(t, x, x + 2) is Some);
        assert(bv.offset == u16_at(t, x) && mm.offset == u16_at(t, x + 2));
        crate::bytes::lemma_readers_spell(t, x);
        crate::bytes::lemma_readers_spell(t, x + 2);
        crate::bytes::lemma_readers_spell(t, x + 4);
    }
    if let Some((r, _)) = base_lang_sys_item(t, base, x) {
        let (mm, _) = min_max_item(t, base, x + 4).unwrap();
        assert(spec_offset16(t, base, x + 4) is Some);
        assert(mm.offset == u16_at(t, x + 4));
        crate::bytes::lemma_dword_spells(t, x);
        crate::bytes::lemma_readers_spell(t, x + 4);
    }
}

/// Baseline values hold the default baseline index and coordinate count at
/// `x` and `x + 2`; a min/max table the min and max coordinate offsets at
/// `x` and `x + 2` and the feature count at `x + 4`; a feature min/max
/// record its tag double word at `x` and its min and max offsets at `x + 4`
/// and `x + 6`.
pub proof fn lemma_base_values_fields(t: Seq<u8>, base: int, x: int)
    ensures
        spec_base_values(t, x) matches Some(v) ==> v.default_baseline_index == crate::bytes::word_at(t, x)
            && v.base_coord_count == crate::bytes::word_at(t, x + 2),
        spec_min_max(t, x) matches Some(m) ==> m.min_coord_offset.offset == crate::bytes::word_at(t, x)
            && m.max_coord_offset.offset == crate::bytes::word_at(t, x + 2) && m.feat_min_max_count
            == crate::bytes::word_at(t, x + 4),
        feat_min_max_item(t, base, x) matches Some((r, _)) ==> r.feature_tag == crate::bytes::dword_at(t, x)
            && r.min_coord_offset.offset == crate::bytes::word_at(t, x + 4) && r.max_coord_offset.offset
            == crate::bytes::word_at(t, x + 6),
{
    if let Some(v) = spec_base_values(t, x) {
        crate::bytes::lemma_readers_spell(t, x);
        crate::bytes::lemma_readers_spell(t, x + 2);
    }
    if let Some(m) = spec_min_max(t, x) {
        let (lo, _) = base_coord_item(t, x, x).unwrap();
        let (hi, _) = base_coord_item(t, x, x + 2).unwrap();
        assert(spec_offset16(t, x, x) is Some && spec_offset16(t, x, x + 2) is Some);
        assert(lo.offset == u16_at(t, x) && hi.offset == u16_at(t, x + 2));
        crate::bytes::lemma_readers_spell(t, x);
        crate::bytes::lemma_readers_spell(t, x + 2);
        crate::bytes::lemma_readers_spell(t, x + 4);
    }
    if let Some((r, _)) = feat_min_max_item(t, base, x) {
        let (lo, _) = base_coord_item(t, base, x + 4).unwrap();
        let (hi, _) = base_coord_item(t, base, x + 6).unwrap();
        assert(spec_offset16(t, base, x + 4) is Some && spec_offset16(t, base, x + 6) is Some);
        assert(lo.offset == u16_at(t, x + 4) && hi.offset == u16_at(t, x + 6));
        crate::bytes::lemma_dword_spells(t, x);
        crate::bytes::lemma_readers_spell(t, x + 4);
        crate::bytes::lemma_readers_spell(t, x + 6);
    }
}

/// The baseline table holds its minor version word at 2 and the horizontal
/// and vertical axis offsets at 4 and 6; from version 1.1, and only then,
/// the item variation store offset, a double word, at 8.
pub proof fn lemma_base_header_fields(t: Seq<u8>)
    ensures
        spec_base_table(t) matches Some((b, _)) ==> {
            &&& b.minor_version == crate::bytes::word_at(t, 2)
            &&& b.horiz_axis_offset.offset == crate::bytes::word_at(t, 4)
            &&& b.vert_axis_offset.offset == crate::bytes::word_at(t, 6)
            &&& (b.item_var_store_offset matches Some(l) ==> b.minor_version == 1 && l.offset == crate::bytes::dword_at(t, 8))
            &&& (b.minor_version == 1 ==> b.item_var_store_offset is Some)
        },
{
    reveal(spec_base_table);
    if let Some((b, _)) = spec_base_table(t) {
        crate::bytes::lemma_readers_spell(t, 2);
        crate::bytes::lemma_readers_spell(t, 4);
        crate::bytes::lemma_readers_spell(t, 6);
        if b.minor_version == 1 {
            crate::bytes::lemma_dword_spells(t, 8);
        }
    }
}

} // verus!
