//! The glyph positioning table (`GPOS`): its lookup subtables by lookup
//! type, lookups, the lookup list and the table header. Offsets are
//! relative to the start of the table that holds them; positions are
//! relative to the start of the `GPOS` table.
use vstd::prelude::*;
use crate::bytes::{avail, get_u16be, has_bytes, u16_at};
use crate::opentype::common::{lookup_flag, spec_lookup_flag, FeatureList, LookupFlag, ScriptList, FeatureVariations, SpecFeatureList, SpecScriptList, SpecFeatureVariations};
use crate::opentype::context::{
    chained_sequence_context, sequence_context, spec_chained_sequence_context,
    spec_sequence_context, ChainedSequenceContext, SequenceContext, SpecChainedSequenceContext,
    SpecSequenceContext,
};
use crate::opentype::gpos::{
    cursive_pos, mark_attach_pos, mark_lig_pos, pair_pos, single_pos, spec_cursive_pos,
    spec_mark_attach_pos, spec_mark_lig_pos, spec_pair_pos, spec_single_pos, CursivePos,
    MarkAttachPos, MarkLigPos, PairPos, SinglePos, SpecCursivePos, SpecMarkAttachPos,
    SpecMarkLigPos, SpecPairPos, SpecSinglePos,
};
use crate::opentype::gsub::{
    feature_list_link, feature_variations_link, script_list_link, spec_feature_list_link,
    spec_feature_variations_link, spec_script_list_link, tagged,
};
use crate::opentype::links::{Link16, Link32, offset16_mandatory, offset32, spec_offset16, spec_offset32};

verus! {

/// A positioning subtable of a lookup type other than the extension.
#[derive(Clone, Debug, PartialEq, Eq)]
pub enum GroundPos {
    SinglePos(SinglePos),
    PairPos(PairPos),
    CursivePos(CursivePos),
    MarkBasePos(MarkAttachPos),
    MarkLigPos(MarkLigPos),
    MarkMarkPos(MarkAttachPos),
    SequenceContext(SequenceContext),
    ChainedSequenceContext(ChainedSequenceContext),
}

/// Mathematical form of `GroundPos`.
pub enum SpecGroundPos {
    SinglePos(SpecSinglePos),
    PairPos(SpecPairPos),
    CursivePos(SpecCursivePos),
    MarkBasePos(SpecMarkAttachPos),
    MarkLigPos(SpecMarkLigPos),
    MarkMarkPos(SpecMarkAttachPos),
    SequenceContext(SpecSequenceContext),
    ChainedSequenceContext(SpecChainedSequenceContext),
}

impl View for GroundPos {
    type V = SpecGroundPos;

    open spec fn view(&self) -> SpecGroundPos {
        match self {
            GroundPos::SinglePos(x) => SpecGroundPos::SinglePos(x@),
            GroundPos::PairPos(x) => SpecGroundPos::PairPos(x@),
            GroundPos::CursivePos(x) => SpecGroundPos::CursivePos(x@),
            GroundPos::MarkBasePos(x) => SpecGroundPos::MarkBasePos(x@),
            GroundPos::MarkLigPos(x) => SpecGroundPos::MarkLigPos(x@),
            GroundPos::MarkMarkPos(x) => SpecGroundPos::MarkMarkPos(x@),
            GroundPos::SequenceContext(x) => SpecGroundPos::SequenceContext(x@),
            GroundPos::ChainedSequenceContext(x) => SpecGroundPos::ChainedSequenceContext(x@),
        }
    }
}

/// The subtable at `p` of positioning lookup type `lookup_type`: types 1
/// to 8; the extension type 9 cannot stand here, and other types fail.
#[verifier::opaque]
pub open spec fn spec_ground_pos(t: Seq<u8>, p: int, lookup_type: u16) -> Option<(SpecGroundPos, int)> {
    if lookup_type == 1 {
        tagged(spec_single_pos(t, p), |x| SpecGroundPos::SinglePos(x))
    } else if lookup_type == 2 {
        tagged(spec_pair_pos(t, p), |x| SpecGroundPos::PairPos(x))
    } else if lookup_type == 3 {
        tagged(spec_cursive_pos(t, p), |x| SpecGroundPos::CursivePos(x))
    } else if lookup_type == 4 {
        tagged(spec_mark_attach_pos(t, p), |x| SpecGroundPos::MarkBasePos(x))
    } else if lookup_type == 5 {
        tagged(spec_mark_lig_pos(t, p), |x| SpecGroundPos::MarkLigPos(x))
    } else if lookup_type == 6 {
        tagged(spec_mark_attach_pos(t, p), |x| SpecGroundPos::MarkMarkPos(x))
    } else if lookup_type == 7 {
        tagged(spec_sequence_context(t, p), |x| SpecGroundPos::SequenceContext(x))
    } else if lookup_type == 8 {
        tagged(spec_chained_sequence_context(t, p), |x| SpecGroundPos::ChainedSequenceContext(x))
    } else {
        None
    }
}

/// Parses the subtable at `p` of positioning lookup type `lookup_type`.
pub fn ground_pos(t: &[u8], p: usize, lookup_type: u16) -> (r: Option<(GroundPos, usize)>)
    ensures
        match r {
            Some((v, e)) => spec_ground_pos(t@, p as int, lookup_type) == Some((v@, e as int)),
            None => spec_ground_pos(t@, p as int, lookup_type) is None,
        },
{
    reveal(spec_ground_pos);
    if lookup_type == 1 {
        match single_pos(t, p) {
            Some((x, e)) => Some((GroundPos::SinglePos(x), e)),
            None => None,
        }
    } else if lookup_type == 2 {
        match pair_pos(t, p) {
            Some((x, e)) => Some((GroundPos::PairPos(x), e)),
            None => None,
        }
    } else if lookup_type == 3 {
        match cursive_pos(t, p) {
            Some((x, e)) => Some((GroundPos::CursivePos(x), e)),
            None => None,
        }
    } else if lookup_type == 4 {
        match mark_attach_pos(t, p) {
            Some((x, e)) => Some((GroundPos::MarkBasePos(x), e)),
            None => None,
        }
    } else if lookup_type == 5 {
        match mark_lig_pos(t, p) {
            Some((x, e)) => Some((GroundPos::MarkLigPos(x), e)),
            None => None,
        }
    } else if lookup_type == 6 {
        match mark_attach_pos(t, p) {
            Some((x, e)) => Some((GroundPos::MarkMarkPos(x), e)),
            None => None,
        }
    } else if lookup_type == 7 {
        match sequence_context(t, p) {
            Some((x, e)) => Some((GroundPos::SequenceContext(x), e)),
            None => None,
        }
    } else if lookup_type == 8 {
        match chained_sequence_context(t, p) {
            Some((x, e)) => Some((GroundPos::ChainedSequenceContext(x), e)),
            None => None,
        }
    } else {
        None
    }
}

/// An extension subtable: the real lookup type and a 32-bit offset to the
/// subtable of that type.
#[derive(Clone, Debug, PartialEq, Eq)]
pub struct PosExtension {
    pub format: u16,
    pub extension_lookup_type: u16,
    pub extension_offset: Link32<GroundPos>,
}

/// Mathematical form of `PosExtension`.
pub struct SpecPosExtension {
    pub format: u16,
    pub extension_lookup_type: u16,
    pub extension_offset: Link32<SpecGroundPos>,
}

impl View for PosExtension {
    type V = SpecPosExtension;

    open spec fn view(&self) -> SpecPosExtension {
        SpecPosExtension {
            format: self.format,
            extension_lookup_type: self.extension_lookup_type,
            extension_offset: self.extension_offset@,
        }
    }
}

/// The extension subtable at `p`: format 1, a lookup type from 1 to 8, and
/// a 32-bit offset relative to `p` to a subtable of that type.
pub open spec fn spec_pos_extension(t: Seq<u8>, p: int) -> Option<(SpecPosExtension, int)> {
    if !avail(t, p, 4) || u16_at(t, p) != 1 {
        None
    } else {
        let lt = u16_at(t, p + 2);
        if !(1 <= lt <= 8) {
            None
        } else {
            match spec_offset32(t, p, p + 4) {
                None => None,
                Some(((off, None), e)) => Some((SpecPosExtension {
                    format: 1,
                    extension_lookup_type: lt,
                    extension_offset: Link32 { offset: off, link: None },
                }, e)),
                Some(((off, Some(x)), e)) => match spec_ground_pos(t, x, lt) {
                    None => None,
                    Some((g, _)) => Some((SpecPosExtension {
                        format: 1,
                        extension_lookup_type: lt,
                        extension_offset: Link32 { offset: off, link: Some(g) },
                    }, e)),
                },
            }
        }
    }
}

/// Parses the extension subtable at `p`.
pub fn pos_extension(t: &[u8], p: usize) -> (r: Option<(PosExtension, usize)>)
    ensures
        match r {
            Some((v, e)) => spec_pos_extension(t@, p as int) == Some((v@, e as int)),
            None => spec_pos_extension(t@, p as int) is None,
        },
{
    if !has_bytes(t, p, 4) || get_u16be(t, p) != 1 {
        return None;
    }
    let lt = get_u16be(t, p + 2);
    if !(1 <= lt && lt <= 8) {
        return None;
    }
    let (off, target, e) = match offset32(t, p, p + 4) {
        Some(x) => x,
        None => return None,
    };
    let link = match target {
        None => None,
        Some(x) => match ground_pos(t, x, lt) {
            Some((g, _)) => Some(g),
            None => return None,
        },
    };
    Some(
        (
            PosExtension {
                format: 1,
                extension_lookup_type: lt,
                extension_offset: Link32 { offset: off, link },
            },
            e,
        ),
    )
}

/// A subtable of a positioning lookup: an extension (type 9) or a subtable
/// of the lookup's own type.
#[derive(Clone, Debug, PartialEq, Eq)]
pub enum PosLookupSubtable {
    PosExtension(PosExtension),
    GroundPos(GroundPos),
}

/// Mathematical form of `PosLookupSubtable`.
pub enum SpecPosLookupSubtable {
    PosExtension(SpecPosExtension),
    GroundPos(SpecGroundPos),
}

impl View for PosLookupSubtable {
    type V = SpecPosLookupSubtable;

    open spec fn view(&self) -> SpecPosLookupSubtable {
        match self {
            PosLookupSubtable::PosExtension(x) => SpecPosLookupSubtable::PosExtension(x@),
            PosLookupSubtable::GroundPos(x) => SpecPosLookupSubtable::GroundPos(x@),
        }
    }
}

/// A subtable at `p` of a positioning lookup of type `lookup_type`.
#[verifier::opaque]
pub open spec fn spec_pos_lookup_subtable(t: Seq<u8>, p: int, lookup_type: u16) -> Option<
    (SpecPosLookupSubtable, int),
> {
    if lookup_type == 9 {
        tagged(spec_pos_extension(t, p), |x| SpecPosLookupSubtable::PosExtension(x))
    } else {
        tagged(spec_ground_pos(t, p, lookup_type), |x| SpecPosLookupSubtable::GroundPos(x))
    }
}

/// Parses a subtable at `p` of a positioning lookup of type `lookup_type`.
pub fn pos_lookup_subtable(t: &[u8], p: usize, lookup_type: u16) -> (r: Option<
    (PosLookupSubtable, usize),
>)
    ensures
        match r {
            Some((v, e)) => spec_pos_lookup_subtable(t@, p as int, lookup_type) == Some(
                (v@, e as int),
            ),
            None => spec_pos_lookup_subtable(t@, p as int, lookup_type) is None,
        },
{
    reveal(spec_pos_lookup_subtable);
    if lookup_type == 9 {
        match pos_extension(t, p) {
            Some((x, e)) => Some((PosLookupSubtable::PosExtension(x), e)),
            None => None,
        }
    } else {
        match ground_pos(t, p, lookup_type) {
            Some((x, e)) => Some((PosLookupSubtable::GroundPos(x), e)),
            None => None,
        }
    }
}

/// Entry `i` of the subtable offsets of the lookup at `x`, of type
/// `lookup_type`, with its subtable.
pub open spec fn spec_pos_subtable_link(t: Seq<u8>, x: int, lookup_type: u16, i: int) -> Option<
    Link16<SpecPosLookupSubtable>,
> {
    match spec_offset16(t, x, x + 6 + 2 * i) {
        None => None,
        Some(((off, None), _)) => Some(Link16 { offset: off, link: None }),
        Some(((off, Some(y)), _)) => match spec_pos_lookup_subtable(t, y, lookup_type) {
            Some((s, _)) => Some(Link16 { offset: off, link: Some(s) }),
            None => None,
        },
    }
}

/// The views of a sequence of subtable links.
pub open spec fn pos_subtables_view(v: Seq<Link16<PosLookupSubtable>>) -> Seq<
    Link16<SpecPosLookupSubtable>,
> {
    v.map_values(|l: Link16<PosLookupSubtable>| l@)
}

/// A positioning lookup: its type and flags, its subtables, and the mark
/// filtering set where the flags call for one.
#[derive(Clone, Debug, PartialEq, Eq)]
pub struct PosLookup {
    pub lookup_type: u16,
    pub lookup_flag: LookupFlag,
    pub sub_table_count: u16,
    pub subtables: Vec<Link16<PosLookupSubtable>>,
    pub mark_filtering_set: Option<u16>,
}

/// Mathematical form of `PosLookup`.
pub struct SpecPosLookup {
    pub lookup_type: u16,
    pub lookup_flag: LookupFlag,
    pub sub_table_count: u16,
    pub subtables: Seq<Link16<SpecPosLookupSubtable>>,
    pub mark_filtering_set: Option<u16>,
}

impl View for PosLookup {
    type V = SpecPosLookup;

    open spec fn view(&self) -> SpecPosLookup {
        SpecPosLookup {
            lookup_type: self.lookup_type,
            lookup_flag: self.lookup_flag,
            sub_table_count: self.sub_table_count,
            subtables: pos_subtables_view(self.subtables@),
            mark_filtering_set: self.mark_filtering_set,
        }
    }
}

/// The lookup at `x`: type, flags, a count and that many subtable offsets
/// relative to `x`, then a mark filtering set where bit 4 of the flags is
/// set.
pub open spec fn spec_pos_lookup(t: Seq<u8>, x: int) -> Option<SpecPosLookup> {
    if !avail(t, x, 6) {
        None
    } else {
        let lt = u16_at(t, x);
        let flag = spec_lookup_flag(u16_at(t, x + 2));
        let n = u16_at(t, x + 4);
        let m = x + 6 + 2 * n;
        if !avail(t, x + 6, 2 * n) || !(forall|i: int|
            0 <= i < n ==> #[trigger] spec_pos_subtable_link(t, x, lt, i) is Some) {
            None
        } else if flag.use_mark_filtering_set && !avail(t, m, 2) {
            None
        } else {
            Some(
                SpecPosLookup {
                    lookup_type: lt,
                    lookup_flag: flag,
                    sub_table_count: n,
                    subtables: Seq::new(n as nat, |i: int| spec_pos_subtable_link(t, x, lt, i).unwrap()),
                    mark_filtering_set: if flag.use_mark_filtering_set {
                        Some(u16_at(t, m))
                    } else {
                        None
                    },
                },
            )
        }
    }
}

/// Parses the lookup at `x`.
pub fn pos_lookup(t: &[u8], x: usize) -> (r: Option<PosLookup>)
    ensures
        match r {
            Some(v) => spec_pos_lookup(t@, x as int) == Some(v@),
            None => spec_pos_lookup(t@, x as int) is None,
        },
{
    if !has_bytes(t, x, 6) {
        return None;
    }
    let lt = get_u16be(t, x);
    let flag = lookup_flag(get_u16be(t, x + 2));
    let n = get_u16be(t, x + 4);
    if !has_bytes(t, x + 6, 2 * (n as usize)) {
        return None;
    }
    let mut v: Vec<Link16<PosLookupSubtable>> = Vec::new();
    let mut i: usize = 0;
    while i < n as usize
        invariant
            0 <= i <= n,
            avail(t@, x as int, 6) && lt == u16_at(t@, x as int) && n == u16_at(t@, x + 4),
            avail(t@, x + 6, 2 * n),
            t@.len() <= usize::MAX,
            forall|j: int| 0 <= j < i ==> #[trigger] spec_pos_subtable_link(t@, x as int, lt, j) is Some,
            pos_subtables_view(v@) =~= Seq::new(
                i as nat,
                |j: int| spec_pos_subtable_link(t@, x as int, lt, j).unwrap(),
            ),
        decreases n - i,
    {
        let (off, target, _) = match offset16_mandatory(t, x, x + 6 + 2 * i) {
            Some(o) => o,
            None => {
                assert(spec_pos_subtable_link(t@, x as int, lt, i as int) is None);
                return None;
            },
        };
        let link = match target {
            None => None,
            Some(y) => match pos_lookup_subtable(t, y, lt) {
                Some((s, _)) => Some(s),
                None => {
                    assert(spec_pos_subtable_link(t@, x as int, lt, i as int) is None);
                    return None;
                },
            },
        };
        let entry = Link16 { offset: off, link };
        assert(spec_pos_subtable_link(t@, x as int, lt, i as int) == Some(entry@));
        let ghost old_v = v@;
        v.push(entry);
        assert(pos_subtables_view(v@) =~= pos_subtables_view(old_v).push(entry@));
        i = i + 1;
        assert(pos_subtables_view(v@) =~= Seq::new(
            i as nat,
            |j: int| spec_pos_subtable_link(t@, x as int, lt, j).unwrap(),
        ));
    }
    let m = x + 6 + 2 * (n as usize);
    let mfs = if flag.use_mark_filtering_set {
        if !has_bytes(t, m, 2) {
            return None;
        }
        Some(get_u16be(t, m))
    } else {
        None
    };
    Some(
        PosLookup {
            lookup_type: lt,
            lookup_flag: flag,
            sub_table_count: n,
            subtables: v,
            mark_filtering_set: mfs,
        },
    )
}

/// Entry `i` of the lookup offsets of the lookup list at `x`.
pub open spec fn spec_pos_lookup_link(t: Seq<u8>, x: int, i: int) -> Option<Link16<SpecPosLookup>> {
    match spec_offset16(t, x, x + 2 + 2 * i) {
        None => None,
        Some(((off, None), _)) => Some(Link16 { offset: off, link: None }),
        Some(((off, Some(y)), _)) => match spec_pos_lookup(t, y) {
            Some(l) => Some(Link16 { offset: off, link: Some(l) }),
            None => None,
        },
    }
}

/// The views of a sequence of lookup links.
pub open spec fn pos_lookups_view(v: Seq<Link16<PosLookup>>) -> Seq<Link16<SpecPosLookup>> {
    v.map_values(|l: Link16<PosLookup>| l@)
}

/// The lookup list: the lookups of the table, by index.
#[derive(Clone, Debug, PartialEq, Eq)]
pub struct PosLookupList {
    pub lookup_count: u16,
    pub lookups: Vec<Link16<PosLookup>>,
}

/// Mathematical form of `PosLookupList`.
pub struct SpecPosLookupList {
    pub lookup_count: u16,
    pub lookups: Seq<Link16<SpecPosLookup>>,
}

impl View for PosLookupList {
    type V = SpecPosLookupList;

    open spec fn view(&self) -> SpecPosLookupList {
        SpecPosLookupList { lookup_count: self.lookup_count, lookups: pos_lookups_view(self.lookups@) }
    }
}

/// The lookup list at `x`: a count and that many lookup offsets relative
/// to `x`.
pub open spec fn spec_pos_lookup_list(t: Seq<u8>, x: int) -> Option<SpecPosLookupList> {
    if !avail(t, x, 2) {
        None
    } else {
        let n = u16_at(t, x);
        if avail(t, x + 2, 2 * n) && forall|i: int|
            0 <= i < n ==> #[trigger] spec_pos_lookup_link(t, x, i) is Some {
            Some(
                SpecPosLookupList {
                    lookup_count: n,
                    lookups: Seq::new(n as nat, |i: int| spec_pos_lookup_link(t, x, i).unwrap()),
                },
            )
        } else {
            None
        }
    }
}

/// Parses the lookup list at `x`.
pub fn pos_lookup_list(t: &[u8], x: usize) -> (r: Option<PosLookupList>)
    ensures
        match r {
            Some(v) => spec_pos_lookup_list(t@, x as int) == Some(v@),
            None => spec_pos_lookup_list(t@, x as int) is None,
        },
{
    if !has_bytes(t, x, 2) {
        return None;
    }
    let n = get_u16be(t, x);
    if !has_bytes(t, x + 2, 2 * (n as usize)) {
        return None;
    }
    let mut v: Vec<Link16<PosLookup>> = Vec::new();
    let mut i: usize = 0;
    while i < n as usize
        invariant
            0 <= i <= n,
            avail(t@, x as int, 2) && n == u16_at(t@, x as int),
            avail(t@, x + 2, 2 * n),
            t@.len() <= usize::MAX,
            forall|j: int| 0 <= j < i ==> #[trigger] spec_pos_lookup_link(t@, x as int, j) is Some,
            pos_lookups_view(v@) =~= Seq::new(i as nat, |j: int| spec_pos_lookup_link(t@, x as int, j).unwrap()),
        decreases n - i,
    {
        let (off, target, _) = match offset16_mandatory(t, x, x + 2 + 2 * i) {
            Some(o) => o,
            None => {
                assert(spec_pos_lookup_link(t@, x as int, i as int) is None);
                return None;
            },
        };
        let link = match target {
            None => None,
            Some(y) => match pos_lookup(t, y) {
                Some(l) => Some(l),
                None => {
                    assert(spec_pos_lookup_link(t@, x as int, i as int) is None);
                    return None;
                },
            },
        };
        let entry = Link16 { offset: off, link };
        assert(spec_pos_lookup_link(t@, x as int, i as int) == Some(entry@));
        let ghost old_v = v@;
        v.push(entry);
        assert(pos_lookups_view(v@) =~= pos_lookups_view(old_v).push(entry@));
        i = i + 1;
        assert(pos_lookups_view(v@) =~= Seq::new(i as nat, |j: int| spec_pos_lookup_link(t@, x as int, j).unwrap()));
    }
    Some(PosLookupList { lookup_count: n, lookups: v })
}

/// The lookup-list offset at `q`, relative to `base`, with its lookup
/// list.
pub open spec fn spec_pos_lookup_list_link(t: Seq<u8>, base: int, q: int) -> Option<
    Link16<SpecPosLookupList>,
> {
    match spec_offset16(t, base, q) {
        None => None,
        Some(((off, None), _)) => Some(Link16 { offset: off, link: None }),
        Some(((off, Some(x)), _)) => match spec_pos_lookup_list(t, x) {
            Some(l) => Some(Link16 { offset: off, link: Some(l) }),
            None => None,
        },
    }
}

fn pos_lookup_list_link(t: &[u8], base: usize, q: usize) -> (r: Option<Link16<PosLookupList>>)
    ensures
        match r {
            Some(l) => spec_pos_lookup_list_link(t@, base as int, q as int) == Some(l@),
            None => spec_pos_lookup_list_link(t@, base as int, q as int) is None,
        },
{
    let (off, target, _) = match offset16_mandatory(t, base, q) {
        Some(o) => o,
        None => return None,
    };
    match target {
        None => Some(Link16 { offset: off, link: None }),
        Some(x) => match pos_lookup_list(t, x) {
            Some(l) => Some(Link16 { offset: off, link: Some(l) }),
            None => None,
        },
    }
}

/// The `GPOS` table.
#[derive(Clone, Debug, PartialEq, Eq)]
pub struct GposTable {
    pub major_version: u16,
    pub minor_version: u16,
    pub script_list: Link16<ScriptList>,
    pub feature_list: Link16<FeatureList>,
    pub lookup_list: Link16<PosLookupList>,
    pub feature_variations_offset: Option<Link32<FeatureVariations>>,
}

/// Mathematical form of `GposTable`.
pub struct SpecGposTable {
    pub major_version: u16,
    pub minor_version: u16,
    pub script_list: Link16<SpecScriptList>,
    pub feature_list: Link16<SpecFeatureList>,
    pub lookup_list: Link16<SpecPosLookupList>,
    pub feature_variations_offset: Option<Link32<SpecFeatureVariations>>,
}

impl View for GposTable {
    type V = SpecGposTable;

    open spec fn view(&self) -> SpecGposTable {
        SpecGposTable {
            major_version: self.major_version,
            minor_version: self.minor_version,
            script_list: self.script_list@,
            feature_list: self.feature_list@,
            lookup_list: self.lookup_list@,
            feature_variations_offset: match self.feature_variations_offset {
                Some(l) => Some(l@),
                None => None,
            },
        }
    }
}

/// The `GPOS` table held in `t`: major version 1, any minor version, the
/// offsets of the script, feature and lookup lists, and, from minor
/// version 1 on, the 32-bit offset of the feature variations.
#[verifier::opaque]
pub open spec fn spec_gpos_table(t: Seq<u8>) -> Option<(SpecGposTable, int)> {
    if !avail(t, 0, 4) || u16_at(t, 0) != 1 {
        None
    } else {
        let minor = u16_at(t, 2);
        match (
            spec_script_list_link(t, 0, 4),
            spec_feature_list_link(t, 0, 6),
            spec_pos_lookup_list_link(t, 0, 8),
        ) {
            (Some(sl), Some(fl), Some(ll)) => {
                let fv = if minor > 0 {
                    match spec_feature_variations_link(t, 0, 10) {
                        Some(l) => Some((Some(l), 14int)),
                        None => None,
                    }
                } else {
                    Some((None, 10int))
                };
                match fv {
                    None => None,
                    Some((fv, e)) => Some((SpecGposTable {
                        major_version: 1,
                        minor_version: minor,
                        script_list: sl,
                        feature_list: fl,
                        lookup_list: ll,
                        feature_variations_offset: fv,
                    }, e)),
                }
            },
            _ => None,
        }
    }
}

/// Parses the `GPOS` table held in `t`.
pub fn gpos_table(t: &[u8]) -> (r: Option<(GposTable, usize)>)
    ensures
        match r {
            Some((g, e)) => spec_gpos_table(t@) == Some((g@, e as int)),
            None => spec_gpos_table(t@) is None,
        },
{
    reveal(spec_gpos_table);
    if !has_bytes(t, 0, 4) || get_u16be(t, 0) != 1 {
        return None;
    }
    let minor = get_u16be(t, 2);
    let sl = match script_list_link(t, 0, 4) {
        Some(l) => l,
        None => return None,
    };
    let fl = match feature_list_link(t, 0, 6) {
        Some(l) => l,
        None => return None,
    };
    let ll = match pos_lookup_list_link(t, 0, 8) {
        Some(l) => l,
        None => return None,
    };
    let (fv, e) = if minor > 0 {
        match feature_variations_link(t, 0, 10) {
            Some(l) => (Some(l), 14),
            None => return None,
        }
    } else {
        (None, 10)
    };
    Some(
        (
            GposTable {
                major_version: 1,
                minor_version: minor,
                script_list: sl,
                feature_list: fl,
                lookup_list: ll,
                feature_variations_offset: fv,
            },
            e,
        ),
    )
}


/// A GPOS lookup holds exactly as many subtable offsets as it counts, and
/// carries a mark filtering set exactly when its flag asks for one; a
/// lookup list holds exactly as many lookups as it counts.
pub proof fn lemma_pos_lookup_shape(t: Seq<u8>, x: int)
    ensures
        spec_pos_lookup(t, x) matches Some(l) ==> l.subtables.len() == l.sub_table_count && (
        l.mark_filtering_set is Some <==> l.lookup_flag.use_mark_filtering_set),
        spec_pos_lookup_list(t, x) matches Some(l) ==> l.lookups.len() == l.lookup_count,
{
}


/// An extension subtable wraps a subtable of another, defined lookup type:
/// never a further extension (type 9).
pub proof fn lemma_pos_extension_not_nested(t: Seq<u8>, p: int)
    ensures
        spec_pos_extension(t, p) matches Some((x, _)) ==> 1 <= x.extension_lookup_type <= 8,
{
}


/// A lookup reads its own bytes: the type, flag and subtable-count words
/// at `x`, `x + 2` and `x + 4`, subtable offset words from `x + 6`, and,
/// when the flag asks for one, the mark filtering set word right after
/// them; a lookup list holds a count and lookup offset words from `x + 2`.
pub proof fn lemma_pos_lookup_fields(t: Seq<u8>, x: int)
    ensures
        spec_pos_lookup(t, x) matches Some(l) ==> {
            &&& l.lookup_type == crate::bytes::word_at(t, x)
            &&& l.lookup_flag == spec_lookup_flag(crate::bytes::word_at(t, x + 2) as u16)
            &&& l.sub_table_count == crate::bytes::word_at(t, x + 4)
            &&& (forall|i: int| 0 <= i < l.sub_table_count ==> (#[trigger] l.subtables[i]).offset == crate::bytes::word_at(t, x + 6 + 2 * i))
            &&& (l.mark_filtering_set matches Some(m) ==> m == crate::bytes::word_at(t, x + 6 + 2 * l.sub_table_count))
        },
        spec_pos_lookup_list(t, x) matches Some(l) ==> l.lookup_count == crate::bytes::word_at(t, x) && forall|i: int|
            0 <= i < l.lookup_count ==> (#[trigger] l.lookups[i]).offset == crate::bytes::word_at(t, x + 2 + 2 * i),
{
    if let Some(l) = spec_pos_lookup(t, x) {
        crate::bytes::lemma_readers_spell(t, x);
        crate::bytes::lemma_readers_spell(t, x + 2);
        crate::bytes::lemma_readers_spell(t, x + 4);
        assert forall|i: int| 0 <= i < l.sub_table_count implies (#[trigger] l.subtables[i]).offset == crate::bytes::word_at(t, x + 6 + 2 * i) by {
            assert(spec_pos_subtable_link(t, x, l.lookup_type, i) is Some);
            crate::bytes::lemma_readers_spell(t, x + 6 + 2 * i);
        }
        if l.mark_filtering_set is Some {
            crate::bytes::lemma_readers_spell(t, x + 6 + 2 * l.sub_table_count);
        }
    }
    if let Some(l) = spec_pos_lookup_list(t, x) {
        crate::bytes::lemma_readers_spell(t, x);
        assert forall|i: int| 0 <= i < l.lookup_count implies (#[trigger] l.lookups[i]).offset == crate::bytes::word_at(t, x + 2 + 2 * i) by {
            crate::bytes::lemma_readers_spell(t, x + 2 + 2 * i);
        }
    }
}


/// The table header holds its minor version word at 2 and the script,
/// feature and lookup list offsets as the words at 4, 6 and 8; from minor
/// version 1 the feature variations offset is the double word at 10. An
/// extension subtable holds format 1, the wrapped lookup type word at
/// `p + 2` and the 32-bit offset at `p + 4`.
pub proof fn lemma_gpos_header_fields(t: Seq<u8>, p: int)
    ensures
        spec_gpos_table(t) matches Some((g, e)) ==> {
            &&& g.minor_version == crate::bytes::word_at(t, 2)
            &&& g.script_list.offset == crate::bytes::word_at(t, 4)
            &&& g.feature_list.offset == crate::bytes::word_at(t, 6)
            &&& g.lookup_list.offset == crate::bytes::word_at(t, 8)
            &&& (g.feature_variations_offset is Some <==> g.minor_version > 0)
            &&& (g.feature_variations_offset matches Some(l) ==> l.offset == crate::bytes::dword_at(t, 10) && e == 14)
            &&& (g.minor_version == 0 ==> e == 10)
        },
        spec_pos_extension(t, p) matches Some((x, e)) ==> crate::bytes::word_at(t, p) == 1 && x.extension_lookup_type == crate::bytes::word_at(t, p + 2)
            && x.extension_offset.offset == crate::bytes::dword_at(t, p + 4) && e == p + 8,
{
    reveal(spec_gpos_table);
    if let Some((g, _)) = spec_gpos_table(t) {
        crate::bytes::lemma_readers_spell(t, 2);
        crate::bytes::lemma_readers_spell(t, 4);
        crate::bytes::lemma_readers_spell(t, 6);
        crate::bytes::lemma_readers_spell(t, 8);
        if g.minor_version > 0 {
            crate::bytes::lemma_dword_spells(t, 10);
        }
    }
    if let Some(_) = spec_pos_extension(t, p) {
        crate::bytes::lemma_readers_spell(t, p);
        crate::bytes::lemma_readers_spell(t, p + 2);
        crate::bytes::lemma_dword_spells(t, p + 4);
    }
}

} // verus!
