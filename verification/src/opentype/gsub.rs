//! The glyph substitution table (`GSUB`): its lookup subtables by lookup
//! type, lookups, the lookup list and the table header. Offsets are
//! relative to the start of the table that holds them; positions are
//! relative to the start of the `GSUB` table.
use vstd::prelude::*;
use crate::bytes::{avail, get_u16be, has_bytes, u16_at};
use crate::opentype::cmap::{read_u16s, u16s_at};
use crate::opentype::common::{
    feature_list, feature_variations, lookup_flag, script_list, spec_feature_list,
    spec_feature_variations, spec_lookup_flag, spec_script_list, FeatureList, FeatureVariations,
    LookupFlag, ScriptList, SpecFeatureList, SpecFeatureVariations, SpecScriptList,
};
use crate::opentype::context::{
    chained_sequence_context, coverage_links, coverages_view, sequence_context,
    spec_chained_sequence_context, spec_coverage_links, spec_sequence_context,
    ChainedSequenceContext, SequenceContext, SpecChainedSequenceContext, SpecSequenceContext,
};
use crate::opentype::layout::{
    alternate_subst, coverage_link, ligature_subst, multiple_subst, single_subst,
    spec_coverage_link, spec_ligature_subst, spec_sequence_subst, spec_single_subst, CoverageTable,
    LigatureSubst, SequenceSubst, SingleSubst, SpecCoverageTable, SpecLigatureSubst,
    SpecSequenceSubst, SpecSingleSubst,
};
use crate::opentype::links::{Link16, Link32, offset16_mandatory, offset32, spec_offset16, spec_offset32};

verus! {

/// A reverse chaining contextual single substitution subtable (format 1).
#[derive(Clone, Debug, PartialEq, Eq)]
pub struct ReverseChainSingleSubst {
    pub subst_format: u16,
    pub coverage: Link16<CoverageTable>,
    pub backtrack_glyph_count: u16,
    pub backtrack_coverage_tables: Vec<Link16<CoverageTable>>,
    pub lookahead_glyph_count: u16,
    pub lookahead_coverage_tables: Vec<Link16<CoverageTable>>,
    pub glyph_count: u16,
    pub substitute_glyph_ids: Vec<u16>,
}

/// Mathematical form of `ReverseChainSingleSubst`.
pub struct SpecReverseChainSingleSubst {
    pub subst_format: u16,
    pub coverage: Link16<SpecCoverageTable>,
    pub backtrack_glyph_count: u16,
    pub backtrack_coverage_tables: Seq<Link16<SpecCoverageTable>>,
    pub lookahead_glyph_count: u16,
    pub lookahead_coverage_tables: Seq<Link16<SpecCoverageTable>>,
    pub glyph_count: u16,
    pub substitute_glyph_ids: Seq<u16>,
}

impl View for ReverseChainSingleSubst {
    type V = SpecReverseChainSingleSubst;

    open spec fn view(&self) -> SpecReverseChainSingleSubst {
        SpecReverseChainSingleSubst {
            subst_format: self.subst_format,
            coverage: self.coverage@,
            backtrack_glyph_count: self.backtrack_glyph_count,
            backtrack_coverage_tables: coverages_view(self.backtrack_coverage_tables@),
            lookahead_glyph_count: self.lookahead_glyph_count,
            lookahead_coverage_tables: coverages_view(self.lookahead_coverage_tables@),
            glyph_count: self.glyph_count,
            substitute_glyph_ids: self.substitute_glyph_ids@,
        }
    }
}

/// The reverse chaining subtable at `p`: format 1, a coverage offset,
/// counted backtrack and lookahead coverage offsets, then the substitutes;
/// any other format fails.
pub open spec fn spec_reverse_chain(t: Seq<u8>, p: int) -> Option<(SpecReverseChainSingleSubst, int)> {
    if !avail(t, p, 2) || u16_at(t, p) != 1 {
        None
    } else {
        match spec_coverage_link(t, p, p + 2) {
            None => None,
            Some(cov) => if !avail(t, p + 4, 2) {
                None
            } else {
                let b = u16_at(t, p + 4);
                let q = p + 6 + 2 * b;
                match spec_coverage_links(t, p, p + 6, b as int) {
                    None => None,
                    Some(back) => if !avail(t, q, 2) {
                        None
                    } else {
                        let la = u16_at(t, q);
                        let r = q + 2 + 2 * la;
                        match spec_coverage_links(t, p, q + 2, la as int) {
                            None => None,
                            Some(ahead) => if avail(t, r, 2) && avail(t, r + 2, 2 * u16_at(t, r)) {
                                let g = u16_at(t, r);
                                Some((SpecReverseChainSingleSubst {
                                    subst_format: 1,
                                    coverage: cov,
                                    backtrack_glyph_count: b,
                                    backtrack_coverage_tables: back,
                                    lookahead_glyph_count: la,
                                    lookahead_coverage_tables: ahead,
                                    glyph_count: g,
                                    substitute_glyph_ids: u16s_at(t, r + 2, g as int),
                                }, r + 2 + 2 * g))
                            } else {
                                None
                            },
                        }
                    },
                }
            },
        }
    }
}

/// Parses the reverse chaining subtable at `p`.
pub fn reverse_chain_single_subst(t: &[u8], p: usize) -> (r: Option<
    (ReverseChainSingleSubst, usize),
>)
    ensures
        match r {
            Some((v, e)) => spec_reverse_chain(t@, p as int) == Some((v@, e as int)),
            None => spec_reverse_chain(t@, p as int) is None,
        },
{
    if !has_bytes(t, p, 2) || get_u16be(t, p) != 1 {
        return None;
    }
    let cov = match coverage_link(t, p, p + 2) {
        Some(c) => c,
        None => return None,
    };
    if !has_bytes(t, p + 4, 2) {
        return None;
    }
    let b = get_u16be(t, p + 4);
    let back = match coverage_links(t, p, p + 6, b) {
        Some(v) => v,
        None => return None,
    };
    let q = p + 6 + 2 * (b as usize);
    if !has_bytes(t, q, 2) {
        return None;
    }
    let la = get_u16be(t, q);
    let ahead = match coverage_links(t, p, q + 2, la) {
        Some(v) => v,
        None => return None,
    };
    let r = q + 2 + 2 * (la as usize);
    if !has_bytes(t, r, 2) {
        return None;
    }
    let g = get_u16be(t, r);
    if !has_bytes(t, r + 2, 2 * (g as usize)) {
        return None;
    }
    let v = ReverseChainSingleSubst {
        subst_format: 1,
        coverage: cov,
        backtrack_glyph_count: b,
        backtrack_coverage_tables: back,
        lookahead_glyph_count: la,
        lookahead_coverage_tables: ahead,
        glyph_count: g,
        substitute_glyph_ids: read_u16s(t, r + 2, g as usize),
    };
    Some((v, r + 2 + 2 * (g as usize)))
}

/// A substitution subtable of a lookup type other than the extension.
#[derive(Clone, Debug, PartialEq, Eq)]
pub enum GroundSubst {
    SingleSubst(SingleSubst),
    MultipleSubst(SequenceSubst),
    AlternateSubst(SequenceSubst),
    LigatureSubst(LigatureSubst),
    SequenceContext(SequenceContext),
    ChainedSequenceContext(ChainedSequenceContext),
    ReverseChainSingleSubst(ReverseChainSingleSubst),
}

/// Mathematical form of `GroundSubst`.
pub enum SpecGroundSubst {
    SingleSubst(SpecSingleSubst),
    MultipleSubst(SpecSequenceSubst),
    AlternateSubst(SpecSequenceSubst),
    LigatureSubst(SpecLigatureSubst),
    SequenceContext(SpecSequenceContext),
    ChainedSequenceContext(SpecChainedSequenceContext),
    ReverseChainSingleSubst(SpecReverseChainSingleSubst),
}

impl View for GroundSubst {
    type V = SpecGroundSubst;

    open spec fn view(&self) -> SpecGroundSubst {
        match self {
            GroundSubst::SingleSubst(x) => SpecGroundSubst::SingleSubst(x@),
            GroundSubst::MultipleSubst(x) => SpecGroundSubst::MultipleSubst(x@),
            GroundSubst::AlternateSubst(x) => SpecGroundSubst::AlternateSubst(x@),
            GroundSubst::LigatureSubst(x) => SpecGroundSubst::LigatureSubst(x@),
            GroundSubst::SequenceContext(x) => SpecGroundSubst::SequenceContext(x@),
            GroundSubst::ChainedSequenceContext(x) => SpecGroundSubst::ChainedSequenceContext(x@),
            GroundSubst::ReverseChainSingleSubst(x) => SpecGroundSubst::ReverseChainSingleSubst(x@),
        }
    }
}

/// Tags a parse result with a variant.
pub open spec fn tagged<A, B>(r: Option<(A, int)>, f: spec_fn(A) -> B) -> Option<(B, int)> {
    match r {
        Some((v, e)) => Some((f(v), e)),
        None => None,
    }
}

/// The subtable at `p` of lookup type `lookup_type`: types 1 to 6 and 8;
/// the extension type 7 cannot stand here, and other types fail.
#[verifier::opaque]
pub open spec fn spec_ground_subst(t: Seq<u8>, p: int, lookup_type: u16) -> Option<
    (SpecGroundSubst, int),
> {
    if lookup_type == 1 {
        tagged(spec_single_subst(t, p), |x| SpecGroundSubst::SingleSubst(x))
    } else if lookup_type == 2 {
        tagged(spec_sequence_subst(t, p), |x| SpecGroundSubst::MultipleSubst(x))
    } else if lookup_type == 3 {
        tagged(spec_sequence_subst(t, p), |x| SpecGroundSubst::AlternateSubst(x))
    } else if lookup_type == 4 {
        tagged(spec_ligature_subst(t, p), |x| SpecGroundSubst::LigatureSubst(x))
    } else if lookup_type == 5 {
        tagged(spec_sequence_context(t, p), |x| SpecGroundSubst::SequenceContext(x))
    } else if lookup_type == 6 {
        tagged(spec_chained_sequence_context(t, p), |x| SpecGroundSubst::ChainedSequenceContext(x))
    } else if lookup_type == 8 {
        tagged(spec_reverse_chain(t, p), |x| SpecGroundSubst::ReverseChainSingleSubst(x))
    } else {
        None
    }
}

/// Parses the subtable at `p` of lookup type `lookup_type`.
pub fn ground_subst(t: &[u8], p: usize, lookup_type: u16) -> (r: Option<(GroundSubst, usize)>)
    ensures
        match r {
            Some((v, e)) => spec_ground_subst(t@, p as int, lookup_type) == Some((v@, e as int)),
            None => spec_ground_subst(t@, p as int, lookup_type) is None,
        },
{
    reveal(spec_ground_subst);
    if lookup_type == 1 {
        match single_subst(t, p) {
            Some((x, e)) => Some((GroundSubst::SingleSubst(x), e)),
            None => None,
        }
    } else if lookup_type == 2 {
        match multiple_subst(t, p) {
            Some((x, e)) => Some((GroundSubst::MultipleSubst(x), e)),
            None => None,
        }
    } else if lookup_type == 3 {
        match alternate_subst(t, p) {
            Some((x, e)) => Some((GroundSubst::AlternateSubst(x), e)),
            None => None,
        }
    } else if lookup_type == 4 {
        match ligature_subst(t, p) {
            Some((x, e)) => Some((GroundSubst::LigatureSubst(x), e)),
            None => None,
        }
    } else if lookup_type == 5 {
        match sequence_context(t, p) {
            Some((x, e)) => Some((GroundSubst::SequenceContext(x), e)),
            None => None,
        }
    } else if lookup_type == 6 {
        match chained_sequence_context(t, p) {
            Some((x, e)) => Some((GroundSubst::ChainedSequenceContext(x), e)),
            None => None,
        }
    } else if lookup_type == 8 {
        match reverse_chain_single_subst(t, p) {
            Some((x, e)) => Some((GroundSubst::ReverseChainSingleSubst(x), e)),
            None => None,
        }
    } else {
        None
    }
}

/// An extension subtable: the real lookup type and a 32-bit offset to the
/// subtable of that type.
#[derive(Clone, Debug, PartialEq, Eq)]
pub struct SubstExtension {
    pub format: u16,
    pub extension_lookup_type: u16,
    pub extension_offset: Link32<GroundSubst>,
}

/// Mathematical form of `SubstExtension`.
pub struct SpecSubstExtension {
    pub format: u16,
    pub extension_lookup_type: u16,
    pub extension_offset: Link32<SpecGroundSubst>,
}

impl View for SubstExtension {
    type V = SpecSubstExtension;

    open spec fn view(&self) -> SpecSubstExtension {
        SpecSubstExtension {
            format: self.format,
            extension_lookup_type: self.extension_lookup_type,
            extension_offset: self.extension_offset@,
        }
    }
}

/// The extension subtable at `p`: format 1, a lookup type from 1 to 6 or
/// 8, and a 32-bit offset relative to `p` to a subtable of that type.
pub open spec fn spec_subst_extension(t: Seq<u8>, p: int) -> Option<(SpecSubstExtension, int)> {
    if !avail(t, p, 4) || u16_at(t, p) != 1 {
        None
    } else {
        let lt = u16_at(t, p + 2);
        if !(1 <= lt <= 6 || lt == 8) {
            None
        } else {
            match spec_offset32(t, p, p + 4) {
                None => None,
                Some(((off, None), e)) => Some((SpecSubstExtension {
                    format: 1,
                    extension_lookup_type: lt,
                    extension_offset: Link32 { offset: off, link: None },
                }, e)),
                Some(((off, Some(x)), e)) => match spec_ground_subst(t, x, lt) {
                    None => None,
                    Some((g, _)) => Some((SpecSubstExtension {
                        format: 1,
                        extension_lookup_type: lt,
                        extension_offset: Link32 { offset: off, link: Some(g) },
                    }, e)),
                },
            }
        }
    }
}

/// Parses the extension subtable at `p`.
pub fn subst_extension(t: &[u8], p: usize) -> (r: Option<(SubstExtension, usize)>)
    ensures
        match r {
            Some((v, e)) => spec_subst_extension(t@, p as int) == Some((v@, e as int)),
            None => spec_subst_extension(t@, p as int) is None,
        },
{
    if !has_bytes(t, p, 4) || get_u16be(t, p) != 1 {
        return None;
    }
    let lt = get_u16be(t, p + 2);
    if !(1 <= lt && lt <= 6 || lt == 8) {
        return None;
    }
    let (off, target, e) = match offset32(t, p, p + 4) {
        Some(x) => x,
        None => return None,
    };
    let link = match target {
        None => None,
        Some(x) => match ground_subst(t, x, lt) {
            Some((g, _)) => Some(g),
            None => return None,
        },
    };
    Some(
        (
            SubstExtension {
                format: 1,
                extension_lookup_type: lt,
                extension_offset: Link32 { offset: off, link },
            },
            e,
        ),
    )
}

/// A subtable of a substitution lookup: an extension (type 7) or a subtable
/// of the lookup's own type.
#[derive(Clone, Debug, PartialEq, Eq)]
pub enum SubstLookupSubtable {
    SubstExtension(SubstExtension),
    GroundSubst(GroundSubst),
}

/// Mathematical form of `SubstLookupSubtable`.
pub enum SpecSubstLookupSubtable {
    SubstExtension(SpecSubstExtension),
    GroundSubst(SpecGroundSubst),
}

impl View for SubstLookupSubtable {
    type V = SpecSubstLookupSubtable;

    open spec fn view(&self) -> SpecSubstLookupSubtable {
        match self {
            SubstLookupSubtable::SubstExtension(x) => SpecSubstLookupSubtable::SubstExtension(x@),
            SubstLookupSubtable::GroundSubst(x) => SpecSubstLookupSubtable::GroundSubst(x@),
        }
    }
}

/// A subtable at `p` of a lookup of type `lookup_type`.
#[verifier::opaque]
pub open spec fn spec_subst_lookup_subtable(t: Seq<u8>, p: int, lookup_type: u16) -> Option<
    (SpecSubstLookupSubtable, int),
> {
    if lookup_type == 7 {
        tagged(spec_subst_extension(t, p), |x| SpecSubstLookupSubtable::SubstExtension(x))
    } else {
        tagged(spec_ground_subst(t, p, lookup_type), |x| SpecSubstLookupSubtable::GroundSubst(x))
    }
}

/// Parses a subtable at `p` of a lookup of type `lookup_type`.
pub fn subst_lookup_subtable(t: &[u8], p: usize, lookup_type: u16) -> (r: Option<
    (SubstLookupSubtable, usize),
>)
    ensures
        match r {
            Some((v, e)) => spec_subst_lookup_subtable(t@, p as int, lookup_type) == Some(
                (v@, e as int),
            ),
            None => spec_subst_lookup_subtable(t@, p as int, lookup_type) is None,
        },
{
    reveal(spec_subst_lookup_subtable);
    if lookup_type == 7 {
        match subst_extension(t, p) {
            Some((x, e)) => Some((SubstLookupSubtable::SubstExtension(x), e)),
            None => None,
        }
    } else {
        match ground_subst(t, p, lookup_type) {
            Some((x, e)) => Some((SubstLookupSubtable::GroundSubst(x), e)),
            None => None,
        }
    }
}

/// Entry `i` of the subtable offsets of the lookup at `x`, of type
/// `lookup_type`, with its subtable.
pub open spec fn spec_subtable_link(t: Seq<u8>, x: int, lookup_type: u16, i: int) -> Option<
    Link16<SpecSubstLookupSubtable>,
> {
    match spec_offset16(t, x, x + 6 + 2 * i) {
        None => None,
        Some(((off, None), _)) => Some(Link16 { offset: off, link: None }),
        Some(((off, Some(y)), _)) => match spec_subst_lookup_subtable(t, y, lookup_type) {
            Some((s, _)) => Some(Link16 { offset: off, link: Some(s) }),
            None => None,
        },
    }
}

/// The views of a sequence of subtable links.
pub open spec fn subtables_view(v: Seq<Link16<SubstLookupSubtable>>) -> Seq<
    Link16<SpecSubstLookupSubtable>,
> {
    v.map_values(|l: Link16<SubstLookupSubtable>| l@)
}

/// A substitution lookup: its type and flags, its subtables, and the mark
/// filtering set where the flags call for one.
#[derive(Clone, Debug, PartialEq, Eq)]
pub struct SubstLookup {
    pub lookup_type: u16,
    pub lookup_flag: LookupFlag,
    pub sub_table_count: u16,
    pub subtables: Vec<Link16<SubstLookupSubtable>>,
    pub mark_filtering_set: Option<u16>,
}

/// Mathematical form of `SubstLookup`.
pub struct SpecSubstLookup {
    pub lookup_type: u16,
    pub lookup_flag: LookupFlag,
    pub sub_table_count: u16,
    pub subtables: Seq<Link16<SpecSubstLookupSubtable>>,
    pub mark_filtering_set: Option<u16>,
}

impl View for SubstLookup {
    type V = SpecSubstLookup;

    open spec fn view(&self) -> SpecSubstLookup {
        SpecSubstLookup {
            lookup_type: self.lookup_type,
            lookup_flag: self.lookup_flag,
            sub_table_count: self.sub_table_count,
            subtables: subtables_view(self.subtables@),
            mark_filtering_set: self.mark_filtering_set,
        }
    }
}

/// The lookup at `x`: type, flags, a count and that many subtable offsets
/// relative to `x`, then a mark filtering set where bit 4 of the flags is
/// set.
pub open spec fn spec_subst_lookup(t: Seq<u8>, x: int) -> Option<SpecSubstLookup> {
    if !avail(t, x, 6) {
        None
    } else {
        let lt = u16_at(t, x);
        let flag = spec_lookup_flag(u16_at(t, x + 2));
        let n = u16_at(t, x + 4);
        let m = x + 6 + 2 * n;
        if !avail(t, x + 6, 2 * n) || !(forall|i: int|
            0 <= i < n ==> #[trigger] spec_subtable_link(t, x, lt, i) is Some) {
            None
        } else if flag.use_mark_filtering_set && !avail(t, m, 2) {
            None
        } else {
            Some(
                SpecSubstLookup {
                    lookup_type: lt,
                    lookup_flag: flag,
                    sub_table_count: n,
                    subtables: Seq::new(n as nat, |i: int| spec_subtable_link(t, x, lt, i).unwrap()),
                    mark_filtering_set: if flag.use_mark_filtering_set {
                        Some(u16_at(t, m))
                    } else {
                        None
                    },
                },
            )
        }
    }
}

/// Parses the lookup at `x`.
pub fn subst_lookup(t: &[u8], x: usize) -> (r: Option<SubstLookup>)
    ensures
        match r {
            Some(v) => spec_subst_lookup(t@, x as int) == Some(v@),
            None => spec_subst_lookup(t@, x as int) is None,
        },
{
    if !has_bytes(t, x, 6) {
        return None;
    }
    let lt = get_u16be(t, x);
    let flag = lookup_flag(get_u16be(t, x + 2));
    let n = get_u16be(t, x + 4);
    if !has_bytes(t, x + 6, 2 * (n as usize)) {
        return None;
    }
    let mut v: Vec<Link16<SubstLookupSubtable>> = Vec::new();
    let mut i: usize = 0;
    while i < n as usize
        invariant
            0 <= i <= n,
            avail(t@, x as int, 6) && lt == u16_at(t@, x as int) && n == u16_at(t@, x + 4),
            avail(t@, x + 6, 2 * n),
            t@.len() <= usize::MAX,
            forall|j: int| 0 <= j < i ==> #[trigger] spec_subtable_link(t@, x as int, lt, j) is Some,
            subtables_view(v@) =~= Seq::new(
                i as nat,
                |j: int| spec_subtable_link(t@, x as int, lt, j).unwrap(),
            ),
        decreases n - i,
    {
        let (off, target, _) = match offset16_mandatory(t, x, x + 6 + 2 * i) {
            Some(o) => o,
            None => {
                assert(spec_subtable_link(t@, x as int, lt, i as int) is None);
                return None;
            },
        };
        let link = match target {
            None => None,
            Some(y) => match subst_lookup_subtable(t, y, lt) {
                Some((s, _)) => Some(s),
                None => {
                    assert(spec_subtable_link(t@, x as int, lt, i as int) is None);
                    return None;
                },
            },
        };
        let entry = Link16 { offset: off, link };
        assert(spec_subtable_link(t@, x as int, lt, i as int) == Some(entry@));
        let ghost old_v = v@;
        v.push(entry);
        assert(subtables_view(v@) =~= subtables_view(old_v).push(entry@));
        i = i + 1;
        assert(subtables_view(v@) =~= Seq::new(
            i as nat,
            |j: int| spec_subtable_link(t@, x as int, lt, j).unwrap(),
        ));
    }
    let m = x + 6 + 2 * (n as usize);
    let mfs = if flag.use_mark_filtering_set {
        if !has_bytes(t, m, 2) {
            return None;
        }
        Some(get_u16be(t, m))
    } else {
        None
    };
    Some(
        SubstLookup {
            lookup_type: lt,
            lookup_flag: flag,
            sub_table_count: n,
            subtables: v,
            mark_filtering_set: mfs,
        },
    )
}

/// Entry `i` of the lookup offsets of the lookup list at `x`.
pub open spec fn spec_lookup_link(t: Seq<u8>, x: int, i: int) -> Option<Link16<SpecSubstLookup>> {
    match spec_offset16(t, x, x + 2 + 2 * i) {
        None => None,
        Some(((off, None), _)) => Some(Link16 { offset: off, link: None }),
        Some(((off, Some(y)), _)) => match spec_subst_lookup(t, y) {
            Some(l) => Some(Link16 { offset: off, link: Some(l) }),
            None => None,
        },
    }
}

/// The views of a sequence of lookup links.
pub open spec fn lookups_view(v: Seq<Link16<SubstLookup>>) -> Seq<Link16<SpecSubstLookup>> {
    v.map_values(|l: Link16<SubstLookup>| l@)
}

/// The lookup list: the lookups of the table, by index.
#[derive(Clone, Debug, PartialEq, Eq)]
pub struct SubstLookupList {
    pub lookup_count: u16,
    pub lookups: Vec<Link16<SubstLookup>>,
}

/// Mathematical form of `SubstLookupList`.
pub struct SpecSubstLookupList {
    pub lookup_count: u16,
    pub lookups: Seq<Link16<SpecSubstLookup>>,
}

impl View for SubstLookupList {
    type V = SpecSubstLookupList;

    open spec fn view(&self) -> SpecSubstLookupList {
        SpecSubstLookupList { lookup_count: self.lookup_count, lookups: lookups_view(self.lookups@) }
    }
}

/// The lookup list at `x`: a count and that many lookup offsets relative
/// to `x`.
pub open spec fn spec_lookup_list(t: Seq<u8>, x: int) -> Option<SpecSubstLookupList> {
    if !avail(t, x, 2) {
        None
    } else {
        let n = u16_at(t, x);
        if avail(t, x + 2, 2 * n) && forall|i: int|
            0 <= i < n ==> #[trigger] spec_lookup_link(t, x, i) is Some {
            Some(
                SpecSubstLookupList {
                    lookup_count: n,
                    lookups: Seq::new(n as nat, |i: int| spec_lookup_link(t, x, i).unwrap()),
                },
            )
        } else {
            None
        }
    }
}

/// Parses the lookup list at `x`.
pub fn lookup_list(t: &[u8], x: usize) -> (r: Option<SubstLookupList>)
    ensures
        match r {
            Some(v) => spec_lookup_list(t@, x as int) == Some(v@),
            None => spec_lookup_list(t@, x as int) is None,
        },
{
    if !has_bytes(t, x, 2) {
        return None;
    }
    let n = get_u16be(t, x);
    if !has_bytes(t, x + 2, 2 * (n as usize)) {
        return None;
    }
    let mut v: Vec<Link16<SubstLookup>> = Vec::new();
    let mut i: usize = 0;
    while i < n as usize
        invariant
            0 <= i <= n,
            avail(t@, x as int, 2) && n == u16_at(t@, x as int),
            avail(t@, x + 2, 2 * n),
            t@.len() <= usize::MAX,
            forall|j: int| 0 <= j < i ==> #[trigger] spec_lookup_link(t@, x as int, j) is Some,
            lookups_view(v@) =~= Seq::new(i as nat, |j: int| spec_lookup_link(t@, x as int, j).unwrap()),
        decreases n - i,
    {
        let (off, target, _) = match offset16_mandatory(t, x, x + 2 + 2 * i) {
            Some(o) => o,
            None => {
                assert(spec_lookup_link(t@, x as int, i as int) is None);
                return None;
            },
        };
        let link = match target {
            None => None,
            Some(y) => match subst_lookup(t, y) {
                Some(l) => Some(l),
                None => {
                    assert(spec_lookup_link(t@, x as int, i as int) is None);
                    return None;
                },
            },
        };
        let entry = Link16 { offset: off, link };
        assert(spec_lookup_link(t@, x as int, i as int) == Some(entry@));
        let ghost old_v = v@;
        v.push(entry);
        assert(lookups_view(v@) =~= lookups_view(old_v).push(entry@));
        i = i + 1;
        assert(lookups_view(v@) =~= Seq::new(i as nat, |j: int| spec_lookup_link(t@, x as int, j).unwrap()));
    }
    Some(SubstLookupList { lookup_count: n, lookups: v })
}

/// The script-list offset at `q`, relative to `base`, with its script list.
pub open spec fn spec_script_list_link(t: Seq<u8>, base: int, q: int) -> Option<
    Link16<SpecScriptList>,
> {
    match spec_offset16(t, base, q) {
        None => None,
        Some(((off, None), _)) => Some(Link16 { offset: off, link: None }),
        Some(((off, Some(x)), _)) => match spec_script_list(t, x) {
            Some(l) => Some(Link16 { offset: off, link: Some(l) }),
            None => None,
        },
    }
}

/// The feature-list offset at `q`, relative to `base`, with its feature
/// list.
pub open spec fn spec_feature_list_link(t: Seq<u8>, base: int, q: int) -> Option<
    Link16<SpecFeatureList>,
> {
    match spec_offset16(t, base, q) {
        None => None,
        Some(((off, None), _)) => Some(Link16 { offset: off, link: None }),
        Some(((off, Some(x)), _)) => match spec_feature_list(t, x) {
            Some(l) => Some(Link16 { offset: off, link: Some(l) }),
            None => None,
        },
    }
}

/// The lookup-list offset at `q`, relative to `base`, with its lookup
/// list.
pub open spec fn spec_lookup_list_link(t: Seq<u8>, base: int, q: int) -> Option<
    Link16<SpecSubstLookupList>,
> {
    match spec_offset16(t, base, q) {
        None => None,
        Some(((off, None), _)) => Some(Link16 { offset: off, link: None }),
        Some(((off, Some(x)), _)) => match spec_lookup_list(t, x) {
            Some(l) => Some(Link16 { offset: off, link: Some(l) }),
            None => None,
        },
    }
}

/// The 32-bit feature-variations offset at `q`, relative to `base`, with
/// its table.
pub open spec fn spec_feature_variations_link(t: Seq<u8>, base: int, q: int) -> Option<
    Link32<SpecFeatureVariations>,
> {
    match spec_offset32(t, base, q) {
        None => None,
        Some(((off, None), _)) => Some(Link32 { offset: off, link: None }),
        Some(((off, Some(x)), _)) => match spec_feature_variations(t, x) {
            Some(f) => Some(Link32 { offset: off, link: Some(f) }),
            None => None,
        },
    }
}

/// The `GSUB` table.
#[derive(Clone, Debug, PartialEq, Eq)]
pub struct GsubTable {
    pub major_version: u16,
    pub minor_version: u16,
    pub script_list: Link16<ScriptList>,
    pub feature_list: Link16<FeatureList>,
    pub lookup_list: Link16<SubstLookupList>,
    pub feature_variations_offset: Option<Link32<FeatureVariations>>,
}

/// Mathematical form of `GsubTable`.
pub struct SpecGsubTable {
    pub major_version: u16,
    pub minor_version: u16,
    pub script_list: Link16<SpecScriptList>,
    pub feature_list: Link16<SpecFeatureList>,
    pub lookup_list: Link16<SpecSubstLookupList>,
    pub feature_variations_offset: Option<Link32<SpecFeatureVariations>>,
}

impl View for GsubTable {
    type V = SpecGsubTable;

    open spec fn view(&self) -> SpecGsubTable {
        SpecGsubTable {
            major_version: self.major_version,
            minor_version: self.minor_version,
            script_list: self.script_list@,
            feature_list: self.feature_list@,
            lookup_list: self.lookup_list@,
            feature_variations_offset: match self.feature_variations_offset {
                Some(l) => Some(l@),
                None => None,
            },
        }
    }
}

/// The `GSUB` table held in `t`: major version 1, any minor version, the
/// offsets of the script, feature and lookup lists, and, from minor
/// version 1 on, the 32-bit offset of the feature variations.
#[verifier::opaque]
pub open spec fn spec_gsub_table(t: Seq<u8>) -> Option<(SpecGsubTable, int)> {
    if !avail(t, 0, 4) || u16_at(t, 0) != 1 {
        None
    } else {
        let minor = u16_at(t, 2);
        match (
            spec_script_list_link(t, 0, 4),
            spec_feature_list_link(t, 0, 6),
            spec_lookup_list_link(t, 0, 8),
        ) {
            (Some(sl), Some(fl), Some(ll)) => {
                let fv = if minor > 0 {
                    match spec_feature_variations_link(t, 0, 10) {
                        Some(l) => Some((Some(l), 14int)),
                        None => None,
                    }
                } else {
                    Some((None, 10int))
                };
                match fv {
                    None => None,
                    Some((fv, e)) => Some((SpecGsubTable {
                        major_version: 1,
                        minor_version: minor,
                        script_list: sl,
                        feature_list: fl,
                        lookup_list: ll,
                        feature_variations_offset: fv,
                    }, e)),
                }
            },
            _ => None,
        }
    }
}

/// Parses the script-list offset at `q`, relative to `base`, and its list.
pub fn script_list_link(t: &[u8], base: usize, q: usize) -> (r: Option<Link16<ScriptList>>)
    ensures
        match r {
            Some(l) => spec_script_list_link(t@, base as int, q as int) == Some(l@),
            None => spec_script_list_link(t@, base as int, q as int) is None,
        },
{
    let (off, target, _) = match offset16_mandatory(t, base, q) {
        Some(o) => o,
        None => return None,
    };
    match target {
        None => Some(Link16 { offset: off, link: None }),
        Some(x) => match script_list(t, x) {
            Some(l) => Some(Link16 { offset: off, link: Some(l) }),
            None => None,
        },
    }
}

/// Parses the feature-list offset at `q`, relative to `base`, and its list.
pub fn feature_list_link(t: &[u8], base: usize, q: usize) -> (r: Option<Link16<FeatureList>>)
    ensures
        match r {
            Some(l) => spec_feature_list_link(t@, base as int, q as int) == Some(l@),
            None => spec_feature_list_link(t@, base as int, q as int) is None,
        },
{
    let (off, target, _) = match offset16_mandatory(t, base, q) {
        Some(o) => o,
        None => return None,
    };
    match target {
        None => Some(Link16 { offset: off, link: None }),
        Some(x) => match feature_list(t, x) {
            Some(l) => Some(Link16 { offset: off, link: Some(l) }),
            None => None,
        },
    }
}

fn lookup_list_link(t: &[u8], base: usize, q: usize) -> (r: Option<Link16<SubstLookupList>>)
    ensures
        match r {
            Some(l) => spec_lookup_list_link(t@, base as int, q as int) == Some(l@),
            None => spec_lookup_list_link(t@, base as int, q as int) is None,
        },
{
    let (off, target, _) = match offset16_mandatory(t, base, q) {
        Some(o) => o,
        None => return None,
    };
    match target {
        None => Some(Link16 { offset: off, link: None }),
        Some(x) => match lookup_list(t, x) {
            Some(l) => Some(Link16 { offset: off, link: Some(l) }),
            None => None,
        },
    }
}

/// Parses the 32-bit feature-variations offset at `q`, relative to `base`,
/// and its table.
pub fn feature_variations_link(t: &[u8], base: usize, q: usize) -> (r: Option<
    Link32<FeatureVariations>,
>)
    ensures
        match r {
            Some(l) => spec_feature_variations_link(t@, base as int, q as int) == Some(l@),
            None => spec_feature_variations_link(t@, base as int, q as int) is None,
        },
{
    let (off, target, _) = match offset32(t, base, q) {
        Some(o) => o,
        None => return None,
    };
    match target {
        None => Some(Link32 { offset: off, link: None }),
        Some(x) => match feature_variations(t, x) {
            Some(f) => Some(Link32 { offset: off, link: Some(f) }),
            None => None,
        },
    }
}

/// Parses the `GSUB` table held in `t`.
pub fn gsub_table(t: &[u8]) -> (r: Option<(GsubTable, usize)>)
    ensures
        match r {
            Some((g, e)) => spec_gsub_table(t@) == Some((g@, e as int)),
            None => spec_gsub_table(t@) is None,
        },
{
    reveal(spec_gsub_table);
    if !has_bytes(t, 0, 4) || get_u16be(t, 0) != 1 {
        return None;
    }
    let minor = get_u16be(t, 2);
    let sl = match script_list_link(t, 0, 4) {
        Some(l) => l,
        None => return None,
    };
    let fl = match feature_list_link(t, 0, 6) {
        Some(l) => l,
        None => return None,
    };
    let ll = match lookup_list_link(t, 0, 8) {
        Some(l) => l,
        None => return None,
    };
    let (fv, e) = if minor > 0 {
        match feature_variations_link(t, 0, 10) {
            Some(l) => (Some(l), 14),
            None => return None,
        }
    } else {
        (None, 10)
    };
    Some(
        (
            GsubTable {
                major_version: 1,
                minor_version: minor,
                script_list: sl,
                feature_list: fl,
                lookup_list: ll,
                feature_variations_offset: fv,
            },
            e,
        ),
    )
}


/// A GSUB lookup holds exactly as many subtable offsets as it counts, and
/// carries a mark filtering set exactly when its flag asks for one; a
/// lookup list holds exactly as many lookups as it counts.
pub proof fn lemma_subst_lookup_shape(t: Seq<u8>, x: int)
    ensures
        spec_subst_lookup(t, x) matches Some(l) ==> l.subtables.len() == l.sub_table_count && (
        l.mark_filtering_set is Some <==> l.lookup_flag.use_mark_filtering_set),
        spec_lookup_list(t, x) matches Some(l) ==> l.lookups.len() == l.lookup_count,
{
}


/// An extension subtable wraps a subtable of another, defined lookup type:
/// never a further extension (type 7).
pub proof fn lemma_subst_extension_not_nested(t: Seq<u8>, p: int)
    ensures
        spec_subst_extension(t, p) matches Some((x, _)) ==> (1 <= x.extension_lookup_type <= 6 || x.extension_lookup_type == 8),
{
}


/// A lookup reads its own bytes: the type, flag and subtable-count words
/// at `x`, `x + 2` and `x + 4`, subtable offset words from `x + 6`, and,
/// when the flag asks for one, the mark filtering set word right after
/// them; a lookup list holds a count and lookup offset words from `x + 2`.
pub proof fn lemma_subst_lookup_fields(t: Seq<u8>, x: int)
    ensures
        spec_subst_lookup(t, x) matches Some(l) ==> {
            &&& l.lookup_type == crate::bytes::word_at(t, x)
            &&& l.lookup_flag == spec_lookup_flag(crate::bytes::word_at(t, x + 2) as u16)
            &&& l.sub_table_count == crate::bytes::word_at(t, x + 4)
            &&& (forall|i: int| 0 <= i < l.sub_table_count ==> (#[trigger] l.subtables[i]).offset == crate::bytes::word_at(t, x + 6 + 2 * i))
            &&& (l.mark_filtering_set matches Some(m) ==> m == crate::bytes::word_at(t, x + 6 + 2 * l.sub_table_count))
        },
        spec_lookup_list(t, x) matches Some(l) ==> l.lookup_count == crate::bytes::word_at(t, x) && forall|i: int|
            0 <= i < l.lookup_count ==> (#[trigger] l.lookups[i]).offset == crate::bytes::word_at(t, x + 2 + 2 * i),
{
    if let Some(l) = spec_subst_lookup(t, x) {
        crate::bytes::lemma_readers_spell(t, x);
        crate::bytes::lemma_readers_spell(t, x + 2);
        crate::bytes::lemma_readers_spell(t, x + 4);
        assert forall|i: int| 0 <= i < l.sub_table_count implies (#[trigger] l.subtables[i]).offset == crate::bytes::word_at(t, x + 6 + 2 * i) by {
            assert(spec_subtable_link(t, x, l.lookup_type, i) is Some);
            crate::bytes::lemma_readers_spell(t, x + 6 + 2 * i);
        }
        if l.mark_filtering_set is Some {
            crate::bytes::lemma_readers_spell(t, x + 6 + 2 * l.sub_table_count);
        }
    }
    if let Some(l) = spec_lookup_list(t, x) {
        crate::bytes::lemma_readers_spell(t, x);
        assert forall|i: int| 0 <= i < l.lookup_count implies (#[trigger] l.lookups[i]).offset == crate::bytes::word_at(t, x + 2 + 2 * i) by {
            crate::bytes::lemma_readers_spell(t, x + 2 + 2 * i);
        }
    }
}


/// The table header holds its minor version word at 2 and the script,
/// feature and lookup list offsets as the words at 4, 6 and 8; from minor
/// version 1 the feature variations offset is the double word at 10. An
/// extension subtable holds format 1, the wrapped lookup type word at
/// `p + 2` and the 32-bit offset at `p + 4`.
pub proof fn lemma_gsub_header_fields(t: Seq<u8>, p: int)
    ensures
        spec_gsub_table(t) matches Some((g, e)) ==> {
            &&& g.minor_version == crate::bytes::word_at(t, 2)
            &&& g.script_list.offset == crate::bytes::word_at(t, 4)
            &&& g.feature_list.offset == crate::bytes::word_at(t, 6)
            &&& g.lookup_list.offset == crate::bytes::word_at(t, 8)
            &&& (g.feature_variations_offset is Some <==> g.minor_version > 0)
            &&& (g.feature_variations_offset matches Some(l) ==> l.offset == crate::bytes::dword_at(t, 10) && e == 14)
            &&& (g.minor_version == 0 ==> e == 10)
        },
        spec_subst_extension(t, p) matches Some((x, e)) ==> crate::bytes::word_at(t, p) == 1 && x.extension_lookup_type == crate::bytes::word_at(t, p + 2)
            && x.extension_offset.offset == crate::bytes::dword_at(t, p + 4) && e == p + 8,
{
    reveal(spec_gsub_table);
    if let Some((g, _)) = spec_gsub_table(t) {
        crate::bytes::lemma_readers_spell(t, 2);
        crate::bytes::lemma_readers_spell(t, 4);
        crate::bytes::lemma_readers_spell(t, 6);
        crate::bytes::lemma_readers_spell(t, 8);
        if g.minor_version > 0 {
            crate::bytes::lemma_dword_spells(t, 10);
        }
    }
    if let Some(_) = spec_subst_extension(t, p) {
        crate::bytes::lemma_readers_spell(t, p);
        crate::bytes::lemma_readers_spell(t, p + 2);
        crate::bytes::lemma_dword_spells(t, p + 4);
    }
}

} // verus!
