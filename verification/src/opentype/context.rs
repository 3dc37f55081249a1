//! The contextual lookup subtables shared by glyph substitution and
//! positioning: sequence contexts and chained sequence contexts. Offsets
//! are relative to the start of the table that holds them.
use vstd::prelude::*;
use crate::bytes::{avail, get_u16be, has_bytes, u16_at};
use crate::opentype::cmap::{read_u16s, u16s_at};
use crate::opentype::layout::{
    class_def, coverage_link, spec_class_def, spec_coverage_link, ClassDef, CoverageTable,
    SpecClassDef, SpecCoverageTable,
};
use crate::opentype::links::{Link16, offset16_mandatory, spec_offset16};

verus! {

/// A lookup to apply at a position of a matched sequence.
#[derive(Clone, Copy, Debug, PartialEq, Eq)]
pub struct SequenceLookupRecord {
    pub sequence_index: u16,
    pub lookup_list_index: u16,
}

/// `n` four-byte sequence lookup records at `p`.
pub open spec fn lookup_records_at(t: Seq<u8>, p: int, n: int) -> Seq<SequenceLookupRecord> {
    Seq::new(
        n as nat,
        |i: int|
            SequenceLookupRecord {
                sequence_index: u16_at(t, p + 4 * i),
                lookup_list_index: u16_at(t, p + 4 * i + 2),
            },
    )
}

fn read_lookup_records(t: &[u8], p: usize, n: usize) -> (v: Vec<SequenceLookupRecord>)
    requires
        avail(t@, p as int, 4 * n),
    ensures
        v@ == lookup_records_at(t@, p as int, n as int),
{
    let _len = t.len();
    let mut v: Vec<SequenceLookupRecord> = Vec::new();
    let mut i: usize = 0;
    while i < n
        invariant
            0 <= i <= n,
            avail(t@, p as int, 4 * n),
            t@.len() <= usize::MAX,
            v@ =~= lookup_records_at(t@, p as int, i as int),
        decreases n - i,
    {
        v.push(
            SequenceLookupRecord {
                sequence_index: get_u16be(t, p + 4 * i),
                lookup_list_index: get_u16be(t, p + 4 * i + 2),
            },
        );
        i = i + 1;
        assert(v@ =~= lookup_records_at(t@, p as int, i as int));
    }
    v
}

/// A class definition offset at `q`, relative to `base`, with the class
/// definition it leads to.
pub open spec fn spec_class_def_link(t: Seq<u8>, base: int, q: int) -> Option<
    Link16<SpecClassDef>,
> {
    match spec_offset16(t, base, q) {
        None => None,
        Some(((off, None), _)) => Some(Link16 { offset: off, link: None }),
        Some(((off, Some(x)), _)) => match spec_class_def(t, x) {
            Some((c, _)) => Some(Link16 { offset: off, link: Some(c) }),
            None => None,
        },
    }
}

/// Parses the class definition offset at `q`, relative to `base`, and the
/// class definition it leads to.
pub fn class_def_link(t: &[u8], base: usize, q: usize) -> (r: Option<Link16<ClassDef>>)
    ensures
        match r {
            Some(l) => spec_class_def_link(t@, base as int, q as int) == Some(l@),
            None => spec_class_def_link(t@, base as int, q as int) is None,
        },
{
    let (off, target, _) = match offset16_mandatory(t, base, q) {
        Some(x) => x,
        None => return None,
    };
    match target {
        None => Some(Link16 { offset: off, link: None }),
        Some(x) => match class_def(t, x) {
            Some((c, _)) => Some(Link16 { offset: off, link: Some(c) }),
            None => None,
        },
    }
}

/// The views of a sequence of coverage links.
pub open spec fn coverages_view(v: Seq<Link16<CoverageTable>>) -> Seq<Link16<SpecCoverageTable>> {
    v.map_values(|l: Link16<CoverageTable>| l@)
}

/// The `n` coverage offsets at `q`, relative to `base`, each with its
/// coverage table.
pub open spec fn spec_coverage_links(t: Seq<u8>, base: int, q: int, n: int) -> Option<
    Seq<Link16<SpecCoverageTable>>,
> {
    if 0 <= n && avail(t, q, 2 * n) && forall|i: int|
        0 <= i < n ==> #[trigger] spec_coverage_link(t, base, q + 2 * i) is Some {
        Some(Seq::new(n as nat, |i: int| spec_coverage_link(t, base, q + 2 * i).unwrap()))
    } else {
        None
    }
}

/// Parses `n` coverage offsets at `q`, relative to `base`, and their
/// coverage tables.
pub fn coverage_links(t: &[u8], base: usize, q: usize, n: u16) -> (r: Option<
    Vec<Link16<CoverageTable>>,
>)
    ensures
        match r {
            Some(v) => spec_coverage_links(t@, base as int, q as int, n as int) == Some(
                coverages_view(v@),
            ),
            None => spec_coverage_links(t@, base as int, q as int, n as int) is None,
        },
{
    if !has_bytes(t, q, 2 * (n as usize)) {
        return None;
    }
    let mut v: Vec<Link16<CoverageTable>> = Vec::new();
    let mut i: usize = 0;
    while i < n as usize
        invariant
            0 <= i <= n,
            avail(t@, q as int, 2 * n),
            t@.len() <= usize::MAX,
            forall|j: int|
                0 <= j < i ==> #[trigger] spec_coverage_link(t@, base as int, q + 2 * j) is Some,
            coverages_view(v@) =~= Seq::new(
                i as nat,
                |j: int| spec_coverage_link(t@, base as int, q + 2 * j).unwrap(),
            ),
        decreases n - i,
    {
        let c = match coverage_link(t, base, q + 2 * i) {
            Some(c) => c,
            None => {
                assert(spec_coverage_link(t@, base as int, q + 2 * i) is None);
                return None;
            },
        };
        let ghost old_v = v@;
        v.push(c);
        assert(coverages_view(v@) =~= coverages_view(old_v).push(c@));
        i = i + 1;
        assert(coverages_view(v@) =~= Seq::new(
            i as nat,
            |j: int| spec_coverage_link(t@, base as int, q + 2 * j).unwrap(),
        ));
    }
    Some(v)
}

/// A rule of a sequence context: the glyph count of the input (which must
/// not be zero), the input after its first glyph, and the lookups to apply.
#[derive(Clone, Debug, PartialEq, Eq)]
pub struct SequenceRule {
    pub glyph_count: u16,
    pub seq_lookup_count: u16,
    pub input_sequence: Vec<u16>,
    pub seq_lookup_records: Vec<SequenceLookupRecord>,
}

/// Mathematical form of `SequenceRule`.
pub struct SpecSequenceRule {
    pub glyph_count: u16,
    pub seq_lookup_count: u16,
    pub input_sequence: Seq<u16>,
    pub seq_lookup_records: Seq<SequenceLookupRecord>,
}

impl View for SequenceRule {
    type V = SpecSequenceRule;

    open spec fn view(&self) -> SpecSequenceRule {
        SpecSequenceRule {
            glyph_count: self.glyph_count,
            seq_lookup_count: self.seq_lookup_count,
            input_sequence: self.input_sequence@,
            seq_lookup_records: self.seq_lookup_records@,
        }
    }
}

/// The sequence rule at `y`.
pub open spec fn spec_sequence_rule(t: Seq<u8>, y: int) -> Option<SpecSequenceRule> {
    if !avail(t, y, 4) || u16_at(t, y) == 0 {
        None
    } else {
        let g = u16_at(t, y);
        let n = u16_at(t, y + 2);
        let r = y + 4 + 2 * (g - 1);
        if avail(t, y + 4, 2 * (g - 1)) && avail(t, r, 4 * n) {
            Some(
                SpecSequenceRule {
                    glyph_count: g,
                    seq_lookup_count: n,
                    input_sequence: u16s_at(t, y + 4, g - 1),
                    seq_lookup_records: lookup_records_at(t, r, n as int),
                },
            )
        } else {
            None
        }
    }
}

/// Entry `i` of the rule offsets of the rule set at `z`, with its rule.
pub open spec fn spec_rule_link(t: Seq<u8>, z: int, i: int) -> Option<Link16<SpecSequenceRule>> {
    match spec_offset16(t, z, z + 2 + 2 * i) {
        None => None,
        Some(((off, None), _)) => Some(Link16 { offset: off, link: None }),
        Some(((off, Some(y)), _)) => match spec_sequence_rule(t, y) {
            Some(r) => Some(Link16 { offset: off, link: Some(r) }),
            None => None,
        },
    }
}

/// The views of a sequence of rule links.
pub open spec fn rules_view(v: Seq<Link16<SequenceRule>>) -> Seq<Link16<SpecSequenceRule>> {
    v.map_values(|l: Link16<SequenceRule>| l@)
}

/// A set of sequence rules.
#[derive(Clone, Debug, PartialEq, Eq)]
pub struct SequenceRuleSet {
    pub rule_count: u16,
    pub rules: Vec<Link16<SequenceRule>>,
}

/// Mathematical form of `SequenceRuleSet`.
pub struct SpecSequenceRuleSet {
    pub rule_count: u16,
    pub rules: Seq<Link16<SpecSequenceRule>>,
}

impl View for SequenceRuleSet {
    type V = SpecSequenceRuleSet;

    open spec fn view(&self) -> SpecSequenceRuleSet {
        SpecSequenceRuleSet { rule_count: self.rule_count, rules: rules_view(self.rules@) }
    }
}

/// The rule set at `z`: a count and that many rule offsets relative to `z`.
pub open spec fn spec_rule_set(t: Seq<u8>, z: int) -> Option<SpecSequenceRuleSet> {
    if !avail(t, z, 2) {
        None
    } else {
        let n = u16_at(t, z);
        if avail(t, z + 2, 2 * n) && forall|i: int|
            0 <= i < n ==> #[trigger] spec_rule_link(t, z, i) is Some {
            Some(
                SpecSequenceRuleSet {
                    rule_count: n,
                    rules: Seq::new(n as nat, |i: int| spec_rule_link(t, z, i).unwrap()),
                },
            )
        } else {
            None
        }
    }
}

/// Entry `i` of the `n` rule-set offsets at `q`, relative to `base`.
pub open spec fn spec_rule_set_link(t: Seq<u8>, base: int, q: int, i: int) -> Option<
    Link16<SpecSequenceRuleSet>,
> {
    match spec_offset16(t, base, q + 2 * i) {
        None => None,
        Some(((off, None), _)) => Some(Link16 { offset: off, link: None }),
        Some(((off, Some(z)), _)) => match spec_rule_set(t, z) {
            Some(r) => Some(Link16 { offset: off, link: Some(r) }),
            None => None,
        },
    }
}

/// The views of a sequence of rule-set links.
pub open spec fn rule_sets_view(v: Seq<Link16<SequenceRuleSet>>) -> Seq<
    Link16<SpecSequenceRuleSet>,
> {
    v.map_values(|l: Link16<SequenceRuleSet>| l@)
}

/// The `n` rule-set offsets at `q`, relative to `base`, with their rule
/// sets.
pub open spec fn spec_rule_sets(t: Seq<u8>, base: int, q: int, n: int) -> Option<
    Seq<Link16<SpecSequenceRuleSet>>,
> {
    if 0 <= n && avail(t, q, 2 * n) && forall|i: int|
        0 <= i < n ==> #[trigger] spec_rule_set_link(t, base, q, i) is Some {
        Some(Seq::new(n as nat, |i: int| spec_rule_set_link(t, base, q, i).unwrap()))
    } else {
        None
    }
}

fn sequence_rule(t: &[u8], y: usize) -> (r: Option<SequenceRule>)
    ensures
        match r {
            Some(v) => spec_sequence_rule(t@, y as int) == Some(v@),
            None => spec_sequence_rule(t@, y as int) is None,
        },
{
    if !has_bytes(t, y, 4) || get_u16be(t, y) == 0 {
        return None;
    }
    let g = get_u16be(t, y) as usize;
    let n = get_u16be(t, y + 2) as usize;
    if !has_bytes(t, y + 4, 2 * (g - 1)) {
        return None;
    }
    let r = y + 4 + 2 * (g - 1);
    if !has_bytes(t, r, 4 * n) {
        return None;
    }
    Some(
        SequenceRule {
            glyph_count: g as u16,
            seq_lookup_count: n as u16,
            input_sequence: read_u16s(t, y + 4, g - 1),
            seq_lookup_records: read_lookup_records(t, r, n),
        },
    )
}

fn rule_set(t: &[u8], z: usize) -> (r: Option<SequenceRuleSet>)
    ensures
        match r {
            Some(v) => spec_rule_set(t@, z as int) == Some(v@),
            None => spec_rule_set(t@, z as int) is None,
        },
{
    if !has_bytes(t, z, 2) {
        return None;
    }
    let n = get_u16be(t, z);
    if !has_bytes(t, z + 2, 2 * (n as usize)) {
        return None;
    }
    let mut v: Vec<Link16<SequenceRule>> = Vec::new();
    let mut i: usize = 0;
    while i < n as usize
        invariant
            0 <= i <= n,
            avail(t@, z as int, 2) && n == u16_at(t@, z as int),
            avail(t@, z + 2, 2 * n),
            t@.len() <= usize::MAX,
            forall|j: int| 0 <= j < i ==> #[trigger] spec_rule_link(t@, z as int, j) is Some,
            rules_view(v@) =~= Seq::new(i as nat, |j: int| spec_rule_link(t@, z as int, j).unwrap()),
        decreases n - i,
    {
        let (off, target, _) = match offset16_mandatory(t, z, z + 2 + 2 * i) {
            Some(x) => x,
            None => {
                assert(spec_rule_link(t@, z as int, i as int) is None);
                return None;
            },
        };
        let link = match target {
            None => None,
            Some(y) => match sequence_rule(t, y) {
                Some(r) => Some(r),
                None => {
                    assert(spec_rule_link(t@, z as int, i as int) is None);
                    return None;
                },
            },
        };
        let entry = Link16 { offset: off, link };
        assert(spec_rule_link(t@, z as int, i as int) == Some(entry@));
        let ghost old_v = v@;
        v.push(entry);
        assert(rules_view(v@) =~= rules_view(old_v).push(entry@));
        i = i + 1;
        assert(rules_view(v@) =~= Seq::new(i as nat, |j: int| spec_rule_link(t@, z as int, j).unwrap()));
    }
    Some(SequenceRuleSet { rule_count: n, rules: v })
}

fn rule_sets(t: &[u8], base: usize, q: usize, n: u16) -> (r: Option<Vec<Link16<SequenceRuleSet>>>)
    ensures
        match r {
            Some(v) => spec_rule_sets(t@, base as int, q as int, n as int) == Some(
                rule_sets_view(v@),
            ),
            None => spec_rule_sets(t@, base as int, q as int, n as int) is None,
        },
{
    if !has_bytes(t, q, 2 * (n as usize)) {
        return None;
    }
    let mut v: Vec<Link16<SequenceRuleSet>> = Vec::new();
    let mut i: usize = 0;
    while i < n as usize
        invariant
            0 <= i <= n,
            avail(t@, q as int, 2 * n),
            t@.len() <= usize::MAX,
            forall|j: int|
                0 <= j < i ==> #[trigger] spec_rule_set_link(t@, base as int, q as int, j) is Some,
            rule_sets_view(v@) =~= Seq::new(
                i as nat,
                |j: int| spec_rule_set_link(t@, base as int, q as int, j).unwrap(),
            ),
        decreases n - i,
    {
        let (off, target, _) = match offset16_mandatory(t, base, q + 2 * i) {
            Some(x) => x,
            None => {
                assert(spec_rule_set_link(t@, base as int, q as int, i as int) is None);
                return None;
            },
        };
        let link = match target {
            None => None,
            Some(z) => match rule_set(t, z) {
                Some(r) => Some(r),
                None => {
                    assert(spec_rule_set_link(t@, base as int, q as int, i as int) is None);
                    return None;
                },
            },
        };
        let entry = Link16 { offset: off, link };
        assert(spec_rule_set_link(t@, base as int, q as int, i as int) == Some(entry@));
        let ghost old_v = v@;
        v.push(entry);
        assert(rule_sets_view(v@) =~= rule_sets_view(old_v).push(entry@));
        i = i + 1;
        assert(rule_sets_view(v@) =~= Seq::new(
            i as nat,
            |j: int| spec_rule_set_link(t@, base as int, q as int, j).unwrap(),
        ));
    }
    Some(v)
}

/// The body of a sequence context, by format: rules by covered glyph, rules
/// by glyph class, or one coverage table per input position.
#[derive(Clone, Debug, PartialEq, Eq)]
pub enum SequenceContextData {
    Format1 {
        coverage: Link16<CoverageTable>,
        seq_rule_set_count: u16,
        seq_rule_sets: Vec<Link16<SequenceRuleSet>>,
    },
    Format2 {
        coverage: Link16<CoverageTable>,
        class_def: Link16<ClassDef>,
        class_seq_rule_set_count: u16,
        class_seq_rule_sets: Vec<Link16<SequenceRuleSet>>,
    },
    Format3 {
        glyph_count: u16,
        seq_lookup_count: u16,
        coverage_tables: Vec<Link16<CoverageTable>>,
        seq_lookup_records: Vec<SequenceLookupRecord>,
    },
}

/// Mathematical form of `SequenceContextData`.
pub enum SpecSequenceContextData {
    Format1 {
        coverage: Link16<SpecCoverageTable>,
        seq_rule_set_count: u16,
        seq_rule_sets: Seq<Link16<SpecSequenceRuleSet>>,
    },
    Format2 {
        coverage: Link16<SpecCoverageTable>,
        class_def: Link16<SpecClassDef>,
        class_seq_rule_set_count: u16,
        class_seq_rule_sets: Seq<Link16<SpecSequenceRuleSet>>,
    },
    Format3 {
        glyph_count: u16,
        seq_lookup_count: u16,
        coverage_tables: Seq<Link16<SpecCoverageTable>>,
        seq_lookup_records: Seq<SequenceLookupRecord>,
    },
}

/// A sequence context subtable.
#[derive(Clone, Debug, PartialEq, Eq)]
pub struct SequenceContext {
    pub format: u16,
    pub subst: SequenceContextData,
}

/// Mathematical form of `SequenceContext`.
pub struct SpecSequenceContext {
    pub format: u16,
    pub subst: SpecSequenceContextData,
}

impl View for SequenceContext {
    type V = SpecSequenceContext;

    open spec fn view(&self) -> SpecSequenceContext {
        SpecSequenceContext {
            format: self.format,
            subst: match &self.subst {
                SequenceContextData::Format1 { coverage, seq_rule_set_count, seq_rule_sets } => {
                    SpecSequenceContextData::Format1 {
                        coverage: coverage@,
                        seq_rule_set_count: *seq_rule_set_count,
                        seq_rule_sets: rule_sets_view(seq_rule_sets@),
                    }
                },
                SequenceContextData::Format2 {
                    coverage,
                    class_def,
                    class_seq_rule_set_count,
                    class_seq_rule_sets,
                } => SpecSequenceContextData::Format2 {
                    coverage: coverage@,
                    class_def: class_def@,
                    class_seq_rule_set_count: *class_seq_rule_set_count,
                    class_seq_rule_sets: rule_sets_view(class_seq_rule_sets@),
                },
                SequenceContextData::Format3 {
                    glyph_count,
                    seq_lookup_count,
                    coverage_tables,
                    seq_lookup_records,
                } => SpecSequenceContextData::Format3 {
                    glyph_count: *glyph_count,
                    seq_lookup_count: *seq_lookup_count,
                    coverage_tables: coverages_view(coverage_tables@),
                    seq_lookup_records: seq_lookup_records@,
                },
            },
        }
    }
}

/// The sequence context subtable at `p`, of format 1, 2 or 3; other formats
/// fail.
pub open spec fn spec_sequence_context(t: Seq<u8>, p: int) -> Option<(SpecSequenceContext, int)> {
    if !avail(t, p, 2) {
        None
    } else {
        let f = u16_at(t, p);
        if f == 1 {
            match spec_coverage_link(t, p, p + 2) {
                None => None,
                Some(cov) => if !avail(t, p + 4, 2) {
                    None
                } else {
                    let n = u16_at(t, p + 4);
                    match spec_rule_sets(t, p, p + 6, n as int) {
                        None => None,
                        Some(sets) => Some((SpecSequenceContext {
                            format: 1,
                            subst: SpecSequenceContextData::Format1 {
                                coverage: cov,
                                seq_rule_set_count: n,
                                seq_rule_sets: sets,
                            },
                        }, p + 6 + 2 * n)),
                    }
                },
            }
        } else if f == 2 {
            match (spec_coverage_link(t, p, p + 2), spec_class_def_link(t, p, p + 4)) {
                (Some(cov), Some(cd)) => if !avail(t, p + 6, 2) {
                    None
                } else {
                    let n = u16_at(t, p + 6);
                    match spec_rule_sets(t, p, p + 8, n as int) {
                        None => None,
                        Some(sets) => Some((SpecSequenceContext {
                            format: 2,
                            subst: SpecSequenceContextData::Format2 {
                                coverage: cov,
                                class_def: cd,
                                class_seq_rule_set_count: n,
                                class_seq_rule_sets: sets,
                            },
                        }, p + 8 + 2 * n)),
                    }
                },
                _ => None,
            }
        } else if f == 3 {
            if !avail(t, p + 2, 4) {
                None
            } else {
                let g = u16_at(t, p + 2);
                let n = u16_at(t, p + 4);
                let r = p + 6 + 2 * g;
                match spec_coverage_links(t, p, p + 6, g as int) {
                    None => None,
                    Some(covs) => if avail(t, r, 4 * n) {
                        Some((SpecSequenceContext {
                            format: 3,
                            subst: SpecSequenceContextData::Format3 {
                                glyph_count: g,
                                seq_lookup_count: n,
                                coverage_tables: covs,
                                seq_lookup_records: lookup_records_at(t, r, n as int),
                            },
                        }, r + 4 * n))
                    } else {
                        None
                    },
                }
            }
        } else {
            None
        }
    }
}

/// Parses the sequence context subtable at `p`.
pub fn sequence_context(t: &[u8], p: usize) -> (r: Option<(SequenceContext, usize)>)
    ensures
        match r {
            Some((c, e)) => spec_sequence_context(t@, p as int) == Some((c@, e as int)),
            None => spec_sequence_context(t@, p as int) is None,
        },
{
    if !has_bytes(t, p, 2) {
        return None;
    }
    let f = get_u16be(t, p);
    if f == 1 {
        let cov = match coverage_link(t, p, p + 2) {
            Some(c) => c,
            None => return None,
        };
        if !has_bytes(t, p + 4, 2) {
            return None;
        }
        let n = get_u16be(t, p + 4);
        let sets = match rule_sets(t, p, p + 6, n) {
            Some(v) => v,
            None => return None,
        };
        let d = SequenceContextData::Format1 {
            coverage: cov,
            seq_rule_set_count: n,
            seq_rule_sets: sets,
        };
        Some((SequenceContext { format: 1, subst: d }, p + 6 + 2 * (n as usize)))
    } else if f == 2 {
        let cov = match coverage_link(t, p, p + 2) {
            Some(c) => c,
            None => return None,
        };
        let cd = match class_def_link(t, p, p + 4) {
            Some(c) => c,
            None => return None,
        };
        if !has_bytes(t, p + 6, 2) {
            return None;
        }
        let n = get_u16be(t, p + 6);
        let sets = match rule_sets(t, p, p + 8, n) {
            Some(v) => v,
            None => return None,
        };
        let d = SequenceContextData::Format2 {
            coverage: cov,
            class_def: cd,
            class_seq_rule_set_count: n,
            class_seq_rule_sets: sets,
        };
        Some((SequenceContext { format: 2, subst: d }, p + 8 + 2 * (n as usize)))
    } else if f == 3 {
        if !has_bytes(t, p + 2, 4) {
            return None;
        }
        let g = get_u16be(t, p + 2);
        let n = get_u16be(t, p + 4);
        let covs = match coverage_links(t, p, p + 6, g) {
            Some(v) => v,
            None => return None,
        };
        let r = p + 6 + 2 * (g as usize);
        if !has_bytes(t, r, 4 * (n as usize)) {
            return None;
        }
        let d = SequenceContextData::Format3 {
            glyph_count: g,
            seq_lookup_count: n,
            coverage_tables: covs,
            seq_lookup_records: read_lookup_records(t, r, n as usize),
        };
        Some((SequenceContext { format: 3, subst: d }, r + 4 * (n as usize)))
    } else {
        None
    }
}

/// A rule of a chained sequence context: the glyphs before the input, the
/// input after its first glyph (the input count must not be zero), the
/// glyphs after it, and the lookups to apply.
#[derive(Clone, Debug, PartialEq, Eq)]
pub struct ChainedSequenceRule {
    pub backtrack_glyph_count: u16,
    pub backtrack_sequence: Vec<u16>,
    pub input_glyph_count: u16,
    pub input_sequence: Vec<u16>,
    pub lookahead_glyph_count: u16,
    pub lookahead_sequence: Vec<u16>,
    pub seq_lookup_count: u16,
    pub seq_lookup_records: Vec<SequenceLookupRecord>,
}

/// Mathematical form of `ChainedSequenceRule`.
pub struct SpecChainedSequenceRule {
    pub backtrack_glyph_count: u16,
    pub backtrack_sequence: Seq<u16>,
    pub input_glyph_count: u16,
    pub input_sequence: Seq<u16>,
    pub lookahead_glyph_count: u16,
    pub lookahead_sequence: Seq<u16>,
    pub seq_lookup_count: u16,
    pub seq_lookup_records: Seq<SequenceLookupRecord>,
}

impl View for ChainedSequenceRule {
    type V = SpecChainedSequenceRule;

    open spec fn view(&self) -> SpecChainedSequenceRule {
        SpecChainedSequenceRule {
            backtrack_glyph_count: self.backtrack_glyph_count,
            backtrack_sequence: self.backtrack_sequence@,
            input_glyph_count: self.input_glyph_count,
            input_sequence: self.input_sequence@,
            lookahead_glyph_count: self.lookahead_glyph_count,
            lookahead_sequence: self.lookahead_sequence@,
            seq_lookup_count: self.seq_lookup_count,
            seq_lookup_records: self.seq_lookup_records@,
        }
    }
}

/// The chained sequence rule at `y`: four counted arrays one after the
/// other.
pub open spec fn spec_chained_rule(t: Seq<u8>, y: int) -> Option<SpecChainedSequenceRule> {
    if !avail(t, y, 2) {
        None
    } else {
        let b = u16_at(t, y);
        let p2 = y + 2 + 2 * b;
        if !avail(t, y + 2, 2 * b) || !avail(t, p2, 2) || u16_at(t, p2) == 0 {
            None
        } else {
            let ic = u16_at(t, p2);
            let p4 = p2 + 2 + 2 * (ic - 1);
            if !avail(t, p2 + 2, 2 * (ic - 1)) || !avail(t, p4, 2) {
                None
            } else {
                let la = u16_at(t, p4);
                let p6 = p4 + 2 + 2 * la;
                if !avail(t, p4 + 2, 2 * la) || !avail(t, p6, 2) || !avail(
                    t,
                    p6 + 2,
                    4 * u16_at(t, p6),
                ) {
                    None
                } else {
                    let n = u16_at(t, p6);
                    Some(
                        SpecChainedSequenceRule {
                            backtrack_glyph_count: b,
                            backtrack_sequence: u16s_at(t, y + 2, b as int),
                            input_glyph_count: ic,
                            input_sequence: u16s_at(t, p2 + 2, ic - 1),
                            lookahead_glyph_count: la,
                            lookahead_sequence: u16s_at(t, p4 + 2, la as int),
                            seq_lookup_count: n,
                            seq_lookup_records: lookup_records_at(t, p6 + 2, n as int),
                        },
                    )
                }
            }
        }
    }
}

/// Entry `i` of the rule offsets of the chained rule set at `z`.
pub open spec fn spec_chained_rule_link(t: Seq<u8>, z: int, i: int) -> Option<
    Link16<SpecChainedSequenceRule>,
> {
    match spec_offset16(t, z, z + 2 + 2 * i) {
        None => None,
        Some(((off, None), _)) => Some(Link16 { offset: off, link: None }),
        Some(((off, Some(y)), _)) => match spec_chained_rule(t, y) {
            Some(r) => Some(Link16 { offset: off, link: Some(r) }),
            None => None,
        },
    }
}

/// The views of a sequence of chained rule links.
pub open spec fn chained_rules_view(v: Seq<Link16<ChainedSequenceRule>>) -> Seq<
    Link16<SpecChainedSequenceRule>,
> {
    v.map_values(|l: Link16<ChainedSequenceRule>| l@)
}

/// A set of chained sequence rules.
#[derive(Clone, Debug, PartialEq, Eq)]
pub struct ChainedSequenceRuleSet {
    pub chained_seq_rule_count: u16,
    pub chained_seq_rules: Vec<Link16<ChainedSequenceRule>>,
}

/// Mathematical form of `ChainedSequenceRuleSet`.
pub struct SpecChainedSequenceRuleSet {
    pub chained_seq_rule_count: u16,
    pub chained_seq_rules: Seq<Link16<SpecChainedSequenceRule>>,
}

impl View for ChainedSequenceRuleSet {
    type V = SpecChainedSequenceRuleSet;

    open spec fn view(&self) -> SpecChainedSequenceRuleSet {
        SpecChainedSequenceRuleSet {
            chained_seq_rule_count: self.chained_seq_rule_count,
            chained_seq_rules: chained_rules_view(self.chained_seq_rules@),
        }
    }
}

/// The chained rule set at `z`.
pub open spec fn spec_chained_rule_set(t: Seq<u8>, z: int) -> Option<SpecChainedSequenceRuleSet> {
    if !avail(t, z, 2) {
        None
    } else {
        let n = u16_at(t, z);
        if avail(t, z + 2, 2 * n) && forall|i: int|
            0 <= i < n ==> #[trigger] spec_chained_rule_link(t, z, i) is Some {
            Some(
                SpecChainedSequenceRuleSet {
                    chained_seq_rule_count: n,
                    chained_seq_rules: Seq::new(
                        n as nat,
                        |i: int| spec_chained_rule_link(t, z, i).unwrap(),
                    ),
                },
            )
        } else {
            None
        }
    }
}

/// Entry `i` of the chained rule-set offsets at `q`, relative to `base`.
pub open spec fn spec_chained_rule_set_link(t: Seq<u8>, base: int, q: int, i: int) -> Option<
    Link16<SpecChainedSequenceRuleSet>,
> {
    match spec_offset16(t, base, q + 2 * i) {
        None => None,
        Some(((off, None), _)) => Some(Link16 { offset: off, link: None }),
        Some(((off, Some(z)), _)) => match spec_chained_rule_set(t, z) {
            Some(r) => Some(Link16 { offset: off, link: Some(r) }),
            None => None,
        },
    }
}

/// The views of a sequence of chained rule-set links.
pub open spec fn chained_rule_sets_view(v: Seq<Link16<ChainedSequenceRuleSet>>) -> Seq<
    Link16<SpecChainedSequenceRuleSet>,
> {
    v.map_values(|l: Link16<ChainedSequenceRuleSet>| l@)
}

/// The `n` chained rule-set offsets at `q`, relative to `base`.
pub open spec fn spec_chained_rule_sets(t: Seq<u8>, base: int, q: int, n: int) -> Option<
    Seq<Link16<SpecChainedSequenceRuleSet>>,
> {
    if 0 <= n && avail(t, q, 2 * n) && forall|i: int|
        0 <= i < n ==> #[trigger] spec_chained_rule_set_link(t, base, q, i) is Some {
        Some(Seq::new(n as nat, |i: int| spec_chained_rule_set_link(t, base, q, i).unwrap()))
    } else {
        None
    }
}

fn chained_rule(t: &[u8], y: usize) -> (r: Option<ChainedSequenceRule>)
    ensures
        match r {
            Some(v) => spec_chained_rule(t@, y as int) == Some(v@),
            None => spec_chained_rule(t@, y as int) is None,
        },
{
    if !has_bytes(t, y, 2) {
        return None;
    }
    let b = get_u16be(t, y) as usize;
    if !has_bytes(t, y + 2, 2 * b) {
        return None;
    }
    let p2 = y + 2 + 2 * b;
    if !has_bytes(t, p2, 2) || get_u16be(t, p2) == 0 {
        return None;
    }
    let ic = get_u16be(t, p2) as usize;
    if !has_bytes(t, p2 + 2, 2 * (ic - 1)) {
        return None;
    }
    let p4 = p2 + 2 + 2 * (ic - 1);
    if !has_bytes(t, p4, 2) {
        return None;
    }
    let la = get_u16be(t, p4) as usize;
    if !has_bytes(t, p4 + 2, 2 * la) {
        return None;
    }
    let p6 = p4 + 2 + 2 * la;
    if !has_bytes(t, p6, 2) {
        return None;
    }
    let n = get_u16be(t, p6) as usize;
    if !has_bytes(t, p6 + 2, 4 * n) {
        return None;
    }
    Some(
        ChainedSequenceRule {
            backtrack_glyph_count: b as u16,
            backtrack_sequence: read_u16s(t, y + 2, b),
            input_glyph_count: ic as u16,
            input_sequence: read_u16s(t, p2 + 2, ic - 1),
            lookahead_glyph_count: la as u16,
            lookahead_sequence: read_u16s(t, p4 + 2, la),
            seq_lookup_count: n as u16,
            seq_lookup_records: read_lookup_records(t, p6 + 2, n),
        },
    )
}

fn chained_rule_set(t: &[u8], z: usize) -> (r: Option<ChainedSequenceRuleSet>)
    ensures
        match r {
            Some(v) => spec_chained_rule_set(t@, z as int) == Some(v@),
            None => spec_chained_rule_set(t@, z as int) is None,
        },
{
    if !has_bytes(t, z, 2) {
        return None;
    }
    let n = get_u16be(t, z);
    if !has_bytes(t, z + 2, 2 * (n as usize)) {
        return None;
    }
    let mut v: Vec<Link16<ChainedSequenceRule>> = Vec::new();
    let mut i: usize = 0;
    while i < n as usize
        invariant
            0 <= i <= n,
            avail(t@, z as int, 2) && n == u16_at(t@, z as int),
            avail(t@, z + 2, 2 * n),
            t@.len() <= usize::MAX,
            forall|j: int| 0 <= j < i ==> #[trigger] spec_chained_rule_link(t@, z as int, j) is Some,
            chained_rules_view(v@) =~= Seq::new(
                i as nat,
                |j: int| spec_chained_rule_link(t@, z as int, j).unwrap(),
            ),
        decreases n - i,
    {
        let (off, target, _) = match offset16_mandatory(t, z, z + 2 + 2 * i) {
            Some(x) => x,
            None => {
                assert(spec_chained_rule_link(t@, z as int, i as int) is None);
                return None;
            },
        };
        let link = match target {
            None => None,
            Some(y) => match chained_rule(t, y) {
                Some(r) => Some(r),
                None => {
                    assert(spec_chained_rule_link(t@, z as int, i as int) is None);
                    return None;
                },
            },
        };
        let entry = Link16 { offset: off, link };
        assert(spec_chained_rule_link(t@, z as int, i as int) == Some(entry@));
        let ghost old_v = v@;
        v.push(entry);
        assert(chained_rules_view(v@) =~= chained_rules_view(old_v).push(entry@));
        i = i + 1;
        assert(chained_rules_view(v@) =~= Seq::new(
            i as nat,
            |j: int| spec_chained_rule_link(t@, z as int, j).unwrap(),
        ));
    }
    Some(ChainedSequenceRuleSet { chained_seq_rule_count: n, chained_seq_rules: v })
}

fn chained_rule_sets(t: &[u8], base: usize, q: usize, n: u16) -> (r: Option<
    Vec<Link16<ChainedSequenceRuleSet>>,
>)
    ensures
        match r {
            Some(v) => spec_chained_rule_sets(t@, base as int, q as int, n as int) == Some(
                chained_rule_sets_view(v@),
            ),
            None => spec_chained_rule_sets(t@, base as int, q as int, n as int) is None,
        },
{
    if !has_bytes(t, q, 2 * (n as usize)) {
        return None;
    }
    let mut v: Vec<Link16<ChainedSequenceRuleSet>> = Vec::new();
    let mut i: usize = 0;
    while i < n as usize
        invariant
            0 <= i <= n,
            avail(t@, q as int, 2 * n),
            t@.len() <= usize::MAX,
            forall|j: int|
                0 <= j < i ==> #[trigger] spec_chained_rule_set_link(t@, base as int, q as int, j)
                    is Some,
            chained_rule_sets_view(v@) =~= Seq::new(
                i as nat,
                |j: int| spec_chained_rule_set_link(t@, base as int, q as int, j).unwrap(),
            ),
        decreases n - i,
    {
        let (off, target, _) = match offset16_mandatory(t, base, q + 2 * i) {
            Some(x) => x,
            None => {
                assert(spec_chained_rule_set_link(t@, base as int, q as int, i as int) is None);
                return None;
            },
        };
        let link = match target {
            None => None,
            Some(z) => match chained_rule_set(t, z) {
                Some(r) => Some(r),
                None => {
                    assert(spec_chained_rule_set_link(t@, base as int, q as int, i as int) is None);
                    return None;
                },
            },
        };
        let entry = Link16 { offset: off, link };
        assert(spec_chained_rule_set_link(t@, base as int, q as int, i as int) == Some(entry@));
        let ghost old_v = v@;
        v.push(entry);
        assert(chained_rule_sets_view(v@) =~= chained_rule_sets_view(old_v).push(entry@));
        i = i + 1;
        assert(chained_rule_sets_view(v@) =~= Seq::new(
            i as nat,
            |j: int| spec_chained_rule_set_link(t@, base as int, q as int, j).unwrap(),
        ));
    }
    Some(v)
}

/// The body of a chained sequence context, by format: rules by covered
/// glyph, rules by glyph classes, or coverage tables for each position.
#[derive(Clone, Debug, PartialEq, Eq)]
pub enum ChainedSequenceContextData {
    Format1 {
        coverage: Link16<CoverageTable>,
        chained_seq_rule_set_count: u16,
        chained_seq_rule_sets: Vec<Link16<ChainedSequenceRuleSet>>,
    },
    Format2 {
        coverage: Link16<CoverageTable>,
        backtrack_class_def: Link16<ClassDef>,
        input_class_def: Link16<ClassDef>,
        lookahead_class_def: Link16<ClassDef>,
        chained_class_seq_rule_set_count: u16,
        chained_class_seq_rule_sets: Vec<Link16<ChainedSequenceRuleSet>>,
    },
    Format3 {
        backtrack_glyph_count: u16,
        backtrack_coverages: Vec<Link16<CoverageTable>>,
        input_glyph_count: u16,
        input_coverages: Vec<Link16<CoverageTable>>,
        lookahead_glyph_count: u16,
        lookahead_coverages: Vec<Link16<CoverageTable>>,
        seq_lookup_count: u16,
        seq_lookup_records: Vec<SequenceLookupRecord>,
    },
}

/// Mathematical form of `ChainedSequenceContextData`.
pub enum SpecChainedSequenceContextData {
    Format1 {
        coverage: Link16<SpecCoverageTable>,
        chained_seq_rule_set_count: u16,
        chained_seq_rule_sets: Seq<Link16<SpecChainedSequenceRuleSet>>,
    },
    Format2 {
        coverage: Link16<SpecCoverageTable>,
        backtrack_class_def: Link16<SpecClassDef>,
        input_class_def: Link16<SpecClassDef>,
        lookahead_class_def: Link16<SpecClassDef>,
        chained_class_seq_rule_set_count: u16,
        chained_class_seq_rule_sets: Seq<Link16<SpecChainedSequenceRuleSet>>,
    },
    Format3 {
        backtrack_glyph_count: u16,
        backtrack_coverages: Seq<Link16<SpecCoverageTable>>,
        input_glyph_count: u16,
        input_coverages: Seq<Link16<SpecCoverageTable>>,
        lookahead_glyph_count: u16,
        lookahead_coverages: Seq<Link16<SpecCoverageTable>>,
        seq_lookup_count: u16,
        seq_lookup_records: Seq<SequenceLookupRecord>,
    },
}

/// A chained sequence context subtable.
#[derive(Clone, Debug, PartialEq, Eq)]
pub struct ChainedSequenceContext {
    pub format: u16,
    pub subst: ChainedSequenceContextData,
}

/// Mathematical form of `ChainedSequenceContext`.
pub struct SpecChainedSequenceContext {
    pub format: u16,
    pub subst: SpecChainedSequenceContextData,
}

impl View for ChainedSequenceContext {
    type V = SpecChainedSequenceContext;

    open spec fn view(&self) -> SpecChainedSequenceContext {
        SpecChainedSequenceContext {
            format: self.format,
            subst: match &self.subst {
                ChainedSequenceContextData::Format1 {
                    coverage,
                    chained_seq_rule_set_count,
                    chained_seq_rule_sets,
                } => SpecChainedSequenceContextData::Format1 {
                    coverage: coverage@,
                    chained_seq_rule_set_count: *chained_seq_rule_set_count,
                    chained_seq_rule_sets: chained_rule_sets_view(chained_seq_rule_sets@),
                },
                ChainedSequenceContextData::Format2 {
                    coverage,
                    backtrack_class_def,
                    input_class_def,
                    lookahead_class_def,
                    chained_class_seq_rule_set_count,
                    chained_class_seq_rule_sets,
                } => SpecChainedSequenceContextData::Format2 {
                    coverage: coverage@,
                    backtrack_class_def: backtrack_class_def@,
                    input_class_def: input_class_def@,
                    lookahead_class_def: lookahead_class_def@,
                    chained_class_seq_rule_set_count: *chained_class_seq_rule_set_count,
                    chained_class_seq_rule_sets: chained_rule_sets_view(
                        chained_class_seq_rule_sets@,
                    ),
                },
                ChainedSequenceContextData::Format3 {
                    backtrack_glyph_count,
                    backtrack_coverages,
                    input_glyph_count,
                    input_coverages,
                    lookahead_glyph_count,
                    lookahead_coverages,
                    seq_lookup_count,
                    seq_lookup_records,
                } => SpecChainedSequenceContextData::Format3 {
                    backtrack_glyph_count: *backtrack_glyph_count,
                    backtrack_coverages: coverages_view(backtrack_coverages@),
                    input_glyph_count: *input_glyph_count,
                    input_coverages: coverages_view(input_coverages@),
                    lookahead_glyph_count: *lookahead_glyph_count,
                    lookahead_coverages: coverages_view(lookahead_coverages@),
                    seq_lookup_count: *seq_lookup_count,
                    seq_lookup_records: seq_lookup_records@,
                },
            },
        }
    }
}

/// The format 3 body of a chained sequence context at `p`: counted coverage
/// offsets for the backtrack, input and lookahead glyphs, then the lookups.
pub open spec fn spec_chained_format3(t: Seq<u8>, p: int) -> Option<
    (SpecChainedSequenceContextData, int),
> {
    if !avail(t, p + 2, 2) {
        None
    } else {
        let b = u16_at(t, p + 2);
        let q2 = p + 4 + 2 * b;
        match spec_coverage_links(t, p, p + 4, b as int) {
            None => None,
            Some(back) => if !avail(t, q2, 2) {
                None
            } else {
                let ic = u16_at(t, q2);
                let q4 = q2 + 2 + 2 * ic;
                match spec_coverage_links(t, p, q2 + 2, ic as int) {
                    None => None,
                    Some(input) => if !avail(t, q4, 2) {
                        None
                    } else {
                        let la = u16_at(t, q4);
                        let q6 = q4 + 2 + 2 * la;
                        match spec_coverage_links(t, p, q4 + 2, la as int) {
                            None => None,
                            Some(ahead) => if avail(t, q6, 2) && avail(t, q6 + 2, 4 * u16_at(t, q6)) {
                                let n = u16_at(t, q6);
                                Some((SpecChainedSequenceContextData::Format3 {
                                    backtrack_glyph_count: b,
                                    backtrack_coverages: back,
                                    input_glyph_count: ic,
                                    input_coverages: input,
                                    lookahead_glyph_count: la,
                                    lookahead_coverages: ahead,
                                    seq_lookup_count: n,
                                    seq_lookup_records: lookup_records_at(t, q6 + 2, n as int),
                                }, q6 + 2 + 4 * n))
                            } else {
                                None
                            },
                        }
                    },
                }
            },
        }
    }
}

/// The chained sequence context subtable at `p`, of format 1, 2 or 3;
/// other formats fail.
pub open spec fn spec_chained_sequence_context(t: Seq<u8>, p: int) -> Option<
    (SpecChainedSequenceContext, int),
> {
    if !avail(t, p, 2) {
        None
    } else {
        let f = u16_at(t, p);
        if f == 1 {
            match spec_coverage_link(t, p, p + 2) {
                None => None,
                Some(cov) => if !avail(t, p + 4, 2) {
                    None
                } else {
                    let n = u16_at(t, p + 4);
                    match spec_chained_rule_sets(t, p, p + 6, n as int) {
                        None => None,
                        Some(sets) => Some((SpecChainedSequenceContext {
                            format: 1,
                            subst: SpecChainedSequenceContextData::Format1 {
                                coverage: cov,
                                chained_seq_rule_set_count: n,
                                chained_seq_rule_sets: sets,
                            },
                        }, p + 6 + 2 * n)),
                    }
                },
            }
        } else if f == 2 {
            match (
                spec_coverage_link(t, p, p + 2),
                spec_class_def_link(t, p, p + 4),
                spec_class_def_link(t, p, p + 6),
                spec_class_def_link(t, p, p + 8),
            ) {
                (Some(cov), Some(bc), Some(ic), Some(lc)) => if !avail(t, p + 10, 2) {
                    None
                } else {
                    let n = u16_at(t, p + 10);
                    match spec_chained_rule_sets(t, p, p + 12, n as int) {
                        None => None,
                        Some(sets) => Some((SpecChainedSequenceContext {
                            format: 2,
                            subst: SpecChainedSequenceContextData::Format2 {
                                coverage: cov,
                                backtrack_class_def: bc,
                                input_class_def: ic,
                                lookahead_class_def: lc,
                                chained_class_seq_rule_set_count: n,
                                chained_class_seq_rule_sets: sets,
                            },
                        }, p + 12 + 2 * n)),
                    }
                },
                _ => None,
            }
        } else if f == 3 {
            match spec_chained_format3(t, p) {
                None => None,
                Some((d, e)) => Some((SpecChainedSequenceContext { format: 3, subst: d }, e)),
            }
        } else {
            None
        }
    }
}

fn chained_format3(t: &[u8], p: usize) -> (r: Option<(ChainedSequenceContextData, usize)>)
    requires
        avail(t@, p as int, 2),
        t@.len() <= usize::MAX,
    ensures
        match r {
            Some((d, e)) => spec_chained_format3(t@, p as int) == Some((
                ChainedSequenceContext { format: 3, subst: d }@.subst,
                e as int,
            )),
            None => spec_chained_format3(t@, p as int) is None,
        },
{
    if !has_bytes(t, p + 2, 2) {
        return None;
    }
    let b = get_u16be(t, p + 2);
    let back = match coverage_links(t, p, p + 4, b) {
        Some(v) => v,
        None => return None,
    };
    let q2 = p + 4 + 2 * (b as usize);
    if !has_bytes(t, q2, 2) {
        return None;
    }
    let ic = get_u16be(t, q2);
    let input = match coverage_links(t, p, q2 + 2, ic) {
        Some(v) => v,
        None => return None,
    };
    let q4 = q2 + 2 + 2 * (ic as usize);
    if !has_bytes(t, q4, 2) {
        return None;
    }
    let la = get_u16be(t, q4);
    let ahead = match coverage_links(t, p, q4 + 2, la) {
        Some(v) => v,
        None => return None,
    };
    let q6 = q4 + 2 + 2 * (la as usize);
    if !has_bytes(t, q6, 2) {
        return None;
    }
    let n = get_u16be(t, q6);
    if !has_bytes(t, q6 + 2, 4 * (n as usize)) {
        return None;
    }
    let d = ChainedSequenceContextData::Format3 {
        backtrack_glyph_count: b,
        backtrack_coverages: back,
        input_glyph_count: ic,
        input_coverages: input,
        lookahead_glyph_count: la,
        lookahead_coverages: ahead,
        seq_lookup_count: n,
        seq_lookup_records: read_lookup_records(t, q6 + 2, n as usize),
    };
    Some((d, q6 + 2 + 4 * (n as usize)))
}

/// Parses the chained sequence context subtable at `p`.
pub fn chained_sequence_context(t: &[u8], p: usize) -> (r: Option<(ChainedSequenceContext, usize)>)
    ensures
        match r {
            Some((c, e)) => spec_chained_sequence_context(t@, p as int) == Some((c@, e as int)),
            None => spec_chained_sequence_context(t@, p as int) is None,
        },
{
    if !has_bytes(t, p, 2) {
        return None;
    }
    let f = get_u16be(t, p);
    if f == 1 {
        let cov = match coverage_link(t, p, p + 2) {
            Some(c) => c,
            None => return None,
        };
        if !has_bytes(t, p + 4, 2) {
            return None;
        }
        let n = get_u16be(t, p + 4);
        let sets = match chained_rule_sets(t, p, p + 6, n) {
            Some(v) => v,
            None => return None,
        };
        let d = ChainedSequenceContextData::Format1 {
            coverage: cov,
            chained_seq_rule_set_count: n,
            chained_seq_rule_sets: sets,
        };
        Some((ChainedSequenceContext { format: 1, subst: d }, p + 6 + 2 * (n as usize)))
    } else if f == 2 {
        let cov = match coverage_link(t, p, p + 2) {
            Some(c) => c,
            None => return None,
        };
        let bc = match class_def_link(t, p, p + 4) {
            Some(c) => c,
            None => return None,
        };
        let ic = match class_def_link(t, p, p + 6) {
            Some(c) => c,
            None => return None,
        };
        let lc = match class_def_link(t, p, p + 8) {
            Some(c) => c,
            None => return None,
        };
        if !has_bytes(t, p + 10, 2) {
            return None;
        }
        let n = get_u16be(t, p + 10);
        let sets = match chained_rule_sets(t, p, p + 12, n) {
            Some(v) => v,
            None => return None,
        };
        let d = ChainedSequenceContextData::Format2 {
            coverage: cov,
            backtrack_class_def: bc,
            input_class_def: ic,
            lookahead_class_def: lc,
            chained_class_seq_rule_set_count: n,
            chained_class_seq_rule_sets: sets,
        };
        Some((ChainedSequenceContext { format: 2, subst: d }, p + 12 + 2 * (n as usize)))
    } else if f == 3 {
        match chained_format3(t, p) {
            None => None,
            Some((d, e)) => Some((ChainedSequenceContext { format: 3, subst: d }, e)),
        }
    } else {
        None
    }
}


/// Contextual rules hold what their counts say: a sequence rule has at
/// least one input glyph and lists all but the first, and as many lookup
/// records as it counts; a chained rule lists its backtrack glyphs, its
/// input glyphs but the first (at least one), its lookahead glyphs and its
/// lookup records, each as many as counted; a rule set holds as many rules
/// as it counts.
pub proof fn lemma_context_rules(t: Seq<u8>, y: int)
    ensures
        spec_sequence_rule(t, y) matches Some(r) ==> r.glyph_count >= 1 && r.input_sequence.len()
            == r.glyph_count - 1 && r.seq_lookup_records.len() == r.seq_lookup_count,
        spec_chained_rule(t, y) matches Some(r) ==> r.backtrack_sequence.len() == r.backtrack_glyph_count
            && r.input_glyph_count >= 1 && r.input_sequence.len() == r.input_glyph_count - 1
            && r.lookahead_sequence.len() == r.lookahead_glyph_count && r.seq_lookup_records.len()
            == r.seq_lookup_count,
        spec_rule_set(t, y) matches Some(s) ==> s.rules.len() == s.rule_count,
        spec_chained_rule_set(t, y) matches Some(s) ==> s.chained_seq_rules.len() == s.chained_seq_rule_count,
{
}


/// Sequence lookup records are pairs of words, four bytes each: the
/// sequence index, then the lookup list index.
pub proof fn lemma_lookup_record_fields(t: Seq<u8>, p: int, n: int)
    requires
        0 <= p && 0 <= n && p + 4 * n <= t.len(),
    ensures
        forall|i: int|
            0 <= i < n ==> (#[trigger] lookup_records_at(t, p, n)[i]).sequence_index == crate::bytes::word_at(t, p + 4 * i)
                && lookup_records_at(t, p, n)[i].lookup_list_index == crate::bytes::word_at(t, p + 4 * i + 2),
{
    assert forall|i: int| 0 <= i < n implies (#[trigger] lookup_records_at(t, p, n)[i]).sequence_index == crate::bytes::word_at(
        t,
        p + 4 * i,
    ) && lookup_records_at(t, p, n)[i].lookup_list_index == crate::bytes::word_at(t, p + 4 * i + 2) by {
        crate::bytes::lemma_readers_spell(t, p + 4 * i);
        crate::bytes::lemma_readers_spell(t, p + 4 * i + 2);
    }
}

/// Rules read their own bytes. A sequence rule at `y` holds its glyph
/// count and lookup count words at `y` and `y + 2`, the input glyphs but the
/// first from `y + 4`, then its four-byte lookup records. A chained rule
/// holds, one after the other, the backtrack count and glyphs from `y`, the
/// input count and glyphs but the first, the lookahead count and glyphs, and
/// the lookup count and records.
pub proof fn lemma_rule_fields(t: Seq<u8>, y: int)
    ensures
        spec_sequence_rule(t, y) matches Some(r) ==> {
            let g = r.glyph_count as int;
            let q = y + 4 + 2 * (g - 1);
            &&& g == crate::bytes::word_at(t, y)
            &&& r.seq_lookup_count == crate::bytes::word_at(t, y + 2)
            &&& forall|i: int| 0 <= i < g - 1 ==> #[trigger] r.input_sequence[i] == crate::bytes::word_at(t, y + 4 + 2 * i)
            &&& forall|i: int|
                0 <= i < r.seq_lookup_count ==> (#[trigger] r.seq_lookup_records[i]).sequence_index
                    == crate::bytes::word_at(t, q + 4 * i) && r.seq_lookup_records[i].lookup_list_index
                    == crate::bytes::word_at(t, q + 4 * i + 2)
        },
        spec_chained_rule(t, y) matches Some(r) ==> {
            let b = r.backtrack_glyph_count as int;
            let p2 = y + 2 + 2 * b;
            let ic = r.input_glyph_count as int;
            let p4 = p2 + 2 * ic;
            let la = r.lookahead_glyph_count as int;
            let p6 = p4 + 2 + 2 * la;
            &&& b == crate::bytes::word_at(t, y)
            &&& forall|i: int| 0 <= i < b ==> #[trigger] r.backtrack_sequence[i] == crate::bytes::word_at(t, y + 2 + 2 * i)
            &&& ic == crate::bytes::word_at(t, p2)
            &&& forall|i: int| 0 <= i < ic - 1 ==> #[trigger] r.input_sequence[i] == crate::bytes::word_at(t, p2 + 2 + 2 * i)
            &&& la == crate::bytes::word_at(t, p4)
            &&& forall|i: int| 0 <= i < la ==> #[trigger] r.lookahead_sequence[i] == crate::bytes::word_at(t, p4 + 2 + 2 * i)
            &&& r.seq_lookup_count == crate::bytes::word_at(t, p6)
            &&& forall|i: int|
                0 <= i < r.seq_lookup_count ==> (#[trigger] r.seq_lookup_records[i]).sequence_index
                    == crate::bytes::word_at(t, p6 + 2 + 4 * i) && r.seq_lookup_records[i].lookup_list_index
                    == crate::bytes::word_at(t, p6 + 4 + 4 * i)
        },
{
    if let Some(r) = spec_sequence_rule(t, y) {
        let g = r.glyph_count as int;
        let q = y + 4 + 2 * (g - 1);
        crate::bytes::lemma_readers_spell(t, y);
        crate::bytes::lemma_readers_spell(t, y + 2);
        assert forall|i: int| 0 <= i < g - 1 implies #[trigger] r.input_sequence[i] == crate::bytes::word_at(t, y + 4 + 2 * i) by {
            crate::bytes::lemma_readers_spell(t, y + 4 + 2 * i);
        }
        lemma_lookup_record_fields(t, q, r.seq_lookup_count as int);
    }
    if let Some(r) = spec_chained_rule(t, y) {
        let b = r.backtrack_glyph_count as int;
        let p2 = y + 2 + 2 * b;
        let ic = r.input_glyph_count as int;
        let p4 = p2 + 2 * ic;
        let la = r.lookahead_glyph_count as int;
        let p6 = p4 + 2 + 2 * la;
        crate::bytes::lemma_readers_spell(t, y);
        crate::bytes::lemma_readers_spell(t, p2);
        crate::bytes::lemma_readers_spell(t, p4);
        crate::bytes::lemma_readers_spell(t, p6);
        assert forall|i: int| 0 <= i < b implies #[trigger] r.backtrack_sequence[i] == crate::bytes::word_at(t, y + 2 + 2 * i) by {
            crate::bytes::lemma_readers_spell(t, y + 2 + 2 * i);
        }
        assert forall|i: int| 0 <= i < ic - 1 implies #[trigger] r.input_sequence[i] == crate::bytes::word_at(t, p2 + 2 + 2 * i) by {
            crate::bytes::lemma_readers_spell(t, p2 + 2 + 2 * i);
        }
        assert forall|i: int| 0 <= i < la implies #[trigger] r.lookahead_sequence[i] == crate::bytes::word_at(t, p4 + 2 + 2 * i) by {
            crate::bytes::lemma_readers_spell(t, p4 + 2 + 2 * i);
        }
        lemma_lookup_record_fields(t, p6 + 2, r.seq_lookup_count as int);
    }
}

/// A chained context of format 2 holds the backtrack, input and lookahead
/// class definition offsets as the words at `p + 4`, `p + 6` and `p + 8`
/// and the rule set count at `p + 10`; one of format 3 holds the backtrack
/// count at `p + 2` and that many coverage offset words, then the input
/// count and offsets, then the lookahead count and offsets.
pub proof fn lemma_chained_context_fields(t: Seq<u8>, p: int)
    ensures
        spec_chained_sequence_context(t, p) matches Some((c, _)) ==> {
            &&& c.format == crate::bytes::word_at(t, p)
            &&& (c.subst matches SpecChainedSequenceContextData::Format2 {
                backtrack_class_def,
                input_class_def,
                lookahead_class_def,
                chained_class_seq_rule_set_count,
                ..
            } ==> backtrack_class_def.offset == crate::bytes::word_at(t, p + 4) && input_class_def.offset
                == crate::bytes::word_at(t, p + 6) && lookahead_class_def.offset == crate::bytes::word_at(t, p + 8)
                && chained_class_seq_rule_set_count == crate::bytes::word_at(t, p + 10))
            &&& (c.subst matches SpecChainedSequenceContextData::Format3 {
                backtrack_glyph_count,
                backtrack_coverages,
                input_glyph_count,
                input_coverages,
                lookahead_glyph_count,
                lookahead_coverages,
                ..
            } ==> {
                let b = backtrack_glyph_count as int;
                let q2 = p + 4 + 2 * b;
                let ic = input_glyph_count as int;
                let q4 = q2 + 2 + 2 * ic;
                let la = lookahead_glyph_count as int;
                &&& b == crate::bytes::word_at(t, p + 2)
                &&& forall|i: int| 0 <= i < b ==> (#[trigger] backtrack_coverages[i]).offset == crate::bytes::word_at(t, p + 4 + 2 * i)
                &&& ic == crate::bytes::word_at(t, q2)
                &&& forall|i: int| 0 <= i < ic ==> (#[trigger] input_coverages[i]).offset == crate::bytes::word_at(t, q2 + 2 + 2 * i)
                &&& la == crate::bytes::word_at(t, q4)
                &&& forall|i: int| 0 <= i < la ==> (#[trigger] lookahead_coverages[i]).offset == crate::bytes::word_at(t, q4 + 2 + 2 * i)
            })
        },
{
    if let Some((c, _)) = spec_chained_sequence_context(t, p) {
        crate::bytes::lemma_readers_spell(t, p);
        if c.format == 2 {
            crate::bytes::lemma_readers_spell(t, p + 4);
            crate::bytes::lemma_readers_spell(t, p + 6);
            crate::bytes::lemma_readers_spell(t, p + 8);
            crate::bytes::lemma_readers_spell(t, p + 10);
        }
        if c.format == 3 {
            let b = u16_at(t, p + 2) as int;
            let q2 = p + 4 + 2 * b;
            let ic = u16_at(t, q2) as int;
            let q4 = q2 + 2 + 2 * ic;
            let la = u16_at(t, q4) as int;
            crate::bytes::lemma_readers_spell(t, p + 2);
            crate::bytes::lemma_readers_spell(t, q2);
            crate::bytes::lemma_readers_spell(t, q4);
            assert forall|i: int| 0 <= i < b implies #[trigger] spec_coverage_link(t, p, p + 4 + 2 * i) is Some && (
            spec_coverage_link(t, p, p + 4 + 2 * i).unwrap()).offset == crate::bytes::word_at(t, p + 4 + 2 * i) by {
                crate::bytes::lemma_readers_spell(t, p + 4 + 2 * i);
            }
            assert forall|i: int| 0 <= i < ic implies #[trigger] spec_coverage_link(t, p, q2 + 2 + 2 * i) is Some && (
            spec_coverage_link(t, p, q2 + 2 + 2 * i).unwrap()).offset == crate::bytes::word_at(t, q2 + 2 + 2 * i) by {
                crate::bytes::lemma_readers_spell(t, q2 + 2 + 2 * i);
            }
            assert forall|i: int| 0 <= i < la implies #[trigger] spec_coverage_link(t, p, q4 + 2 + 2 * i) is Some && (
            spec_coverage_link(t, p, q4 + 2 + 2 * i).unwrap()).offset == crate::bytes::word_at(t, q4 + 2 + 2 * i) by {
                crate::bytes::lemma_readers_spell(t, q4 + 2 + 2 * i);
            }
        }
    }
}

/// A sequence context holds its format word at `p` and its coverage offset
/// at `p + 2` in formats 1 and 2; format 1 then the rule set count at
/// `p + 4`, format 2 the class definition offset at `p + 4` and the count at
/// `p + 6`. Format 3 holds the glyph count and lookup count words at `p + 2`
/// and `p + 4`, that many coverage offset words from `p + 6`, then the
/// lookup records.
pub proof fn lemma_sequence_context_fields(t: Seq<u8>, p: int)
    ensures
        spec_sequence_context(t, p) matches Some((c, _)) ==> {
            &&& c.format == crate::bytes::word_at(t, p)
            &&& (c.subst matches SpecSequenceContextData::Format1 { coverage, seq_rule_set_count, .. }
                ==> coverage.offset == crate::bytes::word_at(t, p + 2) && seq_rule_set_count
                == crate::bytes::word_at(t, p + 4))
            &&& (c.subst matches SpecSequenceContextData::Format2 {
                coverage,
                class_def,
                class_seq_rule_set_count,
                ..
            } ==> coverage.offset == crate::bytes::word_at(t, p + 2) && class_def.offset
                == crate::bytes::word_at(t, p + 4) && class_seq_rule_set_count == crate::bytes::word_at(t, p + 6))
            &&& (c.subst matches SpecSequenceContextData::Format3 {
                glyph_count,
                seq_lookup_count,
                coverage_tables,
                seq_lookup_records,
            } ==> {
                let r = p + 6 + 2 * glyph_count;
                &&& glyph_count == crate::bytes::word_at(t, p + 2)
                &&& seq_lookup_count == crate::bytes::word_at(t, p + 4)
                &&& forall|i: int|
                    0 <= i < glyph_count ==> (#[trigger] coverage_tables[i]).offset == crate::bytes::word_at(t, p + 6 + 2 * i)
                &&& forall|i: int|
                    0 <= i < seq_lookup_count ==> (#[trigger] seq_lookup_records[i]).sequence_index
                        == crate::bytes::word_at(t, r + 4 * i) && seq_lookup_records[i].lookup_list_index
                        == crate::bytes::word_at(t, r + 4 * i + 2)
            })
        },
{
    if let Some((c, _)) = spec_sequence_context(t, p) {
        crate::bytes::lemma_readers_spell(t, p);
        crate::bytes::lemma_readers_spell(t, p + 2);
        crate::bytes::lemma_readers_spell(t, p + 4);
        if c.format == 2 {
            crate::bytes::lemma_readers_spell(t, p + 6);
        }
        if c.format == 3 {
            let g = u16_at(t, p + 2) as int;
            let n = u16_at(t, p + 4) as int;
            assert forall|i: int| 0 <= i < g implies #[trigger] spec_coverage_link(t, p, p + 6 + 2 * i) is Some && (
            spec_coverage_link(t, p, p + 6 + 2 * i).unwrap()).offset == crate::bytes::word_at(t, p + 6 + 2 * i) by {
                crate::bytes::lemma_readers_spell(t, p + 6 + 2 * i);
            }
            lemma_lookup_record_fields(t, p + 6 + 2 * g, n);
        }
    }
}

} // verus!
