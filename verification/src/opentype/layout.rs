//! Common layout tables (coverage and class definitions) and the glyph
//! substitution lookup subtables. A subtable's offsets are relative to the
//! subtable's own start.
use vstd::prelude::*;
use crate::bytes::{agrees, as_i16, avail, get_u16be, has_bytes, to_i16, u16_at};
use crate::opentype::cmap::{read_u16s, u16s_at};
use crate::opentype::links::{Link16, offset16_mandatory, spec_offset16};

verus! {

/// A range of glyph ids with a value: the coverage index of its first
/// glyph in a coverage table, the class of its glyphs in a class
/// definition.
#[derive(Clone, Copy, Debug, PartialEq, Eq)]
pub struct RangeRecord {
    pub start_glyph_id: u16,
    pub end_glyph_id: u16,
    pub value: u16,
}

/// The range record stored at `p`.
pub open spec fn range_at(s: Seq<u8>, p: int) -> RangeRecord {
    RangeRecord {
        start_glyph_id: u16_at(s, p),
        end_glyph_id: u16_at(s, p + 2),
        value: u16_at(s, p + 4),
    }
}

/// `n` range records at `p`.
pub open spec fn ranges_at(s: Seq<u8>, p: int, n: int) -> Seq<RangeRecord> {
    Seq::new(n as nat, |i: int| range_at(s, p + 6 * i))
}

fn read_ranges(s: &[u8], p: usize, n: usize) -> (v: Vec<RangeRecord>)
    requires
        avail(s@, p as int, 6 * n),
    ensures
        v@ == ranges_at(s@, p as int, n as int),
{
    let _len = s.len();
    let mut v: Vec<RangeRecord> = Vec::new();
    let mut i: usize = 0;
    while i < n
        invariant
            0 <= i <= n,
            avail(s@, p as int, 6 * n),
            s@.len() <= usize::MAX,
            v@ =~= Seq::new(i as nat, |j: int| range_at(s@, p + 6 * j)),
        decreases n - i,
    {
        let q = p + 6 * i;
        v.push(
            RangeRecord {
                start_glyph_id: get_u16be(s, q),
                end_glyph_id: get_u16be(s, q + 2),
                value: get_u16be(s, q + 4),
            },
        );
        i = i + 1;
        assert(v@ =~= Seq::new(i as nat, |j: int| range_at(s@, p + 6 * j)));
    }
    v
}

/// A coverage table: the glyphs a lookup applies to.
#[derive(Clone, Debug, PartialEq, Eq)]
pub enum CoverageTable {
    Format1 { glyph_count: u16, glyph_array: Vec<u16> },
    Format2 { range_count: u16, range_records: Vec<RangeRecord> },
}

/// Mathematical form of `CoverageTable`.
pub enum SpecCoverageTable {
    Format1 { glyph_count: u16, glyph_array: Seq<u16> },
    Format2 { range_count: u16, range_records: Seq<RangeRecord> },
}

impl View for CoverageTable {
    type V = SpecCoverageTable;

    open spec fn view(&self) -> SpecCoverageTable {
        match self {
            CoverageTable::Format1 { glyph_count, glyph_array } => SpecCoverageTable::Format1 {
                glyph_count: *glyph_count,
                glyph_array: glyph_array@,
            },
            CoverageTable::Format2 { range_count, range_records } => SpecCoverageTable::Format2 {
                range_count: *range_count,
                range_records: range_records@,
            },
        }
    }
}

/// A coverage table at `x`: format 1 lists glyph ids, format 2 lists glyph
/// ranges; other formats fail.
pub open spec fn spec_coverage_table(s: Seq<u8>, x: int) -> Option<(SpecCoverageTable, int)> {
    if !avail(s, x, 4) {
        None
    } else {
        let f = u16_at(s, x);
        let n = u16_at(s, x + 2);
        if f == 1 && avail(s, x + 4, 2 * n) {
            Some((SpecCoverageTable::Format1 {
                glyph_count: n,
                glyph_array: u16s_at(s, x + 4, n as int),
            }, x + 4 + 2 * n))
        } else if f == 2 && avail(s, x + 4, 6 * n) {
            Some((SpecCoverageTable::Format2 {
                range_count: n,
                range_records: ranges_at(s, x + 4, n as int),
            }, x + 4 + 6 * n))
        } else {
            None
        }
    }
}

/// Parses a coverage table at `x`.
pub fn coverage_table(s: &[u8], x: usize) -> (r: Option<(CoverageTable, usize)>)
    ensures
        agrees(r, spec_coverage_table(s@, x as int)),
{
    if !has_bytes(s, x, 4) {
        return None;
    }
    let f = get_u16be(s, x);
    let n = get_u16be(s, x + 2) as usize;
    if f == 1 && has_bytes(s, x + 4, 2 * n) {
        let v = read_u16s(s, x + 4, n);
        Some((CoverageTable::Format1 { glyph_count: n as u16, glyph_array: v }, x + 4 + 2 * n))
    } else if f == 2 && has_bytes(s, x + 4, 6 * n) {
        let v = read_ranges(s, x + 4, n);
        Some((CoverageTable::Format2 { range_count: n as u16, range_records: v }, x + 4 + 6 * n))
    } else {
        None
    }
}

/// A class definition table: the class of each glyph.
#[derive(Clone, Debug, PartialEq, Eq)]
pub enum ClassDef {
    Format1 { start_glyph_id: u16, glyph_count: u16, class_value_array: Vec<u16> },
    Format2 { class_range_count: u16, class_range_records: Vec<RangeRecord> },
}

/// Mathematical form of `ClassDef`.
pub enum SpecClassDef {
    Format1 { start_glyph_id: u16, glyph_count: u16, class_value_array: Seq<u16> },
    Format2 { class_range_count: u16, class_range_records: Seq<RangeRecord> },
}

impl View for ClassDef {
    type V = SpecClassDef;

    open spec fn view(&self) -> SpecClassDef {
        match self {
            ClassDef::Format1 { start_glyph_id, glyph_count, class_value_array } => {
                SpecClassDef::Format1 {
                    start_glyph_id: *start_glyph_id,
                    glyph_count: *glyph_count,
                    class_value_array: class_value_array@,
                }
            },
            ClassDef::Format2 { class_range_count, class_range_records } => {
                SpecClassDef::Format2 {
                    class_range_count: *class_range_count,
                    class_range_records: class_range_records@,
                }
            },
        }
    }
}

/// A class definition at `x`: format 1 gives the classes of consecutive
/// glyphs from a start glyph, format 2 gives classes by glyph ranges; other
/// formats fail.
pub open spec fn spec_class_def(s: Seq<u8>, x: int) -> Option<(SpecClassDef, int)> {
    if !avail(s, x, 4) {
        None
    } else {
        let f = u16_at(s, x);
        if f == 1 {
            if avail(s, x + 2, 4) && avail(s, x + 6, 2 * u16_at(s, x + 4)) {
                let n = u16_at(s, x + 4);
                Some((SpecClassDef::Format1 {
                    start_glyph_id: u16_at(s, x + 2),
                    glyph_count: n,
                    class_value_array: u16s_at(s, x + 6, n as int),
                }, x + 6 + 2 * n))
            } else {
                None
            }
        } else if f == 2 {
            let n = u16_at(s, x + 2);
            if avail(s, x + 4, 6 * n) {
                Some((SpecClassDef::Format2 {
                    class_range_count: n,
                    class_range_records: ranges_at(s, x + 4, n as int),
                }, x + 4 + 6 * n))
            } else {
                None
            }
        } else {
            None
        }
    }
}

/// Parses a class definition at `x`.
pub fn class_def(s: &[u8], x: usize) -> (r: Option<(ClassDef, usize)>)
    ensures
        agrees(r, spec_class_def(s@, x as int)),
{
    if !has_bytes(s, x, 4) {
        return None;
    }
    let f = get_u16be(s, x);
    if f == 1 {
        if !has_bytes(s, x + 2, 4) {
            return None;
        }
        let n = get_u16be(s, x + 4) as usize;
        if !has_bytes(s, x + 6, 2 * n) {
            return None;
        }
        let v = read_u16s(s, x + 6, n);
        let c = ClassDef::Format1 {
            start_glyph_id: get_u16be(s, x + 2),
            glyph_count: n as u16,
            class_value_array: v,
        };
        Some((c, x + 6 + 2 * n))
    } else if f == 2 {
        let n = get_u16be(s, x + 2) as usize;
        if !has_bytes(s, x + 4, 6 * n) {
            return None;
        }
        let v = read_ranges(s, x + 4, n);
        Some((ClassDef::Format2 { class_range_count: n as u16, class_range_records: v }, x + 4 + 6 * n))
    } else {
        None
    }
}

/// The coverage offset at `q`, relative to `base`, with the coverage table
/// it leads to.
pub open spec fn spec_coverage_link(s: Seq<u8>, base: int, q: int) -> Option<
    Link16<SpecCoverageTable>,
> {
    match spec_offset16(s, base, q) {
        None => None,
        Some(((off, None), _)) => Some(Link16 { offset: off, link: None }),
        Some(((off, Some(x)), _)) => match spec_coverage_table(s, x) {
            Some((c, _)) => Some(Link16 { offset: off, link: Some(c) }),
            None => None,
        },
    }
}

/// Parses the coverage offset at `q`, relative to `base`, and the coverage
/// table it leads to.
pub fn coverage_link(s: &[u8], base: usize, q: usize) -> (r: Option<Link16<CoverageTable>>)
    ensures
        match r {
            Some(l) => spec_coverage_link(s@, base as int, q as int) == Some(l@),
            None => spec_coverage_link(s@, base as int, q as int) is None,
        },
{
    let (off, target, _) = match offset16_mandatory(s, base, q) {
        Some(x) => x,
        None => return None,
    };
    match target {
        None => Some(Link16 { offset: off, link: None }),
        Some(x) => match coverage_table(s, x) {
            Some((c, _)) => Some(Link16 { offset: off, link: Some(c) }),
            None => None,
        },
    }
}

/// The body of a single substitution subtable, by format.
#[derive(Clone, Debug, PartialEq, Eq)]
pub enum SingleSubstData {
    Format1 { coverage: Link16<CoverageTable>, delta_glyph_id: i16 },
    Format2 { coverage: Link16<CoverageTable>, glyph_count: u16, substitute_glyph_ids: Vec<u16> },
}

/// Mathematical form of `SingleSubstData`.
pub enum SpecSingleSubstData {
    Format1 { coverage: Link16<SpecCoverageTable>, delta_glyph_id: i16 },
    Format2 {
        coverage: Link16<SpecCoverageTable>,
        glyph_count: u16,
        substitute_glyph_ids: Seq<u16>,
    },
}

/// A single substitution subtable.
#[derive(Clone, Debug, PartialEq, Eq)]
pub struct SingleSubst {
    pub subst_format: u16,
    pub subst: SingleSubstData,
}

/// Mathematical form of `SingleSubst`.
pub struct SpecSingleSubst {
    pub subst_format: u16,
    pub subst: SpecSingleSubstData,
}

impl View for SingleSubst {
    type V = SpecSingleSubst;

    open spec fn view(&self) -> SpecSingleSubst {
        SpecSingleSubst {
            subst_format: self.subst_format,
            subst: match &self.subst {
                SingleSubstData::Format1 { coverage, delta_glyph_id } => {
                    SpecSingleSubstData::Format1 {
                        coverage: coverage@,
                        delta_glyph_id: *delta_glyph_id,
                    }
                },
                SingleSubstData::Format2 { coverage, glyph_count, substitute_glyph_ids } => {
                    SpecSingleSubstData::Format2 {
                        coverage: coverage@,
                        glyph_count: *glyph_count,
                        substitute_glyph_ids: substitute_glyph_ids@,
                    }
                },
            },
        }
    }
}

/// A single substitution subtable at `p`: format 1 gives a delta added to
/// the covered glyph ids, format 2 one substitute per covered glyph; other
/// formats fail.
pub open spec fn spec_single_subst(s: Seq<u8>, p: int) -> Option<(SpecSingleSubst, int)> {
    if !avail(s, p, 2) {
        None
    } else {
        let f = u16_at(s, p);
        match spec_coverage_link(s, p, p + 2) {
            None => None,
            Some(cov) => {
                if f == 1 && avail(s, p + 4, 2) {
                    Some((SpecSingleSubst {
                        subst_format: 1,
                        subst: SpecSingleSubstData::Format1 {
                            coverage: cov,
                            delta_glyph_id: to_i16(u16_at(s, p + 4)),
                        },
                    }, p + 6))
                } else if f == 2 && avail(s, p + 4, 2) && avail(s, p + 6, 2 * u16_at(s, p + 4)) {
                    let n = u16_at(s, p + 4);
                    Some((SpecSingleSubst {
                        subst_format: 2,
                        subst: SpecSingleSubstData::Format2 {
                            coverage: cov,
                            glyph_count: n,
                            substitute_glyph_ids: u16s_at(s, p + 6, n as int),
                        },
                    }, p + 6 + 2 * n))
                } else {
                    None
                }
            },
        }
    }
}

/// Parses a single substitution subtable at `p`.
pub fn single_subst(s: &[u8], p: usize) -> (r: Option<(SingleSubst, usize)>)
    ensures
        agrees(r, spec_single_subst(s@, p as int)),
{
    if !has_bytes(s, p, 2) {
        return None;
    }
    let f = get_u16be(s, p);
    let cov = match coverage_link(s, p, p + 2) {
        Some(c) => c,
        None => return None,
    };
    if f == 1 && has_bytes(s, p + 4, 2) {
        let d = SingleSubstData::Format1 { coverage: cov, delta_glyph_id: as_i16(get_u16be(s, p + 4)) };
        Some((SingleSubst { subst_format: 1, subst: d }, p + 6))
    } else if f == 2 && has_bytes(s, p + 4, 2) {
        let n = get_u16be(s, p + 4) as usize;
        if !has_bytes(s, p + 6, 2 * n) {
            return None;
        }
        let d = SingleSubstData::Format2 {
            coverage: cov,
            glyph_count: n as u16,
            substitute_glyph_ids: read_u16s(s, p + 6, n),
        };
        Some((SingleSubst { subst_format: 2, subst: d }, p + 6 + 2 * n))
    } else {
        None
    }
}

/// A counted list of glyph ids: the substitutes of a multiple substitution
/// (a sequence table) or the alternates of an alternate substitution (an
/// alternate set).
#[derive(Clone, Debug, PartialEq, Eq)]
pub struct GlyphSequence {
    pub glyph_count: u16,
    pub glyph_ids: Vec<u16>,
}

/// Mathematical form of `GlyphSequence`.
pub struct SpecGlyphSequence {
    pub glyph_count: u16,
    pub glyph_ids: Seq<u16>,
}

impl View for GlyphSequence {
    type V = SpecGlyphSequence;

    open spec fn view(&self) -> SpecGlyphSequence {
        SpecGlyphSequence { glyph_count: self.glyph_count, glyph_ids: self.glyph_ids@ }
    }
}

/// The glyph sequence at `x`: a count and that many glyph ids (a count of
/// zero is tolerated).
pub open spec fn spec_glyph_sequence(s: Seq<u8>, x: int) -> Option<SpecGlyphSequence> {
    if avail(s, x, 2) && avail(s, x + 2, 2 * u16_at(s, x)) {
        Some(SpecGlyphSequence {
            glyph_count: u16_at(s, x),
            glyph_ids: u16s_at(s, x + 2, u16_at(s, x) as int),
        })
    } else {
        None
    }
}

/// Entry `i` of an array of offsets at `q` relative to `base`, with the
/// glyph sequence it leads to.
pub open spec fn sequence_link(s: Seq<u8>, base: int, q: int, i: int) -> Option<
    Link16<SpecGlyphSequence>,
> {
    match spec_offset16(s, base, q + 2 * i) {
        None => None,
        Some(((off, None), _)) => Some(Link16 { offset: off, link: None }),
        Some(((off, Some(x)), _)) => match spec_glyph_sequence(s, x) {
            Some(g) => Some(Link16 { offset: off, link: Some(g) }),
            None => None,
        },
    }
}

/// The views of a sequence of glyph-sequence links.
pub open spec fn sequences_view(v: Seq<Link16<GlyphSequence>>) -> Seq<Link16<SpecGlyphSequence>> {
    v.map_values(|l: Link16<GlyphSequence>| l@)
}

/// The `n` offsets at `q` relative to `base`, each with its glyph sequence.
pub open spec fn spec_sequence_links(s: Seq<u8>, base: int, q: int, n: int) -> Option<
    Seq<Link16<SpecGlyphSequence>>,
> {
    if 0 <= n && avail(s, q, 2 * n) && forall|i: int|
        0 <= i < n ==> #[trigger] sequence_link(s, base, q, i) is Some {
        Some(Seq::new(n as nat, |i: int| sequence_link(s, base, q, i).unwrap()))
    } else {
        None
    }
}

fn glyph_sequence(s: &[u8], x: usize) -> (r: Option<GlyphSequence>)
    ensures
        match r {
            Some(g) => spec_glyph_sequence(s@, x as int) == Some(g@),
            None => spec_glyph_sequence(s@, x as int) is None,
        },
{
    if !has_bytes(s, x, 2) {
        return None;
    }
    let n = get_u16be(s, x) as usize;
    if !has_bytes(s, x + 2, 2 * n) {
        return None;
    }
    Some(GlyphSequence { glyph_count: n as u16, glyph_ids: read_u16s(s, x + 2, n) })
}

fn sequence_links(s: &[u8], base: usize, q: usize, n: u16) -> (r: Option<
    Vec<Link16<GlyphSequence>>,
>)
    ensures
        match r {
            Some(v) => spec_sequence_links(s@, base as int, q as int, n as int) == Some(
                sequences_view(v@),
            ),
            None => spec_sequence_links(s@, base as int, q as int, n as int) is None,
        },
{
    if !has_bytes(s, q, 2 * (n as usize)) {
        return None;
    }
    let mut v: Vec<Link16<GlyphSequence>> = Vec::new();
    let mut i: usize = 0;
    while i < n as usize
        invariant
            0 <= i <= n,
            avail(s@, q as int, 2 * n),
            s@.len() <= usize::MAX,
            forall|j: int| 0 <= j < i ==> #[trigger] sequence_link(s@, base as int, q as int, j) is Some,
            sequences_view(v@) =~= Seq::new(
                i as nat,
                |j: int| sequence_link(s@, base as int, q as int, j).unwrap(),
            ),
        decreases n - i,
    {
        let (off, target, _) = match offset16_mandatory(s, base, q + 2 * i) {
            Some(x) => x,
            None => {
                assert(sequence_link(s@, base as int, q as int, i as int) is None);
                return None;
            },
        };
        let link = match target {
            None => None,
            Some(x) => match glyph_sequence(s, x) {
                Some(g) => Some(g),
                None => {
                    assert(sequence_link(s@, base as int, q as int, i as int) is None);
                    return None;
                },
            },
        };
        let entry = Link16 { offset: off, link };
        assert(sequence_link(s@, base as int, q as int, i as int) == Some(entry@));
        let ghost old_v = v@;
        v.push(entry);
        assert(sequences_view(v@) =~= sequences_view(old_v).push(entry@));
        i = i + 1;
        assert(sequences_view(v@) =~= Seq::new(
            i as nat,
            |j: int| sequence_link(s@, base as int, q as int, j).unwrap(),
        ));
    }
    Some(v)
}

/// A format 1 subtable made of a coverage table and one glyph sequence per
/// covered glyph: a multiple substitution or an alternate substitution.
#[derive(Clone, Debug, PartialEq, Eq)]
pub struct SequenceSubst {
    pub subst_format: u16,
    pub coverage: Link16<CoverageTable>,
    pub sequence_count: u16,
    pub sequences: Vec<Link16<GlyphSequence>>,
}

/// Mathematical form of `SequenceSubst`.
pub struct SpecSequenceSubst {
    pub subst_format: u16,
    pub coverage: Link16<SpecCoverageTable>,
    pub sequence_count: u16,
    pub sequences: Seq<Link16<SpecGlyphSequence>>,
}

impl View for SequenceSubst {
    type V = SpecSequenceSubst;

    open spec fn view(&self) -> SpecSequenceSubst {
        SpecSequenceSubst {
            subst_format: self.subst_format,
            coverage: self.coverage@,
            sequence_count: self.sequence_count,
            sequences: sequences_view(self.sequences@),
        }
    }
}

/// A subtable at `p` whose shared fields (format, coverage offset) are
/// followed, for the one defined format 1, by a count and that many offsets
/// to glyph sequences; any other format fails.
pub open spec fn spec_sequence_subst(s: Seq<u8>, p: int) -> Option<(SpecSequenceSubst, int)> {
    if !avail(s, p, 2) || u16_at(s, p) != 1 {
        None
    } else {
        match spec_coverage_link(s, p, p + 2) {
            None => None,
            Some(cov) => {
                if !avail(s, p + 4, 2) {
                    None
                } else {
                    let n = u16_at(s, p + 4);
                    match spec_sequence_links(s, p, p + 6, n as int) {
                        Some(seqs) => Some((SpecSequenceSubst {
                            subst_format: 1,
                            coverage: cov,
                            sequence_count: n,
                            sequences: seqs,
                        }, p + 6 + 2 * n)),
                        None => None,
                    }
                }
            },
        }
    }
}

fn sequence_subst(s: &[u8], p: usize) -> (r: Option<(SequenceSubst, usize)>)
    ensures
        agrees(r, spec_sequence_subst(s@, p as int)),
{
    if !has_bytes(s, p, 2) || get_u16be(s, p) != 1 {
        return None;
    }
    let cov = match coverage_link(s, p, p + 2) {
        Some(c) => c,
        None => return None,
    };
    if !has_bytes(s, p + 4, 2) {
        return None;
    }
    let n = get_u16be(s, p + 4);
    let seqs = match sequence_links(s, p, p + 6, n) {
        Some(v) => v,
        None => return None,
    };
    let t = SequenceSubst { subst_format: 1, coverage: cov, sequence_count: n, sequences: seqs };
    Some((t, p + 6 + 2 * (n as usize)))
}

/// Parses a multiple substitution subtable at `p` (format 1 only).
pub fn multiple_subst(s: &[u8], p: usize) -> (r: Option<(SequenceSubst, usize)>)
    ensures
        agrees(r, spec_sequence_subst(s@, p as int)),
{
    sequence_subst(s, p)
}

/// Parses an alternate substitution subtable at `p` (format 1 only).
pub fn alternate_subst(s: &[u8], p: usize) -> (r: Option<(SequenceSubst, usize)>)
    ensures
        agrees(r, spec_sequence_subst(s@, p as int)),
{
    sequence_subst(s, p)
}

/// A ligature: the ligature glyph and the glyphs, after the first, that it
/// replaces.
#[derive(Clone, Debug, PartialEq, Eq)]
pub struct Ligature {
    pub ligature_glyph: u16,
    pub component_count: u16,
    pub component_glyph_ids: Vec<u16>,
}

/// Mathematical form of `Ligature`.
pub struct SpecLigature {
    pub ligature_glyph: u16,
    pub component_count: u16,
    pub component_glyph_ids: Seq<u16>,
}

impl View for Ligature {
    type V = SpecLigature;

    open spec fn view(&self) -> SpecLigature {
        SpecLigature {
            ligature_glyph: self.ligature_glyph,
            component_count: self.component_count,
            component_glyph_ids: self.component_glyph_ids@,
        }
    }
}

/// A ligature table at `x`: the glyph, the component count `c` (which must
/// not be zero), then `c - 1` component glyph ids.
pub open spec fn spec_ligature(s: Seq<u8>, x: int) -> Option<SpecLigature> {
    if avail(s, x, 4) && u16_at(s, x + 2) > 0 && avail(s, x + 4, 2 * (u16_at(s, x + 2) - 1)) {
        Some(SpecLigature {
            ligature_glyph: u16_at(s, x),
            component_count: u16_at(s, x + 2),
            component_glyph_ids: u16s_at(s, x + 4, u16_at(s, x + 2) - 1),
        })
    } else {
        None
    }
}

fn ligature(s: &[u8], x: usize) -> (r: Option<Ligature>)
    ensures
        match r {
            Some(l) => spec_ligature(s@, x as int) == Some(l@),
            None => spec_ligature(s@, x as int) is None,
        },
{
    if !has_bytes(s, x, 4) {
        return None;
    }
    let c = get_u16be(s, x + 2);
    if c == 0 {
        return None;
    }
    let n = (c - 1) as usize;
    if !has_bytes(s, x + 4, 2 * n) {
        return None;
    }
    Some(
        Ligature {
            ligature_glyph: get_u16be(s, x),
            component_count: c,
            component_glyph_ids: read_u16s(s, x + 4, n),
        },
    )
}

/// Entry `i` of the ligature offsets of the ligature set at `y`.
pub open spec fn ligature_link(s: Seq<u8>, y: int, i: int) -> Option<Link16<SpecLigature>> {
    match spec_offset16(s, y, y + 2 + 2 * i) {
        None => None,
        Some(((off, None), _)) => Some(Link16 { offset: off, link: None }),
        Some(((off, Some(x)), _)) => match spec_ligature(s, x) {
            Some(l) => Some(Link16 { offset: off, link: Some(l) }),
            None => None,
        },
    }
}

/// The views of a sequence of ligature links.
pub open spec fn ligatures_view(v: Seq<Link16<Ligature>>) -> Seq<Link16<SpecLigature>> {
    v.map_values(|l: Link16<Ligature>| l@)
}

/// A ligature set: the ligatures that start with one covered glyph.
#[derive(Clone, Debug, PartialEq, Eq)]
pub struct LigatureSet {
    pub ligature_count: u16,
    pub ligatures: Vec<Link16<Ligature>>,
}

/// Mathematical form of `LigatureSet`.
pub struct SpecLigatureSet {
    pub ligature_count: u16,
    pub ligatures: Seq<Link16<SpecLigature>>,
}

impl View for LigatureSet {
    type V = SpecLigatureSet;

    open spec fn view(&self) -> SpecLigatureSet {
        SpecLigatureSet {
            ligature_count: self.ligature_count,
            ligatures: ligatures_view(self.ligatures@),
        }
    }
}

/// The ligature set at `y`: a count, then that many offsets, relative to
/// `y`, each with its ligature table.
pub open spec fn spec_ligature_set(s: Seq<u8>, y: int) -> Option<SpecLigatureSet> {
    if !avail(s, y, 2) {
        None
    } else {
        let n = u16_at(s, y);
        if avail(s, y + 2, 2 * n) && forall|i: int|
            0 <= i < n ==> #[trigger] ligature_link(s, y, i) is Some {
            Some(SpecLigatureSet {
                ligature_count: n,
                ligatures: Seq::new(n as nat, |i: int| ligature_link(s, y, i).unwrap()),
            })
        } else {
            None
        }
    }
}

fn ligature_set(s: &[u8], y: usize) -> (r: Option<LigatureSet>)
    ensures
        match r {
            Some(l) => spec_ligature_set(s@, y as int) == Some(l@),
            None => spec_ligature_set(s@, y as int) is None,
        },
{
    if !has_bytes(s, y, 2) {
        return None;
    }
    let n = get_u16be(s, y);
    if !has_bytes(s, y + 2, 2 * (n as usize)) {
        return None;
    }
    let mut v: Vec<Link16<Ligature>> = Vec::new();
    let mut i: usize = 0;
    while i < n as usize
        invariant
            0 <= i <= n,
            avail(s@, y as int, 2),
            n == u16_at(s@, y as int),
            avail(s@, y + 2, 2 * n),
            s@.len() <= usize::MAX,
            forall|j: int| 0 <= j < i ==> #[trigger] ligature_link(s@, y as int, j) is Some,
            ligatures_view(v@) =~= Seq::new(
                i as nat,
                |j: int| ligature_link(s@, y as int, j).unwrap(),
            ),
        decreases n - i,
    {
        let (off, target, _) = match offset16_mandatory(s, y, y + 2 + 2 * i) {
            Some(x) => x,
            None => {
                assert(ligature_link(s@, y as int, i as int) is None);
                return None;
            },
        };
        let link = match target {
            None => None,
            Some(x) => match ligature(s, x) {
                Some(l) => Some(l),
                None => {
                    assert(ligature_link(s@, y as int, i as int) is None);
                    return None;
                },
            },
        };
        let entry = Link16 { offset: off, link };
        assert(ligature_link(s@, y as int, i as int) == Some(entry@));
        let ghost old_v = v@;
        v.push(entry);
        assert(ligatures_view(v@) =~= ligatures_view(old_v).push(entry@));
        i = i + 1;
        assert(ligatures_view(v@) =~= Seq::new(
            i as nat,
            |j: int| ligature_link(s@, y as int, j).unwrap(),
        ));
    }
    Some(LigatureSet { ligature_count: n, ligatures: v })
}

/// Entry `i` of the ligature-set offsets at `p + 6` of the subtable at `p`.
pub open spec fn ligature_set_link(s: Seq<u8>, p: int, i: int) -> Option<Link16<SpecLigatureSet>> {
    match spec_offset16(s, p, p + 6 + 2 * i) {
        None => None,
        Some(((off, None), _)) => Some(Link16 { offset: off, link: None }),
        Some(((off, Some(y)), _)) => match spec_ligature_set(s, y) {
            Some(l) => Some(Link16 { offset: off, link: Some(l) }),
            None => None,
        },
    }
}

/// The views of a sequence of ligature-set links.
pub open spec fn ligature_sets_view(v: Seq<Link16<LigatureSet>>) -> Seq<Link16<SpecLigatureSet>> {
    v.map_values(|l: Link16<LigatureSet>| l@)
}

/// A ligature substitution subtable.
#[derive(Clone, Debug, PartialEq, Eq)]
pub struct LigatureSubst {
    pub subst_format: u16,
    pub coverage: Link16<CoverageTable>,
    pub ligature_set_count: u16,
    pub ligature_sets: Vec<Link16<LigatureSet>>,
}

/// Mathematical form of `LigatureSubst`.
pub struct SpecLigatureSubst {
    pub subst_format: u16,
    pub coverage: Link16<SpecCoverageTable>,
    pub ligature_set_count: u16,
    pub ligature_sets: Seq<Link16<SpecLigatureSet>>,
}

impl View for LigatureSubst {
    type V = SpecLigatureSubst;

    open spec fn view(&self) -> SpecLigatureSubst {
        SpecLigatureSubst {
            subst_format: self.subst_format,
            coverage: self.coverage@,
            ligature_set_count: self.ligature_set_count,
            ligature_sets: ligature_sets_view(self.ligature_sets@),
        }
    }
}

/// The `n` ligature-set offsets of the subtable at `p`, with their sets.
pub open spec fn spec_ligature_sets(s: Seq<u8>, p: int, n: int) -> Option<
    Seq<Link16<SpecLigatureSet>>,
> {
    if 0 <= n && avail(s, p + 6, 2 * n) && forall|i: int|
        0 <= i < n ==> #[trigger] ligature_set_link(s, p, i) is Some {
        Some(Seq::new(n as nat, |i: int| ligature_set_link(s, p, i).unwrap()))
    } else {
        None
    }
}

/// A ligature substitution subtable at `p`: format 1 (any other fails), a
/// coverage offset, a count and that many offsets to ligature sets.
pub open spec fn spec_ligature_subst(s: Seq<u8>, p: int) -> Option<(SpecLigatureSubst, int)> {
    if !avail(s, p, 2) || u16_at(s, p) != 1 {
        None
    } else {
        match spec_coverage_link(s, p, p + 2) {
            None => None,
            Some(cov) => {
                if !avail(s, p + 4, 2) {
                    None
                } else {
                    let n = u16_at(s, p + 4);
                    match spec_ligature_sets(s, p, n as int) {
                        Some(sets) => Some((SpecLigatureSubst {
                            subst_format: 1,
                            coverage: cov,
                            ligature_set_count: n,
                            ligature_sets: sets,
                        }, p + 6 + 2 * n)),
                        None => None,
                    }
                }
            },
        }
    }
}

fn ligature_sets(s: &[u8], p: usize, n: u16) -> (r: Option<Vec<Link16<LigatureSet>>>)
    ensures
        match r {
            Some(v) => spec_ligature_sets(s@, p as int, n as int) == Some(ligature_sets_view(v@)),
            None => spec_ligature_sets(s@, p as int, n as int) is None,
        },
{
    let _len = s.len();
    if p > usize::MAX - 6 || !has_bytes(s, p + 6, 2 * (n as usize)) {
        return None;
    }
    let mut v: Vec<Link16<LigatureSet>> = Vec::new();
    let mut i: usize = 0;
    while i < n as usize
        invariant
            0 <= i <= n,
            avail(s@, p + 6, 2 * n),
            s@.len() <= usize::MAX,
            forall|j: int| 0 <= j < i ==> #[trigger] ligature_set_link(s@, p as int, j) is Some,
            ligature_sets_view(v@) =~= Seq::new(
                i as nat,
                |j: int| ligature_set_link(s@, p as int, j).unwrap(),
            ),
        decreases n - i,
    {
        let (off, target, _) = match offset16_mandatory(s, p, p + 6 + 2 * i) {
            Some(x) => x,
            None => {
                assert(ligature_set_link(s@, p as int, i as int) is None);
                return None;
            },
        };
        let link = match target {
            None => None,
            Some(y) => match ligature_set(s, y) {
                Some(l) => Some(l),
                None => {
                    assert(ligature_set_link(s@, p as int, i as int) is None);
                    return None;
                },
            },
        };
        let entry = Link16 { offset: off, link };
        assert(ligature_set_link(s@, p as int, i as int) == Some(entry@));
        let ghost old_v = v@;
        v.push(entry);
        assert(ligature_sets_view(v@) =~= ligature_sets_view(old_v).push(entry@));
        i = i + 1;
        assert(ligature_sets_view(v@) =~= Seq::new(
            i as nat,
            |j: int| ligature_set_link(s@, p as int, j).unwrap(),
        ));
    }
    Some(v)
}

/// A parsed ligature substitution has one ligature-set offset per declared
/// set, one ligature offset per declared ligature in each linked set, and
/// each linked ligature lists one component fewer than its count.
pub proof fn lemma_ligature_counts(s: Seq<u8>, p: int)
    ensures
        spec_ligature_subst(s, p) matches Some((l, _)) ==> {
            &&& l.ligature_sets.len() == l.ligature_set_count
            &&& forall|i: int|
                0 <= i < l.ligature_sets.len() ==> (#[trigger] l.ligature_sets[i].link matches Some(
                    set,
                ) ==> set.ligatures.len() == set.ligature_count && forall|j: int|
                    0 <= j < set.ligatures.len() ==> (#[trigger] set.ligatures[j].link matches Some(
                        lig,
                    ) ==> lig.component_count >= 1 && lig.component_glyph_ids.len()
                        == lig.component_count - 1))
        },
{
    if let Some((l, _)) = spec_ligature_subst(s, p) {
        assert forall|i: int| 0 <= i < l.ligature_sets.len() implies (
        #[trigger] l.ligature_sets[i].link matches Some(set) ==> set.ligatures.len()
            == set.ligature_count && forall|j: int|
            0 <= j < set.ligatures.len() ==> (#[trigger] set.ligatures[j].link matches Some(lig)
                ==> lig.component_count >= 1 && lig.component_glyph_ids.len() == lig.component_count
                - 1)) by {
            assert(ligature_set_link(s, p, i) is Some);
            if let Some(((off, Some(y)), _)) = spec_offset16(s, p, p + 6 + 2 * i) {
                if let Some(set) = spec_ligature_set(s, y) {
                    assert forall|j: int| 0 <= j < set.ligatures.len() implies (
                    #[trigger] set.ligatures[j].link matches Some(lig) ==> lig.component_count >= 1
                        && lig.component_glyph_ids.len() == lig.component_count - 1) by {
                        assert(ligature_link(s, y, j) is Some);
                    }
                }
            }
        }
    }
}

/// Parses a ligature substitution subtable at `p`.
pub fn ligature_subst(s: &[u8], p: usize) -> (r: Option<(LigatureSubst, usize)>)
    ensures
        agrees(r, spec_ligature_subst(s@, p as int)),
{
    if !has_bytes(s, p, 2) || get_u16be(s, p) != 1 {
        return None;
    }
    let cov = match coverage_link(s, p, p + 2) {
        Some(c) => c,
        None => return None,
    };
    if !has_bytes(s, p + 4, 2) {
        return None;
    }
    let n = get_u16be(s, p + 4);
    let sets = match ligature_sets(s, p, n) {
        Some(v) => v,
        None => return None,
    };
    let t = LigatureSubst {
        subst_format: 1,
        coverage: cov,
        ligature_set_count: n,
        ligature_sets: sets,
    };
    Some((t, p + 6 + 2 * (n as usize)))
}


/// Range records are three words each: start glyph, end glyph, value.
pub proof fn lemma_range_fields(s: Seq<u8>, p: int)
    requires
        0 <= p && p + 6 <= s.len(),
    ensures
        range_at(s, p).start_glyph_id == crate::bytes::word_at(s, p),
        range_at(s, p).end_glyph_id == crate::bytes::word_at(s, p + 2),
        range_at(s, p).value == crate::bytes::word_at(s, p + 4),
{
    crate::bytes::lemma_readers_spell(s, p);
    crate::bytes::lemma_readers_spell(s, p + 2);
    crate::bytes::lemma_readers_spell(s, p + 4);
}

/// A coverage table at `x` is read by the format word at `x`: format 1
/// holds a glyph count at `x + 2` and that many glyph words from `x + 4`;
/// format 2 a range count at `x + 2` and that many six-byte range records
/// from `x + 4`. A class definition is read likewise: format 1 holds a
/// start glyph and count at `x + 2` and `x + 4` and class words from
/// `x + 6`; format 2 a range count and range records from `x + 4`.
pub proof fn lemma_coverage_class_fields(s: Seq<u8>, x: int)
    ensures
        spec_coverage_table(s, x) matches Some((c, _)) ==> match c {
            SpecCoverageTable::Format1 { glyph_count, glyph_array } => crate::bytes::word_at(s, x) == 1 && glyph_count
                == crate::bytes::word_at(s, x + 2) && glyph_array.len() == glyph_count && forall|i: int|
                0 <= i < glyph_count ==> #[trigger] glyph_array[i] == crate::bytes::word_at(s, x + 4 + 2 * i),
            SpecCoverageTable::Format2 { range_count, range_records } => crate::bytes::word_at(s, x) == 2 && range_count
                == crate::bytes::word_at(s, x + 2) && range_records.len() == range_count && forall|i: int|
                0 <= i < range_count ==> (#[trigger] range_records[i]).start_glyph_id == crate::bytes::word_at(s, x + 4 + 6 * i)
                    && range_records[i].end_glyph_id == crate::bytes::word_at(s, x + 6 + 6 * i) && range_records[i].value
                    == crate::bytes::word_at(s, x + 8 + 6 * i),
        },
        spec_class_def(s, x) matches Some((c, _)) ==> match c {
            SpecClassDef::Format1 { start_glyph_id, glyph_count, class_value_array } => crate::bytes::word_at(s, x) == 1
                && start_glyph_id == crate::bytes::word_at(s, x + 2) && glyph_count == crate::bytes::word_at(s, x + 4) && class_value_array.len()
                == glyph_count && forall|i: int|
                0 <= i < glyph_count ==> #[trigger] class_value_array[i] == crate::bytes::word_at(s, x + 6 + 2 * i),
            SpecClassDef::Format2 { class_range_count, class_range_records } => crate::bytes::word_at(s, x) == 2
                && class_range_count == crate::bytes::word_at(s, x + 2) && class_range_records.len() == class_range_count
                && forall|i: int|
                0 <= i < class_range_count ==> (#[trigger] class_range_records[i]).start_glyph_id == crate::bytes::word_at(
                    s,
                    x + 4 + 6 * i,
                ) && class_range_records[i].end_glyph_id == crate::bytes::word_at(s, x + 6 + 6 * i)
                    && class_range_records[i].value == crate::bytes::word_at(s, x + 8 + 6 * i),
        },
{
    if avail(s, x, 4) {
        crate::bytes::lemma_readers_spell(s, x);
        crate::bytes::lemma_readers_spell(s, x + 2);
    }
    if let Some((c, _)) = spec_coverage_table(s, x) {
        match c {
            SpecCoverageTable::Format1 { glyph_count, glyph_array } => {
                assert forall|i: int| 0 <= i < glyph_count implies #[trigger] glyph_array[i] == crate::bytes::word_at(s, x + 4 + 2 * i) by {
                    crate::bytes::lemma_readers_spell(s, x + 4 + 2 * i);
                }
            },
            SpecCoverageTable::Format2 { range_count, range_records } => {
                assert forall|i: int| 0 <= i < range_count implies (#[trigger] range_records[i]).start_glyph_id
                    == crate::bytes::word_at(s, x + 4 + 6 * i) && range_records[i].end_glyph_id == crate::bytes::word_at(s, x + 6 + 6 * i)
                    && range_records[i].value == crate::bytes::word_at(s, x + 8 + 6 * i) by {
                    lemma_range_fields(s, x + 4 + 6 * i);
                }
            },
        }
    }
    if let Some((c, _)) = spec_class_def(s, x) {
        match c {
            SpecClassDef::Format1 { glyph_count, class_value_array, .. } => {
                crate::bytes::lemma_readers_spell(s, x + 4);
                assert forall|i: int| 0 <= i < glyph_count implies #[trigger] class_value_array[i] == crate::bytes::word_at(s, x + 6 + 2 * i) by {
                    crate::bytes::lemma_readers_spell(s, x + 6 + 2 * i);
                }
            },
            SpecClassDef::Format2 { class_range_count, class_range_records } => {
                assert forall|i: int| 0 <= i < class_range_count implies (#[trigger] class_range_records[i]).start_glyph_id
                    == crate::bytes::word_at(s, x + 4 + 6 * i) && class_range_records[i].end_glyph_id == crate::bytes::word_at(s, x + 6 + 6 * i)
                    && class_range_records[i].value == crate::bytes::word_at(s, x + 8 + 6 * i) by {
                    lemma_range_fields(s, x + 4 + 6 * i);
                }
            },
        }
    }
}

/// Substitution subtables read their own bytes: single substitution format
/// 1 holds a signed delta at `p + 4`, format 2 a count at `p + 4` and that
/// many substitute words from `p + 6`; a glyph sequence holds a count and
/// that many glyph words; a ligature holds its glyph at `x`, its component
/// count at `x + 2` and one fewer component words from `x + 4`.
pub proof fn lemma_subst_fields(s: Seq<u8>, p: int)
    ensures
        spec_single_subst(s, p) matches Some((v, _)) ==> v.subst_format == crate::bytes::word_at(s, p) && match v.subst {
            SpecSingleSubstData::Format1 { delta_glyph_id, coverage } => v.subst_format == 1 && delta_glyph_id
                == crate::bytes::signed_word_at(s, p + 4) && coverage.offset == crate::bytes::word_at(s, p + 2),
            SpecSingleSubstData::Format2 { glyph_count, substitute_glyph_ids, coverage } => v.subst_format == 2
                && coverage.offset == crate::bytes::word_at(s, p + 2) && glyph_count == crate::bytes::word_at(s, p + 4)
                && substitute_glyph_ids.len() == glyph_count && forall|i: int|
                0 <= i < glyph_count ==> #[trigger] substitute_glyph_ids[i] == crate::bytes::word_at(s, p + 6 + 2 * i),
        },
        spec_glyph_sequence(s, p) matches Some(g) ==> g.glyph_count == crate::bytes::word_at(s, p) && g.glyph_ids.len()
            == g.glyph_count && forall|i: int|
            0 <= i < g.glyph_count ==> #[trigger] g.glyph_ids[i] == crate::bytes::word_at(s, p + 2 + 2 * i),
        spec_ligature(s, p) matches Some(l) ==> l.ligature_glyph == crate::bytes::word_at(s, p) && l.component_count == crate::bytes::word_at(
            s,
            p + 2,
        ) && l.component_glyph_ids.len() == l.component_count - 1 && forall|i: int|
            0 <= i < l.component_count - 1 ==> #[trigger] l.component_glyph_ids[i] == crate::bytes::word_at(s, p + 4 + 2 * i),
{
    if let Some((v, _)) = spec_single_subst(s, p) {
        crate::bytes::lemma_readers_spell(s, p);
        crate::bytes::lemma_readers_spell(s, p + 2);
        crate::bytes::lemma_readers_spell(s, p + 4);
        if let SpecSingleSubstData::Format2 { glyph_count, substitute_glyph_ids, .. } = v.subst {
            assert forall|i: int| 0 <= i < glyph_count implies #[trigger] substitute_glyph_ids[i] == crate::bytes::word_at(s, p + 6 + 2 * i) by {
                crate::bytes::lemma_readers_spell(s, p + 6 + 2 * i);
            }
        }
    }
    if let Some(g) = spec_glyph_sequence(s, p) {
        crate::bytes::lemma_readers_spell(s, p);
        assert forall|i: int| 0 <= i < g.glyph_count implies #[trigger] g.glyph_ids[i] == crate::bytes::word_at(s, p + 2 + 2 * i) by {
            crate::bytes::lemma_readers_spell(s, p + 2 + 2 * i);
        }
    }
    if let Some(l) = spec_ligature(s, p) {
        crate::bytes::lemma_readers_spell(s, p);
        crate::bytes::lemma_readers_spell(s, p + 2);
        assert forall|i: int| 0 <= i < l.component_count - 1 implies #[trigger] l.component_glyph_ids[i] == crate::bytes::word_at(s, p + 4 + 2 * i) by {
            crate::bytes::lemma_readers_spell(s, p + 4 + 2 * i);
        }
    }
}

/// Multiple (and alternate) and ligature substitution subtables hold the
/// format word 1 at `p`, the coverage offset at `p + 2`, the count at
/// `p + 4` and that many offset words from `p + 6`; a ligature set holds its
/// count at `y` and its ligature offsets from `y + 2`.
pub proof fn lemma_subst_offsets_fields(s: Seq<u8>, p: int)
    ensures
        spec_sequence_subst(s, p) matches Some((v, end)) ==> {
            &&& crate::bytes::word_at(s, p) == 1 && v.subst_format == 1
            &&& v.coverage.offset == crate::bytes::word_at(s, p + 2)
            &&& v.sequence_count == crate::bytes::word_at(s, p + 4)
            &&& end == p + 6 + 2 * v.sequence_count
            &&& forall|i: int|
                0 <= i < v.sequence_count ==> (#[trigger] v.sequences[i]).offset == crate::bytes::word_at(s, p + 6 + 2 * i)
        },
        spec_ligature_subst(s, p) matches Some((v, end)) ==> {
            &&& crate::bytes::word_at(s, p) == 1 && v.subst_format == 1
            &&& v.coverage.offset == crate::bytes::word_at(s, p + 2)
            &&& v.ligature_set_count == crate::bytes::word_at(s, p + 4)
            &&& end == p + 6 + 2 * v.ligature_set_count
            &&& forall|i: int|
                0 <= i < v.ligature_set_count ==> (#[trigger] v.ligature_sets[i]).offset == crate::bytes::word_at(s, p + 6 + 2 * i)
        },
        spec_ligature_set(s, p) matches Some(l) ==> {
            &&& l.ligature_count == crate::bytes::word_at(s, p)
            &&& forall|i: int|
                0 <= i < l.ligature_count ==> (#[trigger] l.ligatures[i]).offset == crate::bytes::word_at(s, p + 2 + 2 * i)
        },
{
    if let Some((v, _)) = spec_sequence_subst(s, p) {
        crate::bytes::lemma_readers_spell(s, p);
        crate::bytes::lemma_readers_spell(s, p + 2);
        crate::bytes::lemma_readers_spell(s, p + 4);
        assert forall|i: int| 0 <= i < v.sequence_count implies (#[trigger] v.sequences[i]).offset == crate::bytes::word_at(s, p + 6 + 2 * i) by {
            crate::bytes::lemma_readers_spell(s, p + 6 + 2 * i);
        }
    }
    if let Some((v, _)) = spec_ligature_subst(s, p) {
        crate::bytes::lemma_readers_spell(s, p);
        crate::bytes::lemma_readers_spell(s, p + 2);
        crate::bytes::lemma_readers_spell(s, p + 4);
        assert forall|i: int| 0 <= i < v.ligature_set_count implies (#[trigger] v.ligature_sets[i]).offset == crate::bytes::word_at(s, p + 6 + 2 * i) by {
            crate::bytes::lemma_readers_spell(s, p + 6 + 2 * i);
        }
    }
    if let Some(l) = spec_ligature_set(s, p) {
        crate::bytes::lemma_readers_spell(s, p);
        assert forall|i: int| 0 <= i < l.ligature_count implies (#[trigger] l.ligatures[i]).offset == crate::bytes::word_at(s, p + 2 + 2 * i) by {
            crate::bytes::lemma_readers_spell(s, p + 2 + 2 * i);
        }
    }
}

} // verus!
