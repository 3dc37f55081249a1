//! The glyph positioning lookup subtables: single and pair adjustment,
//! cursive attachment, and mark attachment to bases, ligatures and marks.
//! Offsets are relative to the start of the table that holds them.
use vstd::prelude::*;
use crate::bytes::{avail, get_u16be, has_bytes, prepend_parsed, u16_at};
use crate::opentype::context::{class_def_link, spec_class_def_link};
use crate::opentype::gpos_values::{
    anchor_link, opt_value_view, optional_value_record, spec_anchor_link,
    spec_optional_value_record, spec_value_format, spec_value_record, value_format, value_record,
    AnchorTable, SpecAnchorTable, SpecValueRecord, ValueFormat, ValueRecord,
};
use crate::opentype::layout::{
    coverage_link, spec_coverage_link, ClassDef, CoverageTable, SpecClassDef, SpecCoverageTable,
};
use crate::opentype::links::{Link16, offset16_mandatory, spec_offset16};

verus! {

/// The views of a sequence of value records.
pub open spec fn values_view(v: Seq<ValueRecord>) -> Seq<SpecValueRecord> {
    v.map_values(|r: ValueRecord| r@)
}

/// The value record of format `f` at `q`, its device offsets relative to
/// `base`.
pub open spec fn value_item(t: Seq<u8>, base: int, f: ValueFormat, q: int) -> Option<
    (SpecValueRecord, int),
> {
    spec_value_record(t, base, q, f)
}

fn value_item_exec(t: &[u8], base: usize, f: ValueFormat, q: usize) -> (r: Option<
    (ValueRecord, usize),
>)
    ensures
        match r {
            Some((v, e)) => value_item(t@, base as int, f, q as int) == Some((v@, e as int)),
            None => value_item(t@, base as int, f, q as int) is None,
        },
{
    value_record(t, base, q, f)
}

/// `n` value records of format `f` one after the other from `q`.
pub open spec fn spec_value_records(t: Seq<u8>, base: int, f: ValueFormat, q: int, n: nat) -> Option<(Seq<SpecValueRecord>, int)>
    decreases n,
{
    if n == 0 {
        Some((Seq::empty(), q))
    } else {
        match value_item(t, base, f, q) {
            None => None,
            Some((x, e)) => match spec_value_records(t, base, f, e, (n - 1) as nat) {
                None => None,
                Some((rest, e2)) => Some((seq![x] + rest, e2)),
            },
        }
    }
}

fn value_records(t: &[u8], base: usize, f: ValueFormat, q: usize, n: u16) -> (r: Option<(Vec<ValueRecord>, usize)>)
    ensures
        match r {
            Some((v, e)) => spec_value_records(t@, base as int, f, q as int, n as nat) == Some((values_view(v@), e as int)),
            None => spec_value_records(t@, base as int, f, q as int, n as nat) is None,
        },
{
    let mut v: Vec<ValueRecord> = Vec::new();
    let mut i: u16 = 0;
    let mut p: usize = q;
    proof {
        if let Some((rest, _)) = spec_value_records(t@, base as int, f, q as int, n as nat) {
            assert(values_view(v@) + rest =~= rest);
        }
    }
    while i < n
        invariant
            0 <= i <= n,
            spec_value_records(t@, base as int, f, q as int, n as nat) == prepend_parsed(
                values_view(v@),
                spec_value_records(t@, base as int, f, p as int, (n - i) as nat),
            ),
        decreases n - i,
    {
        let (x, e) = match value_item_exec(t, base, f, p) {
            Some(r) => r,
            None => return None,
        };
        let ghost old_v = values_view(v@);
        let ghost tail = spec_value_records(t@, base as int, f, e as int, (n - i - 1) as nat);
        assert(spec_value_records(t@, base as int, f, p as int, (n - i) as nat) == prepend_parsed(seq![x@], tail));
        v.push(x);
        assert(values_view(v@) =~= old_v + seq![x@]);
        proof {
            if let Some((rest, _)) = tail {
                assert(old_v + (seq![x@] + rest) =~= (old_v + seq![x@]) + rest);
            }
        }
        i = i + 1;
        p = e;
    }
    assert(values_view(v@) + Seq::<SpecValueRecord>::empty() =~= values_view(v@));
    Some((v, p))
}

/// A pair of a pair-adjustment set: the second glyph and the value records
/// of the two glyphs.
#[derive(Clone, Debug, PartialEq, Eq)]
pub struct PairValueRecord {
    pub second_glyph: u16,
    pub value_record1: Option<ValueRecord>,
    pub value_record2: Option<ValueRecord>,
}

/// Mathematical form of `PairValueRecord`.
pub struct SpecPairValueRecord {
    pub second_glyph: u16,
    pub value_record1: Option<SpecValueRecord>,
    pub value_record2: Option<SpecValueRecord>,
}

impl View for PairValueRecord {
    type V = SpecPairValueRecord;

    open spec fn view(&self) -> SpecPairValueRecord {
        SpecPairValueRecord {
            second_glyph: self.second_glyph,
            value_record1: opt_value_view(self.value_record1),
            value_record2: opt_value_view(self.value_record2),
        }
    }
}

/// The pair value record at `q` of a pair set at `base`.
pub open spec fn pair_value_item(t: Seq<u8>, base: int, f1: ValueFormat, f2: ValueFormat, q: int) -> Option<
    (SpecPairValueRecord, int),
> {
    if !avail(t, q, 2) {
        None
    } else {
        match spec_optional_value_record(t, base, q + 2, f1) {
            None => None,
            Some((v1, e1)) => match spec_optional_value_record(t, base, e1, f2) {
                None => None,
                Some((v2, e2)) => Some((
                    SpecPairValueRecord { second_glyph: u16_at(t, q), value_record1: v1, value_record2: v2 },
                    e2,
                )),
            },
        }
    }
}

fn pair_value_item_exec(t: &[u8], base: usize, f1: ValueFormat, f2: ValueFormat, q: usize) -> (r: Option<
    (PairValueRecord, usize),
>)
    ensures
        match r {
            Some((v, e)) => pair_value_item(t@, base as int, f1, f2, q as int) == Some((v@, e as int)),
            None => pair_value_item(t@, base as int, f1, f2, q as int) is None,
        },
{
    if !has_bytes(t, q, 2) {
        return None;
    }
    let g = get_u16be(t, q);
    let (v1, e1) = match optional_value_record(t, base, q + 2, f1) {
        Some(x) => x,
        None => return None,
    };
    let (v2, e2) = match optional_value_record(t, base, e1, f2) {
        Some(x) => x,
        None => return None,
    };
    Some((PairValueRecord { second_glyph: g, value_record1: v1, value_record2: v2 }, e2))
}

/// The views of a sequence of pair value records.
pub open spec fn pair_values_view(v: Seq<PairValueRecord>) -> Seq<SpecPairValueRecord> {
    v.map_values(|r: PairValueRecord| r@)
}

/// `n` pair value records one after the other from `q`.
pub open spec fn spec_pair_value_records(t: Seq<u8>, base: int, f1: ValueFormat, f2: ValueFormat, q: int, n: nat) -> Option<(Seq<SpecPairValueRecord>, int)>
    decreases n,
{
    if n == 0 {
        Some((Seq::empty(), q))
    } else {
        match pair_value_item(t, base, f1, f2, q) {
            None => None,
            Some((x, e)) => match spec_pair_value_records(t, base, f1, f2, e, (n - 1) as nat) {
                None => None,
                Some((rest, e2)) => Some((seq![x] + rest, e2)),
            },
        }
    }
}

fn pair_value_records(t: &[u8], base: usize, f1: ValueFormat, f2: ValueFormat, q: usize, n: u16) -> (r: Option<(Vec<PairValueRecord>, usize)>)
    ensures
        match r {
            Some((v, e)) => spec_pair_value_records(t@, base as int, f1, f2, q as int, n as nat) == Some((pair_values_view(v@), e as int)),
            None => spec_pair_value_records(t@, base as int, f1, f2, q as int, n as nat) is None,
        },
{
    let mut v: Vec<PairValueRecord> = Vec::new();
    let mut i: u16 = 0;
    let mut p: usize = q;
    proof {
        if let Some((rest, _)) = spec_pair_value_records(t@, base as int, f1, f2, q as int, n as nat) {
            assert(pair_values_view(v@) + rest =~= rest);
        }
    }
    while i < n
        invariant
            0 <= i <= n,
            spec_pair_value_records(t@, base as int, f1, f2, q as int, n as nat) == prepend_parsed(
                pair_values_view(v@),
                spec_pair_value_records(t@, base as int, f1, f2, p as int, (n - i) as nat),
            ),
        decreases n - i,
    {
        let (x, e) = match pair_value_item_exec(t, base, f1, f2, p) {
            Some(r) => r,
            None => return None,
        };
        let ghost old_v = pair_values_view(v@);
        let ghost tail = spec_pair_value_records(t@, base as int, f1, f2, e as int, (n - i - 1) as nat);
        assert(spec_pair_value_records(t@, base as int, f1, f2, p as int, (n - i) as nat) == prepend_parsed(seq![x@], tail));
        v.push(x);
        assert(pair_values_view(v@) =~= old_v + seq![x@]);
        proof {
            if let Some((rest, _)) = tail {
                assert(old_v + (seq![x@] + rest) =~= (old_v + seq![x@]) + rest);
            }
        }
        i = i + 1;
        p = e;
    }
    assert(pair_values_view(v@) + Seq::<SpecPairValueRecord>::empty() =~= pair_values_view(v@));
    Some((v, p))
}

/// A pair-adjustment set: the pairs whose first glyph is one covered glyph.
#[derive(Clone, Debug, PartialEq, Eq)]
pub struct PairSet {
    pub pair_value_count: u16,
    pub pair_value_records: Vec<PairValueRecord>,
}

/// Mathematical form of `PairSet`.
pub struct SpecPairSet {
    pub pair_value_count: u16,
    pub pair_value_records: Seq<SpecPairValueRecord>,
}

impl View for PairSet {
    type V = SpecPairSet;

    open spec fn view(&self) -> SpecPairSet {
        SpecPairSet {
            pair_value_count: self.pair_value_count,
            pair_value_records: pair_values_view(self.pair_value_records@),
        }
    }
}

/// The pair set at `z`: a count and that many pair value records, whose
/// device offsets are relative to `z`.
pub open spec fn spec_pair_set(t: Seq<u8>, z: int, f1: ValueFormat, f2: ValueFormat) -> Option<SpecPairSet> {
    if !avail(t, z, 2) {
        None
    } else {
        match spec_pair_value_records(t, z, f1, f2, z + 2, u16_at(t, z) as nat) {
            None => None,
            Some((recs, _)) => Some(SpecPairSet { pair_value_count: u16_at(t, z), pair_value_records: recs }),
        }
    }
}

fn pair_set(t: &[u8], z: usize, f1: ValueFormat, f2: ValueFormat) -> (r: Option<PairSet>)
    ensures
        match r {
            Some(v) => spec_pair_set(t@, z as int, f1, f2) == Some(v@),
            None => spec_pair_set(t@, z as int, f1, f2) is None,
        },
{
    if !has_bytes(t, z, 2) {
        return None;
    }
    let n = get_u16be(t, z);
    match pair_value_records(t, z, f1, f2, z + 2, n) {
        None => None,
        Some((recs, _)) => Some(PairSet { pair_value_count: n, pair_value_records: recs }),
    }
}

/// The pair-set offset at `q`, relative to `base`, with its pair set.
pub open spec fn pair_set_item(t: Seq<u8>, base: int, f1: ValueFormat, f2: ValueFormat, q: int) -> Option<
    (Link16<SpecPairSet>, int),
> {
    match spec_offset16(t, base, q) {
        None => None,
        Some(((off, None), e)) => Some((Link16 { offset: off, link: None }, e)),
        Some(((off, Some(z)), e)) => match spec_pair_set(t, z, f1, f2) {
            Some(s) => Some((Link16 { offset: off, link: Some(s) }, e)),
            None => None,
        },
    }
}

fn pair_set_item_exec(t: &[u8], base: usize, f1: ValueFormat, f2: ValueFormat, q: usize) -> (r: Option<
    (Link16<PairSet>, usize),
>)
    ensures
        match r {
            Some((v, e)) => pair_set_item(t@, base as int, f1, f2, q as int) == Some((v@, e as int)),
            None => pair_set_item(t@, base as int, f1, f2, q as int) is None,
        },
{
    let (off, target, e) = match offset16_mandatory(t, base, q) {
        Some(o) => o,
        None => return None,
    };
    match target {
        None => Some((Link16 { offset: off, link: None }, e)),
        Some(z) => match pair_set(t, z, f1, f2) {
            Some(s) => Some((Link16 { offset: off, link: Some(s) }, e)),
            None => None,
        },
    }
}

/// The views of a sequence of pair-set links.
pub open spec fn pair_sets_view(v: Seq<Link16<PairSet>>) -> Seq<Link16<SpecPairSet>> {
    v.map_values(|l: Link16<PairSet>| l@)
}

/// `n` pair-set offsets from `q`, relative to `base`.
pub open spec fn spec_pair_set_links(t: Seq<u8>, base: int, f1: ValueFormat, f2: ValueFormat, q: int, n: nat) -> Option<(Seq<Link16<SpecPairSet>>, int)>
    decreases n,
{
    if n == 0 {
        Some((Seq::empty(), q))
    } else {
        match pair_set_item(t, base, f1, f2, q) {
            None => None,
            Some((x, e)) => match spec_pair_set_links(t, base, f1, f2, e, (n - 1) as nat) {
                None => None,
                Some((rest, e2)) => Some((seq![x] + rest, e2)),
            },
        }
    }
}

fn pair_set_links(t: &[u8], base: usize, f1: ValueFormat, f2: ValueFormat, q: usize, n: u16) -> (r: Option<(Vec<Link16<PairSet>>, usize)>)
    ensures
        match r {
            Some((v, e)) => spec_pair_set_links(t@, base as int, f1, f2, q as int, n as nat) == Some((pair_sets_view(v@), e as int)),
            None => spec_pair_set_links(t@, base as int, f1, f2, q as int, n as nat) is None,
        },
{
    let mut v: Vec<Link16<PairSet>> = Vec::new();
    let mut i: u16 = 0;
    let mut p: usize = q;
    proof {
        if let Some((rest, _)) = spec_pair_set_links(t@, base as int, f1, f2, q as int, n as nat) {
            assert(pair_sets_view(v@) + rest =~= rest);
        }
    }
    while i < n
        invariant
            0 <= i <= n,
            spec_pair_set_links(t@, base as int, f1, f2, q as int, n as nat) == prepend_parsed(
                pair_sets_view(v@),
                spec_pair_set_links(t@, base as int, f1, f2, p as int, (n - i) as nat),
            ),
        decreases n - i,
    {
        let (x, e) = match pair_set_item_exec(t, base, f1, f2, p) {
            Some(r) => r,
            None => return None,
        };
        let ghost old_v = pair_sets_view(v@);
        let ghost tail = spec_pair_set_links(t@, base as int, f1, f2, e as int, (n - i - 1) as nat);
        assert(spec_pair_set_links(t@, base as int, f1, f2, p as int, (n - i) as nat) == prepend_parsed(seq![x@], tail));
        v.push(x);
        assert(pair_sets_view(v@) =~= old_v + seq![x@]);
        proof {
            if let Some((rest, _)) = tail {
                assert(old_v + (seq![x@] + rest) =~= (old_v + seq![x@]) + rest);
            }
        }
        i = i + 1;
        p = e;
    }
    assert(pair_sets_view(v@) + Seq::<Link16<SpecPairSet>>::empty() =~= pair_sets_view(v@));
    Some((v, p))
}

/// The value records of a pair of classes.
#[derive(Clone, Debug, PartialEq, Eq)]
pub struct Class2Record {
    pub value_record1: Option<ValueRecord>,
    pub value_record2: Option<ValueRecord>,
}

/// Mathematical form of `Class2Record`.
pub struct SpecClass2Record {
    pub value_record1: Option<SpecValueRecord>,
    pub value_record2: Option<SpecValueRecord>,
}

impl View for Class2Record {
    type V = SpecClass2Record;

    open spec fn view(&self) -> SpecClass2Record {
        SpecClass2Record {
            value_record1: opt_value_view(self.value_record1),
            value_record2: opt_value_view(self.value_record2),
        }
    }
}

/// The class-pair record at `q`, its device offsets relative to `base`.
pub open spec fn class2_item(t: Seq<u8>, base: int, f1: ValueFormat, f2: ValueFormat, q: int) -> Option<
    (SpecClass2Record, int),
> {
    match spec_optional_value_record(t, base, q, f1) {
        None => None,
        Some((v1, e1)) => match spec_optional_value_record(t, base, e1, f2) {
            None => None,
            Some((v2, e2)) => Some((SpecClass2Record { value_record1: v1, value_record2: v2 }, e2)),
        },
    }
}

fn class2_item_exec(t: &[u8], base: usize, f1: ValueFormat, f2: ValueFormat, q: usize) -> (r: Option<
    (Class2Record, usize),
>)
    ensures
        match r {
            Some((v, e)) => class2_item(t@, base as int, f1, f2, q as int) == Some((v@, e as int)),
            None => class2_item(t@, base as int, f1, f2, q as int) is None,
        },
{
    let (v1, e1) = match optional_value_record(t, base, q, f1) {
        Some(x) => x,
        None => return None,
    };
    let (v2, e2) = match optional_value_record(t, base, e1, f2) {
        Some(x) => x,
        None => return None,
    };
    Some((Class2Record { value_record1: v1, value_record2: v2 }, e2))
}

/// The views of a sequence of class-pair records.
pub open spec fn class2_view(v: Seq<Class2Record>) -> Seq<SpecClass2Record> {
    v.map_values(|r: Class2Record| r@)
}

/// `n` class-pair records one after the other from `q`.
pub open spec fn spec_class2_records(t: Seq<u8>, base: int, f1: ValueFormat, f2: ValueFormat, q: int, n: nat) -> Option<(Seq<SpecClass2Record>, int)>
    decreases n,
{
    if n == 0 {
        Some((Seq::empty(), q))
    } else {
        match class2_item(t, base, f1, f2, q) {
            None => None,
            Some((x, e)) => match spec_class2_records(t, base, f1, f2, e, (n - 1) as nat) {
                None => None,
                Some((rest, e2)) => Some((seq![x] + rest, e2)),
            },
        }
    }
}

fn class2_records(t: &[u8], base: usize, f1: ValueFormat, f2: ValueFormat, q: usize, n: u16) -> (r: Option<(Vec<Class2Record>, usize)>)
    ensures
        match r {
            Some((v, e)) => spec_class2_records(t@, base as int, f1, f2, q as int, n as nat) == Some((class2_view(v@), e as int)),
            None => spec_class2_records(t@, base as int, f1, f2, q as int, n as nat) is None,
        },
{
    let mut v: Vec<Class2Record> = Vec::new();
    let mut i: u16 = 0;
    let mut p: usize = q;
    proof {
        if let Some((rest, _)) = spec_class2_records(t@, base as int, f1, f2, q as int, n as nat) {
            assert(class2_view(v@) + rest =~= rest);
        }
    }
    while i < n
        invariant
            0 <= i <= n,
            spec_class2_records(t@, base as int, f1, f2, q as int, n as nat) == prepend_parsed(
                class2_view(v@),
                spec_class2_records(t@, base as int, f1, f2, p as int, (n - i) as nat),
            ),
        decreases n - i,
    {
        let (x, e) = match class2_item_exec(t, base, f1, f2, p) {
            Some(r) => r,
            None => return None,
        };
        let ghost old_v = class2_view(v@);
        let ghost tail = spec_class2_records(t@, base as int, f1, f2, e as int, (n - i - 1) as nat);
        assert(spec_class2_records(t@, base as int, f1, f2, p as int, (n - i) as nat) == prepend_parsed(seq![x@], tail));
        v.push(x);
        assert(class2_view(v@) =~= old_v + seq![x@]);
        proof {
            if let Some((rest, _)) = tail {
                assert(old_v + (seq![x@] + rest) =~= (old_v + seq![x@]) + rest);
            }
        }
        i = i + 1;
        p = e;
    }
    assert(class2_view(v@) + Seq::<SpecClass2Record>::empty() =~= class2_view(v@));
    Some((v, p))
}

/// The class-pair records of one first class.
#[derive(Clone, Debug, PartialEq, Eq)]
pub struct Class1Record {
    pub class2_records: Vec<Class2Record>,
}

/// Mathematical form of `Class1Record`.
pub struct SpecClass1Record {
    pub class2_records: Seq<SpecClass2Record>,
}

impl View for Class1Record {
    type V = SpecClass1Record;

    open spec fn view(&self) -> SpecClass1Record {
        SpecClass1Record { class2_records: class2_view(self.class2_records@) }
    }
}

/// The `c2` class-pair records of a first class at `q`.
pub open spec fn class1_item(
    t: Seq<u8>,
    base: int,
    c2: u16,
    f1: ValueFormat,
    f2: ValueFormat,
    q: int,
) -> Option<(SpecClass1Record, int)> {
    match spec_class2_records(t, base, f1, f2, q, c2 as nat) {
        None => None,
        Some((recs, e)) => Some((SpecClass1Record { class2_records: recs }, e)),
    }
}

fn class1_item_exec(
    t: &[u8],
    base: usize,
    c2: u16,
    f1: ValueFormat,
    f2: ValueFormat,
    q: usize,
) -> (r: Option<(Class1Record, usize)>)
    ensures
        match r {
            Some((v, e)) => class1_item(t@, base as int, c2, f1, f2, q as int) == Some((v@, e as int)),
            None => class1_item(t@, base as int, c2, f1, f2, q as int) is None,
        },
{
    match class2_records(t, base, f1, f2, q, c2) {
        None => None,
        Some((recs, e)) => Some((Class1Record { class2_records: recs }, e)),
    }
}

/// The views of a sequence of first-class records.
pub open spec fn class1_view(v: Seq<Class1Record>) -> Seq<SpecClass1Record> {
    v.map_values(|r: Class1Record| r@)
}

/// `n` first-class records one after the other from `q`.
pub open spec fn spec_class1_records(t: Seq<u8>, base: int, c2: u16, f1: ValueFormat, f2: ValueFormat, q: int, n: nat) -> Option<(Seq<SpecClass1Record>, int)>
    decreases n,
{
    if n == 0 {
        Some((Seq::empty(), q))
    } else {
        match class1_item(t, base, c2, f1, f2, q) {
            None => None,
            Some((x, e)) => match spec_class1_records(t, base, c2, f1, f2, e, (n - 1) as nat) {
                None => None,
                Some((rest, e2)) => Some((seq![x] + rest, e2)),
            },
        }
    }
}

fn class1_records(t: &[u8], base: usize, c2: u16, f1: ValueFormat, f2: ValueFormat, q: usize, n: u16) -> (r: Option<(Vec<Class1Record>, usize)>)
    ensures
        match r {
            Some((v, e)) => spec_class1_records(t@, base as int, c2, f1, f2, q as int, n as nat) == Some((class1_view(v@), e as int)),
            None => spec_class1_records(t@, base as int, c2, f1, f2, q as int, n as nat) is None,
        },
{
    let mut v: Vec<Class1Record> = Vec::new();
    let mut i: u16 = 0;
    let mut p: usize = q;
    proof {
        if let Some((rest, _)) = spec_class1_records(t@, base as int, c2, f1, f2, q as int, n as nat) {
            assert(class1_view(v@) + rest =~= rest);
        }
    }
    while i < n
        invariant
            0 <= i <= n,
            spec_class1_records(t@, base as int, c2, f1, f2, q as int, n as nat) == prepend_parsed(
                class1_view(v@),
                spec_class1_records(t@, base as int, c2, f1, f2, p as int, (n - i) as nat),
            ),
        decreases n - i,
    {
        let (x, e) = match class1_item_exec(t, base, c2, f1, f2, p) {
            Some(r) => r,
            None => return None,
        };
        let ghost old_v = class1_view(v@);
        let ghost tail = spec_class1_records(t@, base as int, c2, f1, f2, e as int, (n - i - 1) as nat);
        assert(spec_class1_records(t@, base as int, c2, f1, f2, p as int, (n - i) as nat) == prepend_parsed(seq![x@], tail));
        v.push(x);
        assert(class1_view(v@) =~= old_v + seq![x@]);
        proof {
            if let Some((rest, _)) = tail {
                assert(old_v + (seq![x@] + rest) =~= (old_v + seq![x@]) + rest);
            }
        }
        i = i + 1;
        p = e;
    }
    assert(class1_view(v@) + Seq::<SpecClass1Record>::empty() =~= class1_view(v@));
    Some((v, p))
}

/// The views of a sequence of anchor links.
pub open spec fn anchors_view(v: Seq<Link16<AnchorTable>>) -> Seq<Link16<SpecAnchorTable>> {
    v.map_values(|l: Link16<AnchorTable>| l@)
}

/// The anchor offset at `q`, relative to `base`, and the position after it.
pub open spec fn anchor_item(t: Seq<u8>, base: int, q: int) -> Option<(Link16<SpecAnchorTable>, int)> {
    match spec_anchor_link(t, base, q) {
        Some(l) => Some((l, q + 2)),
        None => None,
    }
}

fn anchor_item_exec(t: &[u8], base: usize, q: usize) -> (r: Option<(Link16<AnchorTable>, usize)>)
    ensures
        match r {
            Some((v, e)) => anchor_item(t@, base as int, q as int) == Some((v@, e as int)),
            None => anchor_item(t@, base as int, q as int) is None,
        },
{
    if !has_bytes(t, q, 2) {
        return None;
    }
    match anchor_link(t, base, q) {
        Some(l) => Some((l, q + 2)),
        None => None,
    }
}

/// `n` anchor offsets from `q`, relative to `base`.
pub open spec fn spec_anchor_links(t: Seq<u8>, base: int, q: int, n: nat) -> Option<(Seq<Link16<SpecAnchorTable>>, int)>
    decreases n,
{
    if n == 0 {
        Some((Seq::empty(), q))
    } else {
        match anchor_item(t, base, q) {
            None => None,
            Some((x, e)) => match spec_anchor_links(t, base, e, (n - 1) as nat) {
                None => None,
                Some((rest, e2)) => Some((seq![x] + rest, e2)),
            },
        }
    }
}

fn anchor_links(t: &[u8], base: usize, q: usize, n: u16) -> (r: Option<(Vec<Link16<AnchorTable>>, usize)>)
    ensures
        match r {
            Some((v, e)) => spec_anchor_links(t@, base as int, q as int, n as nat) == Some((anchors_view(v@), e as int)),
            None => spec_anchor_links(t@, base as int, q as int, n as nat) is None,
        },
{
    let mut v: Vec<Link16<AnchorTable>> = Vec::new();
    let mut i: u16 = 0;
    let mut p: usize = q;
    proof {
        if let Some((rest, _)) = spec_anchor_links(t@, base as int, q as int, n as nat) {
            assert(anchors_view(v@) + rest =~= rest);
        }
    }
    while i < n
        invariant
            0 <= i <= n,
            spec_anchor_links(t@, base as int, q as int, n as nat) == prepend_parsed(
                anchors_view(v@),
                spec_anchor_links(t@, base as int, p as int, (n - i) as nat),
            ),
        decreases n - i,
    {
        let (x, e) = match anchor_item_exec(t, base, p) {
            Some(r) => r,
            None => return None,
        };
        let ghost old_v = anchors_view(v@);
        let ghost tail = spec_anchor_links(t@, base as int, e as int, (n - i - 1) as nat);
        assert(spec_anchor_links(t@, base as int, p as int, (n - i) as nat) == prepend_parsed(seq![x@], tail));
        v.push(x);
        assert(anchors_view(v@) =~= old_v + seq![x@]);
        proof {
            if let Some((rest, _)) = tail {
                assert(old_v + (seq![x@] + rest) =~= (old_v + seq![x@]) + rest);
            }
        }
        i = i + 1;
        p = e;
    }
    assert(anchors_view(v@) + Seq::<Link16<SpecAnchorTable>>::empty() =~= anchors_view(v@));
    Some((v, p))
}

/// The anchors of one base glyph, ligature component or mark, one per mark
/// class.
#[derive(Clone, Debug, PartialEq, Eq)]
pub struct AnchorRecord {
    pub anchors: Vec<Link16<AnchorTable>>,
}

/// Mathematical form of `AnchorRecord`.
pub struct SpecAnchorRecord {
    pub anchors: Seq<Link16<SpecAnchorTable>>,
}

impl View for AnchorRecord {
    type V = SpecAnchorRecord;

    open spec fn view(&self) -> SpecAnchorRecord {
        SpecAnchorRecord { anchors: anchors_view(self.anchors@) }
    }
}

/// The `classes` anchor offsets of a record at `q`, relative to `base`.
pub open spec fn anchor_record_item(t: Seq<u8>, base: int, classes: u16, q: int) -> Option<
    (SpecAnchorRecord, int),
> {
    match spec_anchor_links(t, base, q, classes as nat) {
        Some((v, e)) => Some((SpecAnchorRecord { anchors: v }, e)),
        None => None,
    }
}

fn anchor_record_item_exec(t: &[u8], base: usize, classes: u16, q: usize) -> (r: Option<
    (AnchorRecord, usize),
>)
    ensures
        match r {
            Some((v, e)) => anchor_record_item(t@, base as int, classes, q as int) == Some((v@, e as int)),
            None => anchor_record_item(t@, base as int, classes, q as int) is None,
        },
{
    match anchor_links(t, base, q, classes) {
        Some((v, e)) => Some((AnchorRecord { anchors: v }, e)),
        None => None,
    }
}

/// The views of a sequence of anchor records.
pub open spec fn anchor_records_view(v: Seq<AnchorRecord>) -> Seq<SpecAnchorRecord> {
    v.map_values(|r: AnchorRecord| r@)
}

/// `n` anchor records one after the other from `q`.
pub open spec fn spec_anchor_records(t: Seq<u8>, base: int, classes: u16, q: int, n: nat) -> Option<(Seq<SpecAnchorRecord>, int)>
    decreases n,
{
    if n == 0 {
        Some((Seq::empty(), q))
    } else {
        match anchor_record_item(t, base, classes, q) {
            None => None,
            Some((x, e)) => match spec_anchor_records(t, base, classes, e, (n - 1) as nat) {
                None => None,
                Some((rest, e2)) => Some((seq![x] + rest, e2)),
            },
        }
    }
}

fn anchor_records(t: &[u8], base: usize, classes: u16, q: usize, n: u16) -> (r: Option<(Vec<AnchorRecord>, usize)>)
    ensures
        match r {
            Some((v, e)) => spec_anchor_records(t@, base as int, classes, q as int, n as nat) == Some((anchor_records_view(v@), e as int)),
            None => spec_anchor_records(t@, base as int, classes, q as int, n as nat) is None,
        },
{
    let mut v: Vec<AnchorRecord> = Vec::new();
    let mut i: u16 = 0;
    let mut p: usize = q;
    proof {
        if let Some((rest, _)) = spec_anchor_records(t@, base as int, classes, q as int, n as nat) {
            assert(anchor_records_view(v@) + rest =~= rest);
        }
    }
    while i < n
        invariant
            0 <= i <= n,
            spec_anchor_records(t@, base as int, classes, q as int, n as nat) == prepend_parsed(
                anchor_records_view(v@),
                spec_anchor_records(t@, base as int, classes, p as int, (n - i) as nat),
            ),
        decreases n - i,
    {
        let (x, e) = match anchor_record_item_exec(t, base, classes, p) {
            Some(r) => r,
            None => return None,
        };
        let ghost old_v = anchor_records_view(v@);
        let ghost tail = spec_anchor_records(t@, base as int, classes, e as int, (n - i - 1) as nat);
        assert(spec_anchor_records(t@, base as int, classes, p as int, (n - i) as nat) == prepend_parsed(seq![x@], tail));
        v.push(x);
        assert(anchor_records_view(v@) =~= old_v + seq![x@]);
        proof {
            if let Some((rest, _)) = tail {
                assert(old_v + (seq![x@] + rest) =~= (old_v + seq![x@]) + rest);
            }
        }
        i = i + 1;
        p = e;
    }
    assert(anchor_records_view(v@) + Seq::<SpecAnchorRecord>::empty() =~= anchor_records_view(v@));
    Some((v, p))
}

/// An array of anchor records, one per base glyph (or per mark, for the
/// second marks of a mark-to-mark attachment).
#[derive(Clone, Debug, PartialEq, Eq)]
pub struct AnchorArray {
    pub count: u16,
    pub records: Vec<AnchorRecord>,
}

/// Mathematical form of `AnchorArray`.
pub struct SpecAnchorArray {
    pub count: u16,
    pub records: Seq<SpecAnchorRecord>,
}

impl View for AnchorArray {
    type V = SpecAnchorArray;

    open spec fn view(&self) -> SpecAnchorArray {
        SpecAnchorArray { count: self.count, records: anchor_records_view(self.records@) }
    }
}

/// The anchor array at `x`: a count and that many records of `classes`
/// anchor offsets relative to `x`.
pub open spec fn spec_anchor_array(t: Seq<u8>, x: int, classes: u16) -> Option<SpecAnchorArray> {
    if !avail(t, x, 2) {
        None
    } else {
        match spec_anchor_records(t, x, classes, x + 2, u16_at(t, x) as nat) {
            Some((v, _)) => Some(SpecAnchorArray { count: u16_at(t, x), records: v }),
            None => None,
        }
    }
}

fn anchor_array(t: &[u8], x: usize, classes: u16) -> (r: Option<AnchorArray>)
    ensures
        match r {
            Some(v) => spec_anchor_array(t@, x as int, classes) == Some(v@),
            None => spec_anchor_array(t@, x as int, classes) is None,
        },
{
    if !has_bytes(t, x, 2) {
        return None;
    }
    let n = get_u16be(t, x);
    match anchor_records(t, x, classes, x + 2, n) {
        Some((v, _)) => Some(AnchorArray { count: n, records: v }),
        None => None,
    }
}

/// The anchor-array offset at `q`, relative to `base`, with its array.
pub open spec fn spec_anchor_array_link(t: Seq<u8>, base: int, q: int, classes: u16) -> Option<
    Link16<SpecAnchorArray>,
> {
    match spec_offset16(t, base, q) {
        None => None,
        Some(((off, None), _)) => Some(Link16 { offset: off, link: None }),
        Some(((off, Some(x)), _)) => match spec_anchor_array(t, x, classes) {
            Some(a) => Some(Link16 { offset: off, link: Some(a) }),
            None => None,
        },
    }
}

fn anchor_array_link(t: &[u8], base: usize, q: usize, classes: u16) -> (r: Option<
    Link16<AnchorArray>,
>)
    ensures
        match r {
            Some(l) => spec_anchor_array_link(t@, base as int, q as int, classes) == Some(l@),
            None => spec_anchor_array_link(t@, base as int, q as int, classes) is None,
        },
{
    let (off, target, _) = match offset16_mandatory(t, base, q) {
        Some(o) => o,
        None => return None,
    };
    match target {
        None => Some(Link16 { offset: off, link: None }),
        Some(x) => match anchor_array(t, x, classes) {
            Some(a) => Some(Link16 { offset: off, link: Some(a) }),
            None => None,
        },
    }
}

/// The anchor-array offset at `q` as a sequence item.
pub open spec fn ligature_attach_item(t: Seq<u8>, base: int, classes: u16, q: int) -> Option<
    (Link16<SpecAnchorArray>, int),
> {
    match spec_anchor_array_link(t, base, q, classes) {
        Some(l) => Some((l, q + 2)),
        None => None,
    }
}

fn ligature_attach_item_exec(t: &[u8], base: usize, classes: u16, q: usize) -> (r: Option<
    (Link16<AnchorArray>, usize),
>)
    ensures
        match r {
            Some((v, e)) => ligature_attach_item(t@, base as int, classes, q as int) == Some(
                (v@, e as int),
            ),
            None => ligature_attach_item(t@, base as int, classes, q as int) is None,
        },
{
    if !has_bytes(t, q, 2) {
        return None;
    }
    match anchor_array_link(t, base, q, classes) {
        Some(l) => Some((l, q + 2)),
        None => None,
    }
}

/// The views of a sequence of anchor-array links.
pub open spec fn anchor_arrays_view(v: Seq<Link16<AnchorArray>>) -> Seq<Link16<SpecAnchorArray>> {
    v.map_values(|l: Link16<AnchorArray>| l@)
}

/// `n` offsets from `q`, relative to `base`, to the anchor arrays of ligatures (one record per component).
pub open spec fn spec_ligature_attach_links(t: Seq<u8>, base: int, classes: u16, q: int, n: nat) -> Option<(Seq<Link16<SpecAnchorArray>>, int)>
    decreases n,
{
    if n == 0 {
        Some((Seq::empty(), q))
    } else {
        match ligature_attach_item(t, base, classes, q) {
            None => None,
            Some((x, e)) => match spec_ligature_attach_links(t, base, classes, e, (n - 1) as nat) {
                None => None,
                Some((rest, e2)) => Some((seq![x] + rest, e2)),
            },
        }
    }
}

fn ligature_attach_links(t: &[u8], base: usize, classes: u16, q: usize, n: u16) -> (r: Option<(Vec<Link16<AnchorArray>>, usize)>)
    ensures
        match r {
            Some((v, e)) => spec_ligature_attach_links(t@, base as int, classes, q as int, n as nat) == Some((anchor_arrays_view(v@), e as int)),
            None => spec_ligature_attach_links(t@, base as int, classes, q as int, n as nat) is None,
        },
{
    let mut v: Vec<Link16<AnchorArray>> = Vec::new();
    let mut i: u16 = 0;
    let mut p: usize = q;
    proof {
        if let Some((rest, _)) = spec_ligature_attach_links(t@, base as int, classes, q as int, n as nat) {
            assert(anchor_arrays_view(v@) + rest =~= rest);
        }
    }
    while i < n
        invariant
            0 <= i <= n,
            spec_ligature_attach_links(t@, base as int, classes, q as int, n as nat) == prepend_parsed(
                anchor_arrays_view(v@),
                spec_ligature_attach_links(t@, base as int, classes, p as int, (n - i) as nat),
            ),
        decreases n - i,
    {
        let (x, e) = match ligature_attach_item_exec(t, base, classes, p) {
            Some(r) => r,
            None => return None,
        };
        let ghost old_v = anchor_arrays_view(v@);
        let ghost tail = spec_ligature_attach_links(t@, base as int, classes, e as int, (n - i - 1) as nat);
        assert(spec_ligature_attach_links(t@, base as int, classes, p as int, (n - i) as nat) == prepend_parsed(seq![x@], tail));
        v.push(x);
        assert(anchor_arrays_view(v@) =~= old_v + seq![x@]);
        proof {
            if let Some((rest, _)) = tail {
                assert(old_v + (seq![x@] + rest) =~= (old_v + seq![x@]) + rest);
            }
        }
        i = i + 1;
        p = e;
    }
    assert(anchor_arrays_view(v@) + Seq::<Link16<SpecAnchorArray>>::empty() =~= anchor_arrays_view(v@));
    Some((v, p))
}

/// The ligature array: for each ligature, its attachment table (an anchor
/// array with a record per component).
#[derive(Clone, Debug, PartialEq, Eq)]
pub struct LigatureArray {
    pub ligature_count: u16,
    pub ligature_attach_offsets: Vec<Link16<AnchorArray>>,
}

/// Mathematical form of `LigatureArray`.
pub struct SpecLigatureArray {
    pub ligature_count: u16,
    pub ligature_attach_offsets: Seq<Link16<SpecAnchorArray>>,
}

impl View for LigatureArray {
    type V = SpecLigatureArray;

    open spec fn view(&self) -> SpecLigatureArray {
        SpecLigatureArray {
            ligature_count: self.ligature_count,
            ligature_attach_offsets: anchor_arrays_view(self.ligature_attach_offsets@),
        }
    }
}

/// The ligature array at `x`: a count and that many offsets relative to
/// `x`.
pub open spec fn spec_ligature_array(t: Seq<u8>, x: int, classes: u16) -> Option<SpecLigatureArray> {
    if !avail(t, x, 2) {
        None
    } else {
        match spec_ligature_attach_links(t, x, classes, x + 2, u16_at(t, x) as nat) {
            Some((v, _)) => Some(SpecLigatureArray { ligature_count: u16_at(t, x), ligature_attach_offsets: v }),
            None => None,
        }
    }
}

fn ligature_array(t: &[u8], x: usize, classes: u16) -> (r: Option<LigatureArray>)
    ensures
        match r {
            Some(v) => spec_ligature_array(t@, x as int, classes) == Some(v@),
            None => spec_ligature_array(t@, x as int, classes) is None,
        },
{
    if !has_bytes(t, x, 2) {
        return None;
    }
    let n = get_u16be(t, x);
    match ligature_attach_links(t, x, classes, x + 2, n) {
        Some((v, _)) => Some(LigatureArray { ligature_count: n, ligature_attach_offsets: v }),
        None => None,
    }
}

/// A mark: its class and its anchor.
#[derive(Clone, Debug, PartialEq, Eq)]
pub struct MarkRecord {
    pub mark_class: u16,
    pub mark_anchor_offset: Link16<AnchorTable>,
}

/// Mathematical form of `MarkRecord`.
pub struct SpecMarkRecord {
    pub mark_class: u16,
    pub mark_anchor_offset: Link16<SpecAnchorTable>,
}

impl View for MarkRecord {
    type V = SpecMarkRecord;

    open spec fn view(&self) -> SpecMarkRecord {
        SpecMarkRecord { mark_class: self.mark_class, mark_anchor_offset: self.mark_anchor_offset@ }
    }
}

/// The mark record at `q` of a mark array at `base`.
pub open spec fn mark_item(t: Seq<u8>, base: int, q: int) -> Option<(SpecMarkRecord, int)> {
    if !avail(t, q, 2) {
        None
    } else {
        match spec_anchor_link(t, base, q + 2) {
            Some(l) => Some((SpecMarkRecord { mark_class: u16_at(t, q), mark_anchor_offset: l }, q + 4)),
            None => None,
        }
    }
}

fn mark_item_exec(t: &[u8], base: usize, q: usize) -> (r: Option<(MarkRecord, usize)>)
    ensures
        match r {
            Some((v, e)) => mark_item(t@, base as int, q as int) == Some((v@, e as int)),
            None => mark_item(t@, base as int, q as int) is None,
        },
{
    if !has_bytes(t, q, 4) {
        if has_bytes(t, q, 2) {
            assert(spec_anchor_link(t@, base as int, q + 2) is None);
        }
        return None;
    }
    match anchor_link(t, base, q + 2) {
        Some(l) => Some((MarkRecord { mark_class: get_u16be(t, q), mark_anchor_offset: l }, q + 4)),
        None => None,
    }
}

/// The views of a sequence of mark records.
pub open spec fn marks_view(v: Seq<MarkRecord>) -> Seq<SpecMarkRecord> {
    v.map_values(|r: MarkRecord| r@)
}

/// `n` mark records from `q`, relative to `base`.
pub open spec fn spec_mark_records(t: Seq<u8>, base: int, q: int, n: nat) -> Option<(Seq<SpecMarkRecord>, int)>
    decreases n,
{
    if n == 0 {
        Some((Seq::empty(), q))
    } else {
        match mark_item(t, base, q) {
            None => None,
            Some((x, e)) => match spec_mark_records(t, base, e, (n - 1) as nat) {
                None => None,
                Some((rest, e2)) => Some((seq![x] + rest, e2)),
            },
        }
    }
}

fn mark_records(t: &[u8], base: usize, q: usize, n: u16) -> (r: Option<(Vec<MarkRecord>, usize)>)
    ensures
        match r {
            Some((v, e)) => spec_mark_records(t@, base as int, q as int, n as nat) == Some((marks_view(v@), e as int)),
            None => spec_mark_records(t@, base as int, q as int, n as nat) is None,
        },
{
    let mut v: Vec<MarkRecord> = Vec::new();
    let mut i: u16 = 0;
    let mut p: usize = q;
    proof {
        if let Some((rest, _)) = spec_mark_records(t@, base as int, q as int, n as nat) {
            assert(marks_view(v@) + rest =~= rest);
        }
    }
    while i < n
        invariant
            0 <= i <= n,
            spec_mark_records(t@, base as int, q as int, n as nat) == prepend_parsed(
                marks_view(v@),
                spec_mark_records(t@, base as int, p as int, (n - i) as nat),
            ),
        decreases n - i,
    {
        let (x, e) = match mark_item_exec(t, base, p) {
            Some(r) => r,
            None => return None,
        };
        let ghost old_v = marks_view(v@);
        let ghost tail = spec_mark_records(t@, base as int, e as int, (n - i - 1) as nat);
        assert(spec_mark_records(t@, base as int, p as int, (n - i) as nat) == prepend_parsed(seq![x@], tail));
        v.push(x);
        assert(marks_view(v@) =~= old_v + seq![x@]);
        proof {
            if let Some((rest, _)) = tail {
                assert(old_v + (seq![x@] + rest) =~= (old_v + seq![x@]) + rest);
            }
        }
        i = i + 1;
        p = e;
    }
    assert(marks_view(v@) + Seq::<SpecMarkRecord>::empty() =~= marks_view(v@));
    Some((v, p))
}

/// The mark array: the class and anchor of each covered mark.
#[derive(Clone, Debug, PartialEq, Eq)]
pub struct MarkArray {
    pub mark_count: u16,
    pub mark_records: Vec<MarkRecord>,
}

/// Mathematical form of `MarkArray`.
pub struct SpecMarkArray {
    pub mark_count: u16,
    pub mark_records: Seq<SpecMarkRecord>,
}

impl View for MarkArray {
    type V = SpecMarkArray;

    open spec fn view(&self) -> SpecMarkArray {
        SpecMarkArray { mark_count: self.mark_count, mark_records: marks_view(self.mark_records@) }
    }
}

/// The mark array at `x`: a count and that many mark records whose anchor
/// offsets are relative to `x`.
pub open spec fn spec_mark_array(t: Seq<u8>, x: int) -> Option<SpecMarkArray> {
    if !avail(t, x, 2) {
        None
    } else {
        match spec_mark_records(t, x, x + 2, u16_at(t, x) as nat) {
            Some((v, _)) => Some(SpecMarkArray { mark_count: u16_at(t, x), mark_records: v }),
            None => None,
        }
    }
}

fn mark_array(t: &[u8], x: usize) -> (r: Option<MarkArray>)
    ensures
        match r {
            Some(v) => spec_mark_array(t@, x as int) == Some(v@),
            None => spec_mark_array(t@, x as int) is None,
        },
{
    if !has_bytes(t, x, 2) {
        return None;
    }
    let n = get_u16be(t, x);
    match mark_records(t, x, x + 2, n) {
        Some((v, _)) => Some(MarkArray { mark_count: n, mark_records: v }),
        None => None,
    }
}

/// The mark-array offset at `q`, relative to `base`, with its array.
pub open spec fn spec_mark_array_link(t: Seq<u8>, base: int, q: int) -> Option<Link16<SpecMarkArray>> {
    match spec_offset16(t, base, q) {
        None => None,
        Some(((off, None), _)) => Some(Link16 { offset: off, link: None }),
        Some(((off, Some(x)), _)) => match spec_mark_array(t, x) {
            Some(a) => Some(Link16 { offset: off, link: Some(a) }),
            None => None,
        },
    }
}

fn mark_array_link(t: &[u8], base: usize, q: usize) -> (r: Option<Link16<MarkArray>>)
    ensures
        match r {
            Some(l) => spec_mark_array_link(t@, base as int, q as int) == Some(l@),
            None => spec_mark_array_link(t@, base as int, q as int) is None,
        },
{
    let (off, target, _) = match offset16_mandatory(t, base, q) {
        Some(o) => o,
        None => return None,
    };
    match target {
        None => Some(Link16 { offset: off, link: None }),
        Some(x) => match mark_array(t, x) {
            Some(a) => Some(Link16 { offset: off, link: Some(a) }),
            None => None,
        },
    }
}

/// The ligature-array offset at `q`, relative to `base`, with its array.
pub open spec fn spec_ligature_array_link(t: Seq<u8>, base: int, q: int, classes: u16) -> Option<
    Link16<SpecLigatureArray>,
> {
    match spec_offset16(t, base, q) {
        None => None,
        Some(((off, None), _)) => Some(Link16 { offset: off, link: None }),
        Some(((off, Some(x)), _)) => match spec_ligature_array(t, x, classes) {
            Some(a) => Some(Link16 { offset: off, link: Some(a) }),
            None => None,
        },
    }
}

fn ligature_array_link(t: &[u8], base: usize, q: usize, classes: u16) -> (r: Option<
    Link16<LigatureArray>,
>)
    ensures
        match r {
            Some(l) => spec_ligature_array_link(t@, base as int, q as int, classes) == Some(l@),
            None => spec_ligature_array_link(t@, base as int, q as int, classes) is None,
        },
{
    let (off, target, _) = match offset16_mandatory(t, base, q) {
        Some(o) => o,
        None => return None,
    };
    match target {
        None => Some(Link16 { offset: off, link: None }),
        Some(x) => match ligature_array(t, x, classes) {
            Some(a) => Some(Link16 { offset: off, link: Some(a) }),
            None => None,
        },
    }
}

/// An entry and an exit anchor of a cursive attachment.
#[derive(Clone, Debug, PartialEq, Eq)]
pub struct EntryExitRecord {
    pub entry_anchor: Link16<AnchorTable>,
    pub exit_anchor: Link16<AnchorTable>,
}

/// Mathematical form of `EntryExitRecord`.
pub struct SpecEntryExitRecord {
    pub entry_anchor: Link16<SpecAnchorTable>,
    pub exit_anchor: Link16<SpecAnchorTable>,
}

impl View for EntryExitRecord {
    type V = SpecEntryExitRecord;

    open spec fn view(&self) -> SpecEntryExitRecord {
        SpecEntryExitRecord { entry_anchor: self.entry_anchor@, exit_anchor: self.exit_anchor@ }
    }
}

/// The entry-exit record at `q`, its offsets relative to `base`.
pub open spec fn entry_exit_item(t: Seq<u8>, base: int, q: int) -> Option<(SpecEntryExitRecord, int)> {
    match (spec_anchor_link(t, base, q), spec_anchor_link(t, base, q + 2)) {
        (Some(a), Some(b)) => Some((SpecEntryExitRecord { entry_anchor: a, exit_anchor: b }, q + 4)),
        _ => None,
    }
}

fn entry_exit_item_exec(t: &[u8], base: usize, q: usize) -> (r: Option<(EntryExitRecord, usize)>)
    ensures
        match r {
            Some((v, e)) => entry_exit_item(t@, base as int, q as int) == Some((v@, e as int)),
            None => entry_exit_item(t@, base as int, q as int) is None,
        },
{
    if !has_bytes(t, q, 4) {
        if has_bytes(t, q, 2) {
            assert(spec_anchor_link(t@, base as int, q + 2) is None);
        }
        return None;
    }
    let a = match anchor_link(t, base, q) {
        Some(l) => l,
        None => return None,
    };
    let b = match anchor_link(t, base, q + 2) {
        Some(l) => l,
        None => return None,
    };
    Some((EntryExitRecord { entry_anchor: a, exit_anchor: b }, q + 4))
}

/// The views of a sequence of entry-exit records.
pub open spec fn entry_exits_view(v: Seq<EntryExitRecord>) -> Seq<SpecEntryExitRecord> {
    v.map_values(|r: EntryExitRecord| r@)
}

/// `n` entry-exit records from `q`, relative to `base`.
pub open spec fn spec_entry_exit_records(t: Seq<u8>, base: int, q: int, n: nat) -> Option<(Seq<SpecEntryExitRecord>, int)>
    decreases n,
{
    if n == 0 {
        Some((Seq::empty(), q))
    } else {
        match entry_exit_item(t, base, q) {
            None => None,
            Some((x, e)) => match spec_entry_exit_records(t, base, e, (n - 1) as nat) {
                None => None,
                Some((rest, e2)) => Some((seq![x] + rest, e2)),
            },
        }
    }
}

fn entry_exit_records(t: &[u8], base: usize, q: usize, n: u16) -> (r: Option<(Vec<EntryExitRecord>, usize)>)
    ensures
        match r {
            Some((v, e)) => spec_entry_exit_records(t@, base as int, q as int, n as nat) == Some((entry_exits_view(v@), e as int)),
            None => spec_entry_exit_records(t@, base as int, q as int, n as nat) is None,
        },
{
    let mut v: Vec<EntryExitRecord> = Vec::new();
    let mut i: u16 = 0;
    let mut p: usize = q;
    proof {
        if let Some((rest, _)) = spec_entry_exit_records(t@, base as int, q as int, n as nat) {
            assert(entry_exits_view(v@) + rest =~= rest);
        }
    }
    while i < n
        invariant
            0 <= i <= n,
            spec_entry_exit_records(t@, base as int, q as int, n as nat) == prepend_parsed(
                entry_exits_view(v@),
                spec_entry_exit_records(t@, base as int, p as int, (n - i) as nat),
            ),
        decreases n - i,
    {
        let (x, e) = match entry_exit_item_exec(t, base, p) {
            Some(r) => r,
            None => return None,
        };
        let ghost old_v = entry_exits_view(v@);
        let ghost tail = spec_entry_exit_records(t@, base as int, e as int, (n - i - 1) as nat);
        assert(spec_entry_exit_records(t@, base as int, p as int, (n - i) as nat) == prepend_parsed(seq![x@], tail));
        v.push(x);
        assert(entry_exits_view(v@) =~= old_v + seq![x@]);
        proof {
            if let Some((rest, _)) = tail {
                assert(old_v + (seq![x@] + rest) =~= (old_v + seq![x@]) + rest);
            }
        }
        i = i + 1;
        p = e;
    }
    assert(entry_exits_view(v@) + Seq::<SpecEntryExitRecord>::empty() =~= entry_exits_view(v@));
    Some((v, p))
}

/// The body of a single adjustment subtable, by format: one value record
/// for all covered glyphs, or one per covered glyph.
#[derive(Clone, Debug, PartialEq, Eq)]
pub enum SinglePosData {
    Format1 { coverage_offset: Link16<CoverageTable>, value_format: ValueFormat, value_record: ValueRecord },
    Format2 {
        coverage_offset: Link16<CoverageTable>,
        value_format: ValueFormat,
        value_count: u16,
        value_records: Vec<ValueRecord>,
    },
}

/// Mathematical form of `SinglePosData`.
pub enum SpecSinglePosData {
    Format1 {
        coverage_offset: Link16<SpecCoverageTable>,
        value_format: ValueFormat,
        value_record: SpecValueRecord,
    },
    Format2 {
        coverage_offset: Link16<SpecCoverageTable>,
        value_format: ValueFormat,
        value_count: u16,
        value_records: Seq<SpecValueRecord>,
    },
}

/// A single adjustment subtable.
#[derive(Clone, Debug, PartialEq, Eq)]
pub struct SinglePos {
    pub pos_format: u16,
    pub subtable: SinglePosData,
}

/// Mathematical form of `SinglePos`.
pub struct SpecSinglePos {
    pub pos_format: u16,
    pub subtable: SpecSinglePosData,
}

impl View for SinglePos {
    type V = SpecSinglePos;

    open spec fn view(&self) -> SpecSinglePos {
        SpecSinglePos {
            pos_format: self.pos_format,
            subtable: match &self.subtable {
                SinglePosData::Format1 { coverage_offset, value_format, value_record } => {
                    SpecSinglePosData::Format1 {
                        coverage_offset: coverage_offset@,
                        value_format: *value_format,
                        value_record: value_record@,
                    }
                },
                SinglePosData::Format2 { coverage_offset, value_format, value_count, value_records } => {
                    SpecSinglePosData::Format2 {
                        coverage_offset: coverage_offset@,
                        value_format: *value_format,
                        value_count: *value_count,
                        value_records: values_view(value_records@),
                    }
                },
            },
        }
    }
}

/// The single adjustment subtable at `p`, of format 1 or 2; the value
/// format must have no reserved bit set, and other formats fail.
pub open spec fn spec_single_pos(t: Seq<u8>, p: int) -> Option<(SpecSinglePos, int)> {
    if !avail(t, p, 2) {
        None
    } else {
        let f = u16_at(t, p);
        match spec_coverage_link(t, p, p + 2) {
            None => None,
            Some(cov) => if f == 1 && avail(t, p + 4, 2) {
                match spec_value_format(u16_at(t, p + 4)) {
                    None => None,
                    Some(vf) => match spec_value_record(t, p, p + 6, vf) {
                        None => None,
                        Some((vr, e)) => Some((SpecSinglePos {
                            pos_format: 1,
                            subtable: SpecSinglePosData::Format1 {
                                coverage_offset: cov,
                                value_format: vf,
                                value_record: vr,
                            },
                        }, e)),
                    },
                }
            } else if f == 2 && avail(t, p + 4, 4) {
                match spec_value_format(u16_at(t, p + 4)) {
                    None => None,
                    Some(vf) => match spec_value_records(t, p, vf, p + 8, u16_at(t, p + 6) as nat) {
                        None => None,
                        Some((vrs, e)) => Some((SpecSinglePos {
                            pos_format: 2,
                            subtable: SpecSinglePosData::Format2 {
                                coverage_offset: cov,
                                value_format: vf,
                                value_count: u16_at(t, p + 6),
                                value_records: vrs,
                            },
                        }, e)),
                    },
                }
            } else {
                None
            },
        }
    }
}

/// Parses the single adjustment subtable at `p`.
pub fn single_pos(t: &[u8], p: usize) -> (r: Option<(SinglePos, usize)>)
    ensures
        match r {
            Some((v, e)) => spec_single_pos(t@, p as int) == Some((v@, e as int)),
            None => spec_single_pos(t@, p as int) is None,
        },
{
    if !has_bytes(t, p, 2) {
        return None;
    }
    let f = get_u16be(t, p);
    let cov = match coverage_link(t, p, p + 2) {
        Some(c) => c,
        None => return None,
    };
    if f == 1 && has_bytes(t, p + 4, 2) {
        let vf = match value_format(get_u16be(t, p + 4)) {
            Some(v) => v,
            None => return None,
        };
        let (vr, e) = match value_record(t, p, p + 6, vf) {
            Some(x) => x,
            None => return None,
        };
        let d = SinglePosData::Format1 { coverage_offset: cov, value_format: vf, value_record: vr };
        Some((SinglePos { pos_format: 1, subtable: d }, e))
    } else if f == 2 && has_bytes(t, p + 4, 4) {
        let vf = match value_format(get_u16be(t, p + 4)) {
            Some(v) => v,
            None => return None,
        };
        let n = get_u16be(t, p + 6);
        let (vrs, e) = match value_records(t, p, vf, p + 8, n) {
            Some(x) => x,
            None => return None,
        };
        let d = SinglePosData::Format2 {
            coverage_offset: cov,
            value_format: vf,
            value_count: n,
            value_records: vrs,
        };
        Some((SinglePos { pos_format: 2, subtable: d }, e))
    } else {
        None
    }
}

/// The body of a pair adjustment subtable, by format: pair sets by first
/// glyph, or value records by pair of glyph classes.
#[derive(Clone, Debug, PartialEq, Eq)]
pub enum PairPosData {
    Format1 {
        coverage: Link16<CoverageTable>,
        value_format1: ValueFormat,
        value_format2: ValueFormat,
        pair_set_count: u16,
        pair_sets: Vec<Link16<PairSet>>,
    },
    Format2 {
        coverage: Link16<CoverageTable>,
        value_format1: ValueFormat,
        value_format2: ValueFormat,
        class_def1: Link16<ClassDef>,
        class_def2: Link16<ClassDef>,
        class1_count: u16,
        class2_count: u16,
        class1_records: Vec<Class1Record>,
    },
}

/// Mathematical form of `PairPosData`.
pub enum SpecPairPosData {
    Format1 {
        coverage: Link16<SpecCoverageTable>,
        value_format1: ValueFormat,
        value_format2: ValueFormat,
        pair_set_count: u16,
        pair_sets: Seq<Link16<SpecPairSet>>,
    },
    Format2 {
        coverage: Link16<SpecCoverageTable>,
        value_format1: ValueFormat,
        value_format2: ValueFormat,
        class_def1: Link16<SpecClassDef>,
        class_def2: Link16<SpecClassDef>,
        class1_count: u16,
        class2_count: u16,
        class1_records: Seq<SpecClass1Record>,
    },
}

/// A pair adjustment subtable.
#[derive(Clone, Debug, PartialEq, Eq)]
pub struct PairPos {
    pub pos_format: u16,
    pub subtable: PairPosData,
}

/// Mathematical form of `PairPos`.
pub struct SpecPairPos {
    pub pos_format: u16,
    pub subtable: SpecPairPosData,
}

impl View for PairPos {
    type V = SpecPairPos;

    open spec fn view(&self) -> SpecPairPos {
        SpecPairPos {
            pos_format: self.pos_format,
            subtable: match &self.subtable {
                PairPosData::Format1 { coverage, value_format1, value_format2, pair_set_count, pair_sets } => {
                    SpecPairPosData::Format1 {
                        coverage: coverage@,
                        value_format1: *value_format1,
                        value_format2: *value_format2,
                        pair_set_count: *pair_set_count,
                        pair_sets: pair_sets_view(pair_sets@),
                    }
                },
                PairPosData::Format2 {
                    coverage,
                    value_format1,
                    value_format2,
                    class_def1,
                    class_def2,
                    class1_count,
                    class2_count,
                    class1_records,
                } => SpecPairPosData::Format2 {
                    coverage: coverage@,
                    value_format1: *value_format1,
                    value_format2: *value_format2,
                    class_def1: class_def1@,
                    class_def2: class_def2@,
                    class1_count: *class1_count,
                    class2_count: *class2_count,
                    class1_records: class1_view(class1_records@),
                },
            },
        }
    }
}

/// The pair adjustment subtable at `p`, of format 1 or 2; both value
/// formats must have no reserved bit set, and other formats fail.
pub open spec fn spec_pair_pos(t: Seq<u8>, p: int) -> Option<(SpecPairPos, int)> {
    if !avail(t, p, 2) {
        None
    } else {
        let f = u16_at(t, p);
        match spec_coverage_link(t, p, p + 2) {
            None => None,
            Some(cov) => if (f == 1 || f == 2) && avail(t, p + 4, 4) {
                match (spec_value_format(u16_at(t, p + 4)), spec_value_format(u16_at(t, p + 6))) {
                    (Some(f1), Some(f2)) => if f == 1 {
                        if !avail(t, p + 8, 2) {
                            None
                        } else {
                            let n = u16_at(t, p + 8);
                            match spec_pair_set_links(t, p, f1, f2, p + 10, n as nat) {
                                None => None,
                                Some((sets, e)) => Some((SpecPairPos {
                                    pos_format: 1,
                                    subtable: SpecPairPosData::Format1 {
                                        coverage: cov,
                                        value_format1: f1,
                                        value_format2: f2,
                                        pair_set_count: n,
                                        pair_sets: sets,
                                    },
                                }, e)),
                            }
                        }
                    } else {
                        match (spec_class_def_link(t, p, p + 8), spec_class_def_link(t, p, p + 10)) {
                            (Some(c1), Some(c2)) => if !avail(t, p + 12, 4) {
                                None
                            } else {
                                let n1 = u16_at(t, p + 12);
                                let n2 = u16_at(t, p + 14);
                                match spec_class1_records(t, p, n2, f1, f2, p + 16, n1 as nat) {
                                    None => None,
                                    Some((recs, e)) => Some((SpecPairPos {
                                        pos_format: 2,
                                        subtable: SpecPairPosData::Format2 {
                                            coverage: cov,
                                            value_format1: f1,
                                            value_format2: f2,
                                            class_def1: c1,
                                            class_def2: c2,
                                            class1_count: n1,
                                            class2_count: n2,
                                            class1_records: recs,
                                        },
                                    }, e)),
                                }
                            },
                            _ => None,
                        }
                    },
                    _ => None,
                }
            } else {
                None
            },
        }
    }
}

fn pair_pos_format2(t: &[u8], p: usize, cov: Link16<CoverageTable>, f1: ValueFormat, f2: ValueFormat) -> (r: Option<
    (PairPos, usize),
>)
    requires
        avail(t@, p as int, 8) && u16_at(t@, p as int) == 2,
        spec_coverage_link(t@, p as int, p + 2) == Some(cov@),
        spec_value_format(u16_at(t@, p + 4)) == Some(f1),
        spec_value_format(u16_at(t@, p + 6)) == Some(f2),
    ensures
        match r {
            Some((v, e)) => spec_pair_pos(t@, p as int) == Some((v@, e as int)),
            None => spec_pair_pos(t@, p as int) is None,
        },
{
    let _len = t.len();
    let c1 = match class_def_link(t, p, p + 8) {
        Some(c) => c,
        None => return None,
    };
    let c2 = match class_def_link(t, p, p + 10) {
        Some(c) => c,
        None => return None,
    };
    if !has_bytes(t, p + 12, 4) {
        return None;
    }
    let n1 = get_u16be(t, p + 12);
    let n2 = get_u16be(t, p + 14);
    let (recs, e) = match class1_records(t, p, n2, f1, f2, p + 16, n1) {
        Some(x) => x,
        None => return None,
    };
    let d = PairPosData::Format2 {
        coverage: cov,
        value_format1: f1,
        value_format2: f2,
        class_def1: c1,
        class_def2: c2,
        class1_count: n1,
        class2_count: n2,
        class1_records: recs,
    };
    Some((PairPos { pos_format: 2, subtable: d }, e))
}

/// Parses the pair adjustment subtable at `p`.
pub fn pair_pos(t: &[u8], p: usize) -> (r: Option<(PairPos, usize)>)
    ensures
        match r {
            Some((v, e)) => spec_pair_pos(t@, p as int) == Some((v@, e as int)),
            None => spec_pair_pos(t@, p as int) is None,
        },
{
    if !has_bytes(t, p, 2) {
        return None;
    }
    let f = get_u16be(t, p);
    let cov = match coverage_link(t, p, p + 2) {
        Some(c) => c,
        None => return None,
    };
    if !((f == 1 || f == 2) && has_bytes(t, p + 4, 4)) {
        return None;
    }
    let f1 = match value_format(get_u16be(t, p + 4)) {
        Some(v) => v,
        None => return None,
    };
    let f2 = match value_format(get_u16be(t, p + 6)) {
        Some(v) => v,
        None => return None,
    };
    if f == 1 {
        if !has_bytes(t, p + 8, 2) {
            return None;
        }
        let n = get_u16be(t, p + 8);
        let (sets, e) = match pair_set_links(t, p, f1, f2, p + 10, n) {
            Some(x) => x,
            None => return None,
        };
        let d = PairPosData::Format1 {
            coverage: cov,
            value_format1: f1,
            value_format2: f2,
            pair_set_count: n,
            pair_sets: sets,
        };
        Some((PairPos { pos_format: 1, subtable: d }, e))
    } else {
        pair_pos_format2(t, p, cov, f1, f2)
    }
}

/// A cursive attachment subtable (format 1).
#[derive(Clone, Debug, PartialEq, Eq)]
pub struct CursivePos {
    pub pos_format: u16,
    pub coverage: Link16<CoverageTable>,
    pub entry_exit_count: u16,
    pub entry_exit_records: Vec<EntryExitRecord>,
}

/// Mathematical form of `CursivePos`.
pub struct SpecCursivePos {
    pub pos_format: u16,
    pub coverage: Link16<SpecCoverageTable>,
    pub entry_exit_count: u16,
    pub entry_exit_records: Seq<SpecEntryExitRecord>,
}

impl View for CursivePos {
    type V = SpecCursivePos;

    open spec fn view(&self) -> SpecCursivePos {
        SpecCursivePos {
            pos_format: self.pos_format,
            coverage: self.coverage@,
            entry_exit_count: self.entry_exit_count,
            entry_exit_records: entry_exits_view(self.entry_exit_records@),
        }
    }
}

/// The cursive attachment subtable at `p`: format 1, a coverage offset,
/// then counted entry-exit records; other formats fail.
pub open spec fn spec_cursive_pos(t: Seq<u8>, p: int) -> Option<(SpecCursivePos, int)> {
    if !avail(t, p, 2) || u16_at(t, p) != 1 {
        None
    } else {
        match spec_coverage_link(t, p, p + 2) {
            None => None,
            Some(cov) => if !avail(t, p + 4, 2) {
                None
            } else {
                match spec_entry_exit_records(t, p, p + 6, u16_at(t, p + 4) as nat) {
                    None => None,
                    Some((recs, e)) => Some((SpecCursivePos {
                        pos_format: 1,
                        coverage: cov,
                        entry_exit_count: u16_at(t, p + 4),
                        entry_exit_records: recs,
                    }, e)),
                }
            },
        }
    }
}

/// Parses the cursive attachment subtable at `p`.
pub fn cursive_pos(t: &[u8], p: usize) -> (r: Option<(CursivePos, usize)>)
    ensures
        match r {
            Some((v, e)) => spec_cursive_pos(t@, p as int) == Some((v@, e as int)),
            None => spec_cursive_pos(t@, p as int) is None,
        },
{
    if !has_bytes(t, p, 2) || get_u16be(t, p) != 1 {
        return None;
    }
    let cov = match coverage_link(t, p, p + 2) {
        Some(c) => c,
        None => return None,
    };
    if !has_bytes(t, p + 4, 2) {
        return None;
    }
    let n = get_u16be(t, p + 4);
    let (recs, e) = match entry_exit_records(t, p, p + 6, n) {
        Some(x) => x,
        None => return None,
    };
    Some(
        (
            CursivePos { pos_format: 1, coverage: cov, entry_exit_count: n, entry_exit_records: recs },
            e,
        ),
    )
}

/// A mark-to-base or mark-to-mark attachment subtable (format 1): the
/// marks' coverage, the coverage of the glyphs they attach to (bases, or
/// the earlier marks), the mark class count, the mark array, and the
/// anchor array of the glyphs attached to.
#[derive(Clone, Debug, PartialEq, Eq)]
pub struct MarkAttachPos {
    pub format: u16,
    pub mark_coverage_offset: Link16<CoverageTable>,
    pub target_coverage_offset: Link16<CoverageTable>,
    pub mark_class_count: u16,
    pub mark_array_offset: Link16<MarkArray>,
    pub target_array_offset: Link16<AnchorArray>,
}

/// Mathematical form of `MarkAttachPos`.
pub struct SpecMarkAttachPos {
    pub format: u16,
    pub mark_coverage_offset: Link16<SpecCoverageTable>,
    pub target_coverage_offset: Link16<SpecCoverageTable>,
    pub mark_class_count: u16,
    pub mark_array_offset: Link16<SpecMarkArray>,
    pub target_array_offset: Link16<SpecAnchorArray>,
}

impl View for MarkAttachPos {
    type V = SpecMarkAttachPos;

    open spec fn view(&self) -> SpecMarkAttachPos {
        SpecMarkAttachPos {
            format: self.format,
            mark_coverage_offset: self.mark_coverage_offset@,
            target_coverage_offset: self.target_coverage_offset@,
            mark_class_count: self.mark_class_count,
            mark_array_offset: self.mark_array_offset@,
            target_array_offset: self.target_array_offset@,
        }
    }
}

/// The mark attachment subtable at `p`: format 1, two coverage offsets,
/// the mark class count, a mark array offset and an anchor array offset
/// whose records hold one anchor per mark class; other formats fail.
pub open spec fn spec_mark_attach_pos(t: Seq<u8>, p: int) -> Option<(SpecMarkAttachPos, int)> {
    if !avail(t, p, 2) || u16_at(t, p) != 1 {
        None
    } else {
        match (spec_coverage_link(t, p, p + 2), spec_coverage_link(t, p, p + 4)) {
            (Some(mc), Some(tc)) => if !avail(t, p + 6, 2) {
                None
            } else {
                let k = u16_at(t, p + 6);
                match (spec_mark_array_link(t, p, p + 8), spec_anchor_array_link(t, p, p + 10, k)) {
                    (Some(ma), Some(ta)) => Some((SpecMarkAttachPos {
                        format: 1,
                        mark_coverage_offset: mc,
                        target_coverage_offset: tc,
                        mark_class_count: k,
                        mark_array_offset: ma,
                        target_array_offset: ta,
                    }, p + 12)),
                    _ => None,
                }
            },
            _ => None,
        }
    }
}

/// Parses a mark-to-base or mark-to-mark attachment subtable at `p`.
pub fn mark_attach_pos(t: &[u8], p: usize) -> (r: Option<(MarkAttachPos, usize)>)
    ensures
        match r {
            Some((v, e)) => spec_mark_attach_pos(t@, p as int) == Some((v@, e as int)),
            None => spec_mark_attach_pos(t@, p as int) is None,
        },
{
    if !has_bytes(t, p, 2) || get_u16be(t, p) != 1 {
        return None;
    }
    let mc = match coverage_link(t, p, p + 2) {
        Some(c) => c,
        None => return None,
    };
    let tc = match coverage_link(t, p, p + 4) {
        Some(c) => c,
        None => return None,
    };
    if !has_bytes(t, p + 6, 2) {
        return None;
    }
    let k = get_u16be(t, p + 6);
    let ma = match mark_array_link(t, p, p + 8) {
        Some(a) => a,
        None => return None,
    };
    let ta = match anchor_array_link(t, p, p + 10, k) {
        Some(a) => a,
        None => return None,
    };
    Some(
        (
            MarkAttachPos {
                format: 1,
                mark_coverage_offset: mc,
                target_coverage_offset: tc,
                mark_class_count: k,
                mark_array_offset: ma,
                target_array_offset: ta,
            },
            p + 12,
        ),
    )
}

/// A mark-to-ligature attachment subtable (format 1).
#[derive(Clone, Debug, PartialEq, Eq)]
pub struct MarkLigPos {
    pub format: u16,
    pub mark_coverage_offset: Link16<CoverageTable>,
    pub ligature_coverage_offset: Link16<CoverageTable>,
    pub mark_class_count: u16,
    pub mark_array_offset: Link16<MarkArray>,
    pub ligature_array_offset: Link16<LigatureArray>,
}

/// Mathematical form of `MarkLigPos`.
pub struct SpecMarkLigPos {
    pub format: u16,
    pub mark_coverage_offset: Link16<SpecCoverageTable>,
    pub ligature_coverage_offset: Link16<SpecCoverageTable>,
    pub mark_class_count: u16,
    pub mark_array_offset: Link16<SpecMarkArray>,
    pub ligature_array_offset: Link16<SpecLigatureArray>,
}

impl View for MarkLigPos {
    type V = SpecMarkLigPos;

    open spec fn view(&self) -> SpecMarkLigPos {
        SpecMarkLigPos {
            format: self.format,
            mark_coverage_offset: self.mark_coverage_offset@,
            ligature_coverage_offset: self.ligature_coverage_offset@,
            mark_class_count: self.mark_class_count,
            mark_array_offset: self.mark_array_offset@,
            ligature_array_offset: self.ligature_array_offset@,
        }
    }
}

/// The mark-to-ligature subtable at `p`: like a mark-to-base subtable, with
/// a ligature array in place of the base array.
pub open spec fn spec_mark_lig_pos(t: Seq<u8>, p: int) -> Option<(SpecMarkLigPos, int)> {
    if !avail(t, p, 2) || u16_at(t, p) != 1 {
        None
    } else {
        match (spec_coverage_link(t, p, p + 2), spec_coverage_link(t, p, p + 4)) {
            (Some(mc), Some(lc)) => if !avail(t, p + 6, 2) {
                None
            } else {
                let k = u16_at(t, p + 6);
                match (spec_mark_array_link(t, p, p + 8), spec_ligature_array_link(t, p, p + 10, k)) {
                    (Some(ma), Some(la)) => Some((SpecMarkLigPos {
                        format: 1,
                        mark_coverage_offset: mc,
                        ligature_coverage_offset: lc,
                        mark_class_count: k,
                        mark_array_offset: ma,
                        ligature_array_offset: la,
                    }, p + 12)),
                    _ => None,
                }
            },
            _ => None,
        }
    }
}

/// Parses the mark-to-ligature subtable at `p`.
pub fn mark_lig_pos(t: &[u8], p: usize) -> (r: Option<(MarkLigPos, usize)>)
    ensures
        match r {
            Some((v, e)) => spec_mark_lig_pos(t@, p as int) == Some((v@, e as int)),
            None => spec_mark_lig_pos(t@, p as int) is None,
        },
{
    if !has_bytes(t, p, 2) || get_u16be(t, p) != 1 {
        return None;
    }
    let mc = match coverage_link(t, p, p + 2) {
        Some(c) => c,
        None => return None,
    };
    let lc = match coverage_link(t, p, p + 4) {
        Some(c) => c,
        None => return None,
    };
    if !has_bytes(t, p + 6, 2) {
        return None;
    }
    let k = get_u16be(t, p + 6);
    let ma = match mark_array_link(t, p, p + 8) {
        Some(a) => a,
        None => return None,
    };
    let la = match ligature_array_link(t, p, p + 10, k) {
        Some(a) => a,
        None => return None,
    };
    Some(
        (
            MarkLigPos {
                format: 1,
                mark_coverage_offset: mc,
                ligature_coverage_offset: lc,
                mark_class_count: k,
                mark_array_offset: ma,
                ligature_array_offset: la,
            },
            p + 12,
        ),
    )
}


proof fn lemma_pair_value_records_len(t: Seq<u8>, base: int, f1: ValueFormat, f2: ValueFormat, q: int, n: nat)
    ensures
        spec_pair_value_records(t, base, f1, f2, q, n) matches Some((v, _)) ==> v.len() == n,
    decreases n,
{
    if n > 0 {
        if let Some((_, e)) = pair_value_item(t, base, f1, f2, q) {
            lemma_pair_value_records_len(t, base, f1, f2, e, (n - 1) as nat);
        }
    }
}

proof fn lemma_pair_set_links_len(t: Seq<u8>, base: int, f1: ValueFormat, f2: ValueFormat, q: int, n: nat)
    ensures
        spec_pair_set_links(t, base, f1, f2, q, n) matches Some((v, _)) ==> v.len() == n,
    decreases n,
{
    if n > 0 {
        if let Some((_, e)) = pair_set_item(t, base, f1, f2, q) {
            lemma_pair_set_links_len(t, base, f1, f2, e, (n - 1) as nat);
        }
    }
}

proof fn lemma_class2_records_len(t: Seq<u8>, base: int, f1: ValueFormat, f2: ValueFormat, q: int, n: nat)
    ensures
        spec_class2_records(t, base, f1, f2, q, n) matches Some((v, _)) ==> v.len() == n,
    decreases n,
{
    if n > 0 {
        if let Some((_, e)) = class2_item(t, base, f1, f2, q) {
            lemma_class2_records_len(t, base, f1, f2, e, (n - 1) as nat);
        }
    }
}

proof fn lemma_class1_records_len(t: Seq<u8>, base: int, c2: u16, f1: ValueFormat, f2: ValueFormat, q: int, n: nat)
    ensures
        spec_class1_records(t, base, c2, f1, f2, q, n) matches Some((v, _)) ==> v.len() == n,
    decreases n,
{
    if n > 0 {
        if let Some((_, e)) = class1_item(t, base, c2, f1, f2, q) {
            lemma_class1_records_len(t, base, c2, f1, f2, e, (n - 1) as nat);
        }
    }
}

proof fn lemma_anchor_links_len(t: Seq<u8>, base: int, q: int, n: nat)
    ensures
        spec_anchor_links(t, base, q, n) matches Some((v, _)) ==> v.len() == n,
    decreases n,
{
    if n > 0 {
        if let Some((_, e)) = anchor_item(t, base, q) {
            lemma_anchor_links_len(t, base, e, (n - 1) as nat);
        }
    }
}

proof fn lemma_anchor_records_len(t: Seq<u8>, base: int, classes: u16, q: int, n: nat)
    ensures
        spec_anchor_records(t, base, classes, q, n) matches Some((v, _)) ==> v.len() == n,
    decreases n,
{
    if n > 0 {
        if let Some((_, e)) = anchor_record_item(t, base, classes, q) {
            lemma_anchor_records_len(t, base, classes, e, (n - 1) as nat);
        }
    }
}

proof fn lemma_ligature_attach_links_len(t: Seq<u8>, base: int, classes: u16, q: int, n: nat)
    ensures
        spec_ligature_attach_links(t, base, classes, q, n) matches Some((v, _)) ==> v.len() == n,
    decreases n,
{
    if n > 0 {
        if let Some((_, e)) = ligature_attach_item(t, base, classes, q) {
            lemma_ligature_attach_links_len(t, base, classes, e, (n - 1) as nat);
        }
    }
}

proof fn lemma_mark_records_len(t: Seq<u8>, base: int, q: int, n: nat)
    ensures
        spec_mark_records(t, base, q, n) matches Some((v, _)) ==> v.len() == n,
    decreases n,
{
    if n > 0 {
        if let Some((_, e)) = mark_item(t, base, q) {
            lemma_mark_records_len(t, base, e, (n - 1) as nat);
        }
    }
}

proof fn lemma_entry_exit_records_len(t: Seq<u8>, base: int, q: int, n: nat)
    ensures
        spec_entry_exit_records(t, base, q, n) matches Some((v, _)) ==> v.len() == n,
    decreases n,
{
    if n > 0 {
        if let Some((_, e)) = entry_exit_item(t, base, q) {
            lemma_entry_exit_records_len(t, base, e, (n - 1) as nat);
        }
    }
}

proof fn lemma_class1_row(t: Seq<u8>, base: int, c2: u16, f1: ValueFormat, f2: ValueFormat, q: int, n: nat, i: int)
    requires
        spec_class1_records(t, base, c2, f1, f2, q, n) is Some,
        0 <= i < n,
    ensures
        spec_class1_records(t, base, c2, f1, f2, q, n).unwrap().0[i].class2_records.len() == c2,
    decreases n,
{
    let (x, e) = class1_item(t, base, c2, f1, f2, q).unwrap();
    lemma_class2_records_len(t, base, f1, f2, q, c2 as nat);
    if i > 0 {
        lemma_class1_row(t, base, c2, f1, f2, e, (n - 1) as nat, i - 1);
        lemma_class1_records_len(t, base, c2, f1, f2, e, (n - 1) as nat);
        let rest = spec_class1_records(t, base, c2, f1, f2, e, (n - 1) as nat).unwrap().0;
        assert((seq![x] + rest)[i] == rest[i - 1]);
    }
}

proof fn lemma_anchor_row(t: Seq<u8>, base: int, classes: u16, q: int, n: nat, i: int)
    requires
        spec_anchor_records(t, base, classes, q, n) is Some,
        0 <= i < n,
    ensures
        spec_anchor_records(t, base, classes, q, n).unwrap().0[i].anchors.len() == classes,
    decreases n,
{
    let (x, e) = anchor_record_item(t, base, classes, q).unwrap();
    lemma_anchor_links_len(t, base, q, classes as nat);
    if i > 0 {
        lemma_anchor_row(t, base, classes, e, (n - 1) as nat, i - 1);
        lemma_anchor_records_len(t, base, classes, e, (n - 1) as nat);
        let rest = spec_anchor_records(t, base, classes, e, (n - 1) as nat).unwrap().0;
        assert((seq![x] + rest)[i] == rest[i - 1]);
    }
}

/// Pair adjustment holds what its counts say: a pair set holds
/// `pair_value_count` records; adjustment by glyph pairs holds
/// `pair_set_count` pair sets, and by class pairs a matrix of
/// `class1_count` rows of `class2_count` records each.
pub proof fn lemma_pair_pos_shape(t: Seq<u8>, x: int, f1: ValueFormat, f2: ValueFormat)
    ensures
        spec_pair_set(t, x, f1, f2) matches Some(s) ==> s.pair_value_records.len() == s.pair_value_count,
        spec_pair_pos(t, x) matches Some((pp, _)) ==> match pp.subtable {
            SpecPairPosData::Format1 { pair_set_count, pair_sets, .. } => pair_sets.len() == pair_set_count,
            SpecPairPosData::Format2 { class1_count, class2_count, class1_records, .. } => class1_records.len()
                == class1_count && forall|i: int|
                0 <= i < class1_count ==> (#[trigger] class1_records[i]).class2_records.len() == class2_count,
        },
{
    if avail(t, x, 2) {
        lemma_pair_value_records_len(t, x, f1, f2, x + 2, u16_at(t, x) as nat);
    }
    if avail(t, x, 16) {
        if let (Some(g1), Some(g2)) = (spec_value_format(u16_at(t, x + 4)), spec_value_format(u16_at(t, x + 6))) {
            lemma_pair_set_links_len(t, x, g1, g2, x + 10, u16_at(t, x + 8) as nat);
            let n1 = u16_at(t, x + 12) as nat;
            let n2 = u16_at(t, x + 14);
            lemma_class1_records_len(t, x, n2, g1, g2, x + 16, n1);
            if let Some((v, _)) = spec_class1_records(t, x, n2, g1, g2, x + 16, n1) {
                assert forall|i: int| 0 <= i < n1 implies (#[trigger] v[i]).class2_records.len() == n2 by {
                    lemma_class1_row(t, x, n2, g1, g2, x + 16, n1, i);
                }
            }
        }
    } else if avail(t, x, 10) {
        if let (Some(g1), Some(g2)) = (spec_value_format(u16_at(t, x + 4)), spec_value_format(u16_at(t, x + 6))) {
            lemma_pair_set_links_len(t, x, g1, g2, x + 10, u16_at(t, x + 8) as nat);
        }
    }
}

/// Attachment arrays hold what their counts say: an anchor array holds
/// `count` records of one anchor per mark class each; a ligature array
/// holds `ligature_count` attachments; a mark array holds `mark_count`
/// records; cursive attachment holds `entry_exit_count` records.
pub proof fn lemma_attachment_arrays(t: Seq<u8>, x: int, classes: u16)
    ensures
        spec_anchor_array(t, x, classes) matches Some(a) ==> a.records.len() == a.count && forall|i: int|
            0 <= i < a.count ==> (#[trigger] a.records[i]).anchors.len() == classes,
        spec_ligature_array(t, x, classes) matches Some(l) ==> l.ligature_attach_offsets.len() == l.ligature_count,
        spec_mark_array(t, x) matches Some(m) ==> m.mark_records.len() == m.mark_count,
        spec_cursive_pos(t, x) matches Some((c, _)) ==> c.entry_exit_records.len() == c.entry_exit_count,
{
    if avail(t, x, 2) {
        let n = u16_at(t, x) as nat;
        lemma_anchor_records_len(t, x, classes, x + 2, n);
        if let Some((v, _)) = spec_anchor_records(t, x, classes, x + 2, n) {
            assert forall|i: int| 0 <= i < n implies (#[trigger] v[i]).anchors.len() == classes by {
                lemma_anchor_row(t, x, classes, x + 2, n, i);
            }
        }
        lemma_ligature_attach_links_len(t, x, classes, x + 2, n);
        lemma_mark_records_len(t, x, x + 2, n);
    }
    if avail(t, x, 6) {
        lemma_entry_exit_records_len(t, x, x + 6, u16_at(t, x + 4) as nat);
    }
}


/// Positioning subtables read their own bytes: single adjustment has its
/// format, coverage offset and value format words at `p`, `p + 2` and
/// `p + 4`, then (format 1) one value record at `p + 6` or (format 2) a
/// count at `p + 6` and value records from `p + 8`; pair adjustment has
/// its two value formats at `p + 4` and `p + 6`; mark attachment has the
/// mark and target coverage offsets at `p + 2` and `p + 4`, the class count
/// at `p + 6` and the array offsets at `p + 8` and `p + 10`. A pair value
/// record starts with its second glyph word, a mark record with its class
/// word then its anchor offset, and an entry-exit record holds the entry
/// and exit anchor offsets.
pub proof fn lemma_gpos_fields(t: Seq<u8>, base: int, p: int, f1: ValueFormat, f2: ValueFormat)
    ensures
        spec_single_pos(t, p) matches Some((v, _)) ==> v.pos_format == crate::bytes::word_at(t, p) && match v.subtable {
            SpecSinglePosData::Format1 { coverage_offset, value_format, value_record } => v.pos_format == 1
                && coverage_offset.offset == crate::bytes::word_at(t, p + 2) && spec_value_format(crate::bytes::word_at(t, p + 4) as u16)
                == Some(value_format) && spec_value_record(t, p, p + 6, value_format) is Some
                && spec_value_record(t, p, p + 6, value_format).unwrap().0 == value_record,
            SpecSinglePosData::Format2 { coverage_offset, value_format, value_count, .. } => v.pos_format == 2
                && coverage_offset.offset == crate::bytes::word_at(t, p + 2) && spec_value_format(crate::bytes::word_at(t, p + 4) as u16)
                == Some(value_format) && value_count == crate::bytes::word_at(t, p + 6),
        },
        spec_pair_pos(t, p) matches Some((v, _)) ==> v.pos_format == crate::bytes::word_at(t, p) && match v.subtable {
            SpecPairPosData::Format1 { coverage, value_format1, value_format2, pair_set_count, .. } => v.pos_format == 1
                && coverage.offset == crate::bytes::word_at(t, p + 2) && spec_value_format(crate::bytes::word_at(t, p + 4) as u16) == Some(
                value_format1,
            ) && spec_value_format(crate::bytes::word_at(t, p + 6) as u16) == Some(value_format2) && pair_set_count == crate::bytes::word_at(
                t,
                p + 8,
            ),
            SpecPairPosData::Format2 {
                coverage,
                value_format1,
                value_format2,
                class_def1,
                class_def2,
                class1_count,
                class2_count,
                ..
            } => v.pos_format == 2 && coverage.offset == crate::bytes::word_at(t, p + 2) && spec_value_format(
                crate::bytes::word_at(t, p + 4) as u16,
            ) == Some(value_format1) && spec_value_format(crate::bytes::word_at(t, p + 6) as u16) == Some(value_format2)
                && class_def1.offset == crate::bytes::word_at(t, p + 8) && class_def2.offset == crate::bytes::word_at(t, p + 10) && class1_count
                == crate::bytes::word_at(t, p + 12) && class2_count == crate::bytes::word_at(t, p + 14),
        },
        spec_mark_attach_pos(t, p) matches Some((m, _)) ==> crate::bytes::word_at(t, p) == 1 && m.mark_coverage_offset.offset
            == crate::bytes::word_at(t, p + 2) && m.target_coverage_offset.offset == crate::bytes::word_at(t, p + 4) && m.mark_class_count
            == crate::bytes::word_at(t, p + 6) && m.mark_array_offset.offset == crate::bytes::word_at(t, p + 8) && m.target_array_offset.offset
            == crate::bytes::word_at(t, p + 10),
        pair_value_item(t, base, f1, f2, p) matches Some((r, _)) ==> r.second_glyph == crate::bytes::word_at(t, p),
        mark_item(t, base, p) matches Some((r, e)) ==> r.mark_class == crate::bytes::word_at(t, p) && r.mark_anchor_offset.offset
            == crate::bytes::word_at(t, p + 2) && e == p + 4,
        entry_exit_item(t, base, p) matches Some((r, e)) ==> r.entry_anchor.offset == crate::bytes::word_at(t, p)
            && r.exit_anchor.offset == crate::bytes::word_at(t, p + 2) && e == p + 4,
{
    if avail(t, p, 2) {
        crate::bytes::lemma_readers_spell(t, p);
    }
    if avail(t, p, 4) {
        crate::bytes::lemma_readers_spell(t, p + 2);
    }
    if avail(t, p, 6) {
        crate::bytes::lemma_readers_spell(t, p + 4);
    }
    if avail(t, p, 8) {
        crate::bytes::lemma_readers_spell(t, p + 6);
    }
    if avail(t, p, 10) {
        crate::bytes::lemma_readers_spell(t, p + 8);
    }
    if avail(t, p, 12) {
        crate::bytes::lemma_readers_spell(t, p + 10);
    }
    if avail(t, p, 16) {
        crate::bytes::lemma_readers_spell(t, p + 12);
        crate::bytes::lemma_readers_spell(t, p + 14);
    }
}

/// A pair value record holds the second glyph word at `q`, then the first
/// glyph's value record, of the first format, from `q + 2`, then the second
/// glyph's, of the second format, right after it; a class-2 record holds
/// the two value records in the same order from `q`. A record is present
/// exactly when its format sets some flag.
pub proof fn lemma_pair_records_order(t: Seq<u8>, base: int, f1: ValueFormat, f2: ValueFormat, q: int)
    ensures
        pair_value_item(t, base, f1, f2, q) matches Some((r, e)) ==> {
            &&& r.second_glyph == crate::bytes::word_at(t, q)
            &&& (r.value_record1 is Some <==> crate::opentype::gpos_values::any_set(f1))
            &&& (r.value_record2 is Some <==> crate::opentype::gpos_values::any_set(f2))
            &&& spec_optional_value_record(t, base, q + 2, f1) matches Some((v1, e1)) && v1 == r.value_record1
                && spec_optional_value_record(t, base, e1, f2) == Some((r.value_record2, e))
        },
        class2_item(t, base, f1, f2, q) matches Some((r, e)) ==> {
            &&& (r.value_record1 is Some <==> crate::opentype::gpos_values::any_set(f1))
            &&& (r.value_record2 is Some <==> crate::opentype::gpos_values::any_set(f2))
            &&& spec_optional_value_record(t, base, q, f1) matches Some((v1, e1)) && v1 == r.value_record1
                && spec_optional_value_record(t, base, e1, f2) == Some((r.value_record2, e))
        },
{
    if let Some((r, e)) = pair_value_item(t, base, f1, f2, q) {
        crate::bytes::lemma_readers_spell(t, q);
    }
}

} // verus!
