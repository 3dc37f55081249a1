//! The kerning table (`kern`). Positions are relative to the table's start.
use vstd::prelude::*;
use crate::bytes::{agrees, as_i16, avail, get_u16be, has_bytes, to_i16, u16_at};
use crate::opentype::cmap::{read_u16s, u16s_at};
use crate::opentype::links::{offset16_mandatory, spec_offset16, Link16};

verus! {

/// The coverage word of a subtable: the format in the high byte, then, in
/// bits 3 to 0, whether values replace the accumulated ones, whether
/// kerning runs across the text flow, whether the values are minima, and
/// whether the data is horizontal. Bits 7 to 4 are reserved and ignored.
#[derive(Clone, Copy, Debug, PartialEq, Eq)]
pub struct KernCoverage {
    pub format: u8,
    pub overrides: bool,
    pub cross_stream: bool,
    pub minimum: bool,
    pub horizontal: bool,
}

/// The coverage word `raw`, split into its fields.
pub open spec fn spec_kern_coverage(raw: u16) -> KernCoverage {
    KernCoverage {
        format: (raw / 256) as u8,
        overrides: (raw / 8) % 2 == 1,
        cross_stream: (raw / 4) % 2 == 1,
        minimum: (raw / 2) % 2 == 1,
        horizontal: raw % 2 == 1,
    }
}

/// A kerning pair: left and right glyph, and the adjustment in font units.
#[derive(Clone, Copy, Debug, PartialEq, Eq)]
pub struct KernPair {
    pub left: u16,
    pub right: u16,
    pub value: i16,
}

/// The class table of a format 2 subtable: the first glyph, the glyph
/// count, and the class value of each glyph.
#[derive(Clone, Debug, PartialEq, Eq)]
pub struct KernClassTable {
    pub first_glyph: u16,
    pub n_glyphs: u16,
    pub class_values: Vec<u16>,
}

/// Mathematical form of `KernClassTable`.
pub struct SpecKernClassTable {
    pub first_glyph: u16,
    pub n_glyphs: u16,
    pub class_values: Seq<u16>,
}

impl View for KernClassTable {
    type V = SpecKernClassTable;

    open spec fn view(&self) -> SpecKernClassTable {
        SpecKernClassTable {
            first_glyph: self.first_glyph,
            n_glyphs: self.n_glyphs,
            class_values: self.class_values@,
        }
    }
}

/// The body of a kerning subtable, by format.
#[derive(Clone, Debug, PartialEq, Eq)]
pub enum KernSubtableData {
    Format0 {
        n_pairs: u16,
        search_range: u16,
        entry_selector: u16,
        range_shift: u16,
        kern_pairs: Vec<KernPair>,
    },
    Format2 {
        table_start: usize,
        row_width: u16,
        left_class_offset: Link16<KernClassTable>,
        right_class_offset: Link16<KernClassTable>,
        kerning_array_offset: Link16<Vec<Vec<i16>>>,
    },
}

/// Mathematical form of `KernSubtableData`.
pub enum SpecKernSubtableData {
    Format0 {
        n_pairs: u16,
        search_range: u16,
        entry_selector: u16,
        range_shift: u16,
        kern_pairs: Seq<KernPair>,
    },
    Format2 {
        table_start: usize,
        row_width: u16,
        left_class_offset: Link16<SpecKernClassTable>,
        right_class_offset: Link16<SpecKernClassTable>,
        kerning_array_offset: Link16<Seq<Seq<i16>>>,
    },
}

/// The rows of a kerning array as sequences.
pub open spec fn rows_view(v: Seq<Vec<i16>>) -> Seq<Seq<i16>> {
    v.map_values(|r: Vec<i16>| r@)
}

impl View for KernSubtableData {
    type V = SpecKernSubtableData;

    open spec fn view(&self) -> SpecKernSubtableData {
        match self {
            KernSubtableData::Format0 {
                n_pairs,
                search_range,
                entry_selector,
                range_shift,
                kern_pairs,
            } => SpecKernSubtableData::Format0 {
                n_pairs: *n_pairs,
                search_range: *search_range,
                entry_selector: *entry_selector,
                range_shift: *range_shift,
                kern_pairs: kern_pairs@,
            },
            KernSubtableData::Format2 {
                table_start,
                row_width,
                left_class_offset,
                right_class_offset,
                kerning_array_offset,
            } => SpecKernSubtableData::Format2 {
                table_start: *table_start,
                row_width: *row_width,
                left_class_offset: left_class_offset@,
                right_class_offset: right_class_offset@,
                kerning_array_offset: Link16 {
                    offset: kerning_array_offset.offset,
                    link: match kerning_array_offset.link {
                        Some(a) => Some(rows_view(a@)),
                        None => None,
                    },
                },
            },
        }
    }
}

/// A kerning subtable.
#[derive(Clone, Debug, PartialEq, Eq)]
pub struct KernSubtable {
    pub version: u16,
    pub length: u16,
    pub coverage: KernCoverage,
    pub data: KernSubtableData,
}

/// Mathematical form of `KernSubtable`.
pub struct SpecKernSubtable {
    pub version: u16,
    pub length: u16,
    pub coverage: KernCoverage,
    pub data: SpecKernSubtableData,
}

impl View for KernSubtable {
    type V = SpecKernSubtable;

    open spec fn view(&self) -> SpecKernSubtable {
        SpecKernSubtable {
            version: self.version,
            length: self.length,
            coverage: self.coverage,
            data: self.data@,
        }
    }
}

/// The `kern` table.
#[derive(Clone, Debug, PartialEq, Eq)]
pub struct KernTable {
    pub version: u16,
    pub n_tables: u16,
    pub subtables: Vec<KernSubtable>,
}

/// Mathematical form of `KernTable`.
pub struct SpecKernTable {
    pub version: u16,
    pub n_tables: u16,
    pub subtables: Seq<SpecKernSubtable>,
}

/// The views of a sequence of subtables.
pub open spec fn subtables_view(v: Seq<KernSubtable>) -> Seq<SpecKernSubtable> {
    v.map_values(|s: KernSubtable| s@)
}

impl View for KernTable {
    type V = SpecKernTable;

    open spec fn view(&self) -> SpecKernTable {
        SpecKernTable {
            version: self.version,
            n_tables: self.n_tables,
            subtables: subtables_view(self.subtables@),
        }
    }
}

/// The six-byte kerning pair at `p`.
pub open spec fn pair_at(t: Seq<u8>, p: int) -> KernPair {
    KernPair { left: u16_at(t, p), right: u16_at(t, p + 2), value: to_i16(u16_at(t, p + 4)) }
}

/// A format 0 body at `q`: the pair count, three binary-search fields
/// taken as they are, then the pairs.
pub open spec fn spec_kern_format0(t: Seq<u8>, q: int) -> Option<(SpecKernSubtableData, int)> {
    if !avail(t, q, 8) || !avail(t, q + 8, 6 * u16_at(t, q)) {
        None
    } else {
        let n = u16_at(t, q);
        Some((SpecKernSubtableData::Format0 {
            n_pairs: n,
            search_range: u16_at(t, q + 2),
            entry_selector: u16_at(t, q + 4),
            range_shift: u16_at(t, q + 6),
            kern_pairs: Seq::new(n as nat, |i: int| pair_at(t, q + 8 + 6 * i)),
        }, q + 8 + 6 * n))
    }
}

/// The class table at `x`.
pub open spec fn spec_class_table(t: Seq<u8>, x: int) -> Option<SpecKernClassTable> {
    if !avail(t, x, 4) || !avail(t, x + 4, 2 * u16_at(t, x + 2)) {
        None
    } else {
        Some(
            SpecKernClassTable {
                first_glyph: u16_at(t, x),
                n_glyphs: u16_at(t, x + 2),
                class_values: u16s_at(t, x + 4, u16_at(t, x + 2) as int),
            },
        )
    }
}

/// The class-table offset at `pos`, relative to `base`, with the class
/// table it leads to; a linked class table that does not parse fails.
pub open spec fn spec_class_link(t: Seq<u8>, base: int, pos: int) -> Option<
    Link16<SpecKernClassTable>,
> {
    match spec_offset16(t, base, pos) {
        None => None,
        Some(((off, None), _)) => Some(Link16 { offset: off, link: None }),
        Some(((off, Some(x)), _)) => match spec_class_table(t, x) {
            Some(c) => Some(Link16 { offset: off, link: Some(c) }),
            None => None,
        },
    }
}

/// `n` signed 16-bit values at `p`.
pub open spec fn i16s_at(t: Seq<u8>, p: int, n: int) -> Seq<i16> {
    Seq::new(n as nat, |j: int| to_i16(u16_at(t, p + 2 * j)))
}

/// The kerning array at `y`: `rows` rows of `cols` signed values.
pub open spec fn kerning_rows(t: Seq<u8>, y: int, rows: int, cols: int) -> Seq<Seq<i16>> {
    Seq::new(rows as nat, |i: int| i16s_at(t, y + 2 * cols * i, cols))
}

/// A format 2 body at `q`, whose offsets are relative to `q`: its position
/// in the file (`origin + q`, the table lying at `origin`), the row width, the left and right class tables, and the kerning array, which
/// has a row per glyph of the left class table and a column per glyph of
/// the right one. A kerning array linked while either class table is not
/// fails.
pub open spec fn spec_kern_format2(t: Seq<u8>, q: int, origin: int) -> Option<(SpecKernSubtableData, int)> {
    if !avail(t, q, 8) {
        None
    } else {
        match (spec_class_link(t, q, q + 2), spec_class_link(t, q, q + 4), spec_offset16(t, q, q + 6)) {
            (Some(left), Some(right), Some(((off, arr), _))) => {
                let array = match arr {
                    None => Some(None::<Seq<Seq<i16>>>),
                    Some(y) => match (left.link, right.link) {
                        (Some(l), Some(r)) => if avail(t, y, 2 * l.n_glyphs * r.n_glyphs) {
                            Some(Some(kerning_rows(t, y, l.n_glyphs as int, r.n_glyphs as int)))
                        } else {
                            None
                        },
                        _ => None,
                    },
                };
                match array {
                    None => None,
                    Some(a) => Some((SpecKernSubtableData::Format2 {
                        table_start: (origin + q) as usize,
                        row_width: u16_at(t, q),
                        left_class_offset: left,
                        right_class_offset: right,
                        kerning_array_offset: Link16 { offset: off, link: a },
                    }, q + 8)),
                }
            },
            _ => None,
        }
    }
}

/// The kerning subtable at `p`: version 0, a length that is recorded but
/// not relied on, the coverage word, then a body of format 0 or 2 as the
/// coverage says; any other format fails.
pub open spec fn spec_kern_subtable(t: Seq<u8>, p: int, origin: int) -> Option<(SpecKernSubtable, int)> {
    if !avail(t, p, 6) || u16_at(t, p) != 0 {
        None
    } else {
        let cov = spec_kern_coverage(u16_at(t, p + 4));
        let body = if cov.format == 0 {
            spec_kern_format0(t, p + 6)
        } else if cov.format == 2 {
            spec_kern_format2(t, p + 6, origin)
        } else {
            None
        };
        match body {
            None => None,
            Some((data, e)) => Some((
                SpecKernSubtable { version: 0, length: u16_at(t, p + 2), coverage: cov, data },
                e,
            )),
        }
    }
}

/// `n` kerning subtables, one after the other from `p`.
pub open spec fn spec_kern_subtables(t: Seq<u8>, p: int, n: nat, origin: int) -> Option<
    (Seq<SpecKernSubtable>, int),
>
    decreases n,
{
    if n == 0 {
        Some((Seq::empty(), p))
    } else {
        match spec_kern_subtable(t, p, origin) {
            None => None,
            Some((s, q)) => match spec_kern_subtables(t, q, (n - 1) as nat, origin) {
                None => None,
                Some((rest, e)) => Some((seq![s] + rest, e)),
            },
        }
    }
}

/// The `kern` table held in `t`, which lies at position `origin` of the
/// file: version 0, the subtable count, and the
/// subtables.
pub open spec fn spec_kern_table(t: Seq<u8>, origin: int) -> Option<(SpecKernTable, int)> {
    if !avail(t, 0, 4) || u16_at(t, 0) != 0 {
        None
    } else {
        let n = u16_at(t, 2);
        match spec_kern_subtables(t, 4, n as nat, origin) {
            None => None,
            Some((subs, e)) => Some((SpecKernTable { version: 0, n_tables: n, subtables: subs }, e)),
        }
    }
}

/// Whether a subtable body has the shape its counts give: as many pairs as
/// `n_pairs`, and a kerning array with a row per left-class glyph and a
/// column per right-class glyph.
pub open spec fn kern_body_shaped(d: SpecKernSubtableData) -> bool {
    match d {
        SpecKernSubtableData::Format0 { n_pairs, kern_pairs, .. } => kern_pairs.len() == n_pairs,
        SpecKernSubtableData::Format2 {
            left_class_offset,
            right_class_offset,
            kerning_array_offset,
            ..
        } => kerning_array_offset.link matches Some(a) ==> {
            &&& left_class_offset.link matches Some(l)
            &&& right_class_offset.link matches Some(r)
            &&& a.len() == l.n_glyphs
            &&& forall|i: int| 0 <= i < a.len() ==> #[trigger] a[i].len() == r.n_glyphs
        },
    }
}

proof fn lemma_kern_subtables_shaped(t: Seq<u8>, p: int, n: nat, origin: int)
    ensures
        spec_kern_subtables(t, p, n, origin) matches Some((subs, _)) ==> subs.len() == n && forall|i: int|
            0 <= i < subs.len() ==> kern_body_shaped(#[trigger] subs[i].data),
    decreases n,
{
    if n > 0 {
        if let Some((s, q)) = spec_kern_subtable(t, p, origin) {
            lemma_kern_subtables_shaped(t, q, (n - 1) as nat, origin);
            if let Some((rest, e)) = spec_kern_subtables(t, q, (n - 1) as nat, origin) {
                let subs = seq![s] + rest;
                assert forall|i: int| 0 <= i < subs.len() implies kern_body_shaped(
                    #[trigger] subs[i].data,
                ) by {
                    if i > 0 {
                        assert(subs[i] == rest[i - 1]);
                    }
                }
            }
        }
    }
}

/// A parsed `kern` table has as many subtables as its count says, each
/// format 0 subtable as many pairs as its count says, and each kerning
/// array a row per glyph of the left class table and a column per glyph of
/// the right one.
pub proof fn lemma_kern_counts(t: Seq<u8>, origin: int)
    ensures
        spec_kern_table(t, origin) matches Some((k, _)) ==> k.subtables.len() == k.n_tables && forall|i: int|
            0 <= i < k.subtables.len() ==> kern_body_shaped(#[trigger] k.subtables[i].data),
{
    lemma_kern_subtables_shaped(t, 4, u16_at(t, 2) as nat, origin);
}

/// Splits a coverage word into its fields.
pub fn kern_coverage(raw: u16) -> (c: KernCoverage)
    ensures
        c == spec_kern_coverage(raw),
{
    KernCoverage {
        format: (raw / 256) as u8,
        overrides: (raw / 8) % 2 == 1,
        cross_stream: (raw / 4) % 2 == 1,
        minimum: (raw / 2) % 2 == 1,
        horizontal: raw % 2 == 1,
    }
}

fn kern_format0(t: &[u8], q: usize) -> (r: Option<(KernSubtableData, usize)>)
    ensures
        agrees(r, spec_kern_format0(t@, q as int)),
{
    if !has_bytes(t, q, 8) {
        return None;
    }
    let n = get_u16be(t, q);
    if !has_bytes(t, q + 8, 6 * (n as usize)) {
        return None;
    }
    let mut pairs: Vec<KernPair> = Vec::new();
    let mut i: usize = 0;
    while i < n as usize
        invariant
            0 <= i <= n,
            avail(t@, q + 8, 6 * n),
            t@.len() <= usize::MAX,
            pairs@ =~= Seq::new(i as nat, |j: int| pair_at(t@, q + 8 + 6 * j)),
        decreases n - i,
    {
        let p = q + 8 + 6 * i;
        pairs.push(
            KernPair {
                left: get_u16be(t, p),
                right: get_u16be(t, p + 2),
                value: as_i16(get_u16be(t, p + 4)),
            },
        );
        i = i + 1;
        assert(pairs@ =~= Seq::new(i as nat, |j: int| pair_at(t@, q + 8 + 6 * j)));
    }
    let d = KernSubtableData::Format0 {
        n_pairs: n,
        search_range: get_u16be(t, q + 2),
        entry_selector: get_u16be(t, q + 4),
        range_shift: get_u16be(t, q + 6),
        kern_pairs: pairs,
    };
    Some((d, q + 8 + 6 * (n as usize)))
}

fn class_table(t: &[u8], x: usize) -> (r: Option<KernClassTable>)
    ensures
        match r {
            Some(c) => spec_class_table(t@, x as int) == Some(c@),
            None => spec_class_table(t@, x as int) is None,
        },
{
    if !has_bytes(t, x, 4) {
        return None;
    }
    let n = get_u16be(t, x + 2);
    if !has_bytes(t, x + 4, 2 * (n as usize)) {
        return None;
    }
    Some(
        KernClassTable {
            first_glyph: get_u16be(t, x),
            n_glyphs: n,
            class_values: read_u16s(t, x + 4, n as usize),
        },
    )
}

fn class_link(t: &[u8], base: usize, pos: usize) -> (r: Option<Link16<KernClassTable>>)
    ensures
        match r {
            Some(l) => spec_class_link(t@, base as int, pos as int) == Some(l@),
            None => spec_class_link(t@, base as int, pos as int) is None,
        },
{
    let (off, target, _) = match offset16_mandatory(t, base, pos) {
        Some(x) => x,
        None => return None,
    };
    match target {
        None => Some(Link16 { offset: off, link: None }),
        Some(x) => match class_table(t, x) {
            Some(c) => Some(Link16 { offset: off, link: Some(c) }),
            None => None,
        },
    }
}

fn read_i16s(t: &[u8], p: usize, n: usize) -> (v: Vec<i16>)
    requires
        avail(t@, p as int, 2 * n),
    ensures
        v@ == i16s_at(t@, p as int, n as int),
{
    let _len = t.len();
    let mut v: Vec<i16> = Vec::new();
    let mut j: usize = 0;
    while j < n
        invariant
            0 <= j <= n,
            avail(t@, p as int, 2 * n),
            t@.len() <= usize::MAX,
            v@ =~= Seq::new(j as nat, |k: int| to_i16(u16_at(t@, p + 2 * k))),
        decreases n - j,
    {
        v.push(as_i16(get_u16be(t, p + 2 * j)));
        j = j + 1;
        assert(v@ =~= Seq::new(j as nat, |k: int| to_i16(u16_at(t@, p + 2 * k))));
    }
    v
}

fn kerning_array(t: &[u8], y: usize, rows: u16, cols: u16) -> (r: Option<Vec<Vec<i16>>>)
    ensures
        match r {
            Some(a) => avail(t@, y as int, 2 * rows * cols) && rows_view(a@) == kerning_rows(
                t@,
                y as int,
                rows as int,
                cols as int,
            ),
            None => !avail(t@, y as int, 2 * rows * cols),
        },
{
    let _len = t.len();
    if y > t.len() {
        return None;
    }
    proof {
        assert(2 * rows * cols <= 2 * 0xffff * 0xffff) by (nonlinear_arith)
            requires
                rows <= 0xffff,
                cols <= 0xffff,
        ;
    }
    let total: u64 = 2 * (rows as u64) * (cols as u64);
    if total > (t.len() - y) as u64 {
        return None;
    }
    let width: usize = 2 * (cols as usize);
    let mut out: Vec<Vec<i16>> = Vec::new();
    let mut i: usize = 0;
    let mut start: usize = y;
    while i < rows as usize
        invariant
            0 <= i <= rows,
            width == 2 * cols,
            avail(t@, y as int, 2 * rows * cols),
            start == y + 2 * cols * i,
            t@.len() <= usize::MAX,
            rows_view(out@) =~= Seq::new(i as nat, |k: int| i16s_at(t@, y + 2 * cols * k, cols as int)),
        decreases rows - i,
    {
        assert(2 * cols * (i + 1) <= 2 * rows * cols) by (nonlinear_arith)
            requires
                i < rows,
        ;
        assert(2 * cols * (i + 1) == 2 * cols * i + 2 * cols) by (nonlinear_arith);
        let row = read_i16s(t, start, cols as usize);
        let ghost old_v = out@;
        out.push(row);
        assert(rows_view(out@) =~= rows_view(old_v).push(row@));
        i = i + 1;
        start = start + width;
        assert(rows_view(out@) =~= Seq::new(
            i as nat,
            |k: int| i16s_at(t@, y + 2 * cols * k, cols as int),
        ));
    }
    Some(out)
}

fn kern_format2(t: &[u8], q: usize, origin: usize) -> (r: Option<(KernSubtableData, usize)>)
    requires
        origin + t@.len() <= usize::MAX,
    ensures
        agrees(r, spec_kern_format2(t@, q as int, origin as int)),
{
    if !has_bytes(t, q, 8) {
        return None;
    }
    let left = match class_link(t, q, q + 2) {
        Some(l) => l,
        None => return None,
    };
    let right = match class_link(t, q, q + 4) {
        Some(l) => l,
        None => return None,
    };
    let (off, arr, _) = match offset16_mandatory(t, q, q + 6) {
        Some(x) => x,
        None => return None,
    };
    let array = match arr {
        None => None,
        Some(y) => {
            let (rows, cols) = match (&left.link, &right.link) {
                (Some(l), Some(r)) => (l.n_glyphs, r.n_glyphs),
                _ => return None,
            };
            match kerning_array(t, y, rows, cols) {
                Some(a) => Some(a),
                None => return None,
            }
        },
    };
    let d = KernSubtableData::Format2 {
        table_start: origin + q,
        row_width: get_u16be(t, q),
        left_class_offset: left,
        right_class_offset: right,
        kerning_array_offset: Link16 { offset: off, link: array },
    };
    Some((d, q + 8))
}

fn kern_subtable(t: &[u8], p: usize, origin: usize) -> (r: Option<(KernSubtable, usize)>)
    requires
        origin + t@.len() <= usize::MAX,
    ensures
        agrees(r, spec_kern_subtable(t@, p as int, origin as int)),
{
    if !has_bytes(t, p, 6) || get_u16be(t, p) != 0 {
        return None;
    }
    let cov = kern_coverage(get_u16be(t, p + 4));
    let body = if cov.format == 0 {
        kern_format0(t, p + 6)
    } else if cov.format == 2 {
        kern_format2(t, p + 6, origin)
    } else {
        None
    };
    match body {
        None => None,
        Some((data, e)) => Some(
            (KernSubtable { version: 0, length: get_u16be(t, p + 2), coverage: cov, data }, e),
        ),
    }
}

/// Prefixes `done` to the subtables of a parse result.
pub open spec fn after(
    done: Seq<SpecKernSubtable>,
    r: Option<(Seq<SpecKernSubtable>, int)>,
) -> Option<(Seq<SpecKernSubtable>, int)> {
    match r {
        None => None,
        Some((rest, e)) => Some((done + rest, e)),
    }
}

/// Parses the `kern` table held in `t`, which lies at position `origin` of
/// the file.
pub fn kern_table(t: &[u8], origin: usize) -> (r: Option<(KernTable, usize)>)
    requires
        origin + t@.len() <= usize::MAX,
    ensures
        match r {
            Some((k, e)) => spec_kern_table(t@, origin as int) == Some((k@, e as int)),
            None => spec_kern_table(t@, origin as int) is None,
        },
{
    if !has_bytes(t, 0, 4) || get_u16be(t, 0) != 0 {
        return None;
    }
    let n = get_u16be(t, 2);
    let mut subs: Vec<KernSubtable> = Vec::new();
    let mut i: u16 = 0;
    let mut p: usize = 4;
    assert(subtables_view(subs@) + seq![] =~= subtables_view(subs@));
    while i < n
        invariant
            0 <= i <= n,
            avail(t@, 0, 4) && u16_at(t@, 0) == 0 && n == u16_at(t@, 2),
            origin + t@.len() <= usize::MAX,
            spec_kern_subtables(t@, 4, n as nat, origin as int) == after(
                subtables_view(subs@),
                spec_kern_subtables(t@, p as int, (n - i) as nat, origin as int),
            ),
        decreases n - i,
    {
        let (s, q) = match kern_subtable(t, p, origin) {
            Some(x) => x,
            None => return None,
        };
        let ghost old_v = subtables_view(subs@);
        let ghost m: nat = (n - i) as nat;
        let ghost tail = spec_kern_subtables(t@, q as int, (m - 1) as nat, origin as int);
        assert(spec_kern_subtables(t@, p as int, m, origin as int) == after(seq![s@], tail));
        subs.push(s);
        assert(subtables_view(subs@) =~= old_v + seq![s@]);
        proof {
            if let Some((rest, _)) = tail {
                assert(old_v + (seq![s@] + rest) =~= (old_v + seq![s@]) + rest);
            }
        }
        i = i + 1;
        p = q;
    }
    assert(subtables_view(subs@) + Seq::<SpecKernSubtable>::empty() =~= subtables_view(subs@));
    Some((KernTable { version: 0, n_tables: n, subtables: subs }, p))
}


/// A coverage word gives the subtable format in its high byte and the flags
/// in its low bits: bit 0 horizontal, 1 minimum, 2 cross-stream, 3
/// override.
pub proof fn lemma_kern_coverage_bits(raw: u16)
    ensures
        ({
            let c = spec_kern_coverage(raw);
            &&& c.format == raw >> 8
            &&& c.horizontal == (raw & 1 != 0)
            &&& c.minimum == (raw & 2 != 0)
            &&& c.cross_stream == (raw & 4 != 0)
            &&& c.overrides == (raw & 8 != 0)
        }),
{
    assert({
        &&& raw / 256 == raw >> 8
        &&& (raw % 2 == 1) == (raw & 1 != 0)
        &&& ((raw / 2) % 2 == 1) == (raw & 2 != 0)
        &&& ((raw / 4) % 2 == 1) == (raw & 4 != 0)
        &&& ((raw / 8) % 2 == 1) == (raw & 8 != 0)
    }) by (bit_vector);
}

/// A format 0 body at `q` has its pair count and search words at `q` to
/// `q + 6`, then pair `i` at `q + 8 + 6 * i`: left glyph, right glyph and
/// signed value; a class table at `x` has its first glyph and count at `x`
/// and `x + 2`, then one class word per glyph.
pub proof fn lemma_kern_fields(t: Seq<u8>, q: int)
    ensures
        spec_kern_format0(t, q) matches Some((SpecKernSubtableData::Format0 {
            n_pairs,
            search_range,
            entry_selector,
            range_shift,
            kern_pairs,
        }, e)) ==> {
            &&& n_pairs == crate::bytes::word_at(t, q)
            &&& search_range == crate::bytes::word_at(t, q + 2)
            &&& entry_selector == crate::bytes::word_at(t, q + 4)
            &&& range_shift == crate::bytes::word_at(t, q + 6)
            &&& e == q + 8 + 6 * n_pairs
            &&& forall|i: int|
                0 <= i < n_pairs ==> (#[trigger] kern_pairs[i]).left == crate::bytes::word_at(t, q + 8 + 6 * i)
                    && kern_pairs[i].right == crate::bytes::word_at(t, q + 10 + 6 * i) && kern_pairs[i].value
                    == crate::bytes::signed_word_at(t, q + 12 + 6 * i)
        },
        spec_class_table(t, q) matches Some(c) ==> {
            &&& c.first_glyph == crate::bytes::word_at(t, q)
            &&& c.n_glyphs == crate::bytes::word_at(t, q + 2)
            &&& c.class_values.len() == c.n_glyphs
            &&& forall|i: int| 0 <= i < c.n_glyphs ==> #[trigger] c.class_values[i] == crate::bytes::word_at(t, q + 4 + 2 * i)
        },
{
    if let Some((d, e)) = spec_kern_format0(t, q) {
        crate::bytes::lemma_readers_spell(t, q);
        crate::bytes::lemma_readers_spell(t, q + 2);
        crate::bytes::lemma_readers_spell(t, q + 4);
        crate::bytes::lemma_readers_spell(t, q + 6);
        if let SpecKernSubtableData::Format0 { n_pairs, kern_pairs, .. } = d {
            assert forall|i: int| 0 <= i < n_pairs implies (#[trigger] kern_pairs[i]).left == crate::bytes::word_at(t, q + 8 + 6 * i)
                && kern_pairs[i].right == crate::bytes::word_at(t, q + 10 + 6 * i) && kern_pairs[i].value
                == crate::bytes::signed_word_at(t, q + 12 + 6 * i) by {
                crate::bytes::lemma_readers_spell(t, q + 8 + 6 * i);
                crate::bytes::lemma_readers_spell(t, q + 10 + 6 * i);
                crate::bytes::lemma_readers_spell(t, q + 12 + 6 * i);
            }
        }
    }
    if let Some(c) = spec_class_table(t, q) {
        crate::bytes::lemma_readers_spell(t, q);
        crate::bytes::lemma_readers_spell(t, q + 2);
        assert forall|i: int| 0 <= i < c.n_glyphs implies #[trigger] c.class_values[i] == crate::bytes::word_at(t, q + 4 + 2 * i) by {
            crate::bytes::lemma_readers_spell(t, q + 4 + 2 * i);
        }
    }
}


/// A `kern` table holds version 0 and its subtable count as the words at 0
/// and 2; a subtable at `p` holds version 0, its length and its coverage
/// word at `p`, `p + 2` and `p + 4`, and its body starts at `p + 6`.
pub proof fn lemma_kern_header_fields(t: Seq<u8>, p: int, origin: int)
    ensures
        spec_kern_table(t, origin) matches Some((k, _)) ==> crate::bytes::word_at(t, 0) == 0 && k.n_tables == crate::bytes::word_at(t, 2),
        spec_kern_subtable(t, p, origin) matches Some((st, _)) ==> crate::bytes::word_at(t, p) == 0 && st.length == crate::bytes::word_at(t, p + 2)
            && st.coverage == spec_kern_coverage(crate::bytes::word_at(t, p + 4) as u16),
{
    if avail(t, 0, 4) {
        crate::bytes::lemma_readers_spell(t, 0);
        crate::bytes::lemma_readers_spell(t, 2);
    }
    if avail(t, p, 6) {
        crate::bytes::lemma_readers_spell(t, p);
        crate::bytes::lemma_readers_spell(t, p + 2);
        crate::bytes::lemma_readers_spell(t, p + 4);
    }
}

} // verus!
