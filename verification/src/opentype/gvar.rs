//! The glyph variations table (`gvar`): tuple variation headers, packed
//! point numbers and packed deltas, the variation data of each glyph, and
//! the table header. Positions are relative to the start of the `gvar`
//! table.
use vstd::prelude::*;
use vstd::slice::{slice_subrange, slice_to_vec};
use crate::bytes::{
    as_i16, as_i8, avail, get_u16be, get_u32be, has_bytes, prepend_parsed, to_i16, to_i8, u16_at,
    u32_at,
};
use crate::opentype::cmap::{read_u16s, u16s_at};
use crate::opentype::glyf::{byte_offsets, for_each_pair, pairs_view, spec_for_each_pair, LocaOffsets, SpecLocaOffsets};
use crate::opentype::links::{Link32, linked_offset32, offset32, spec_offset32};
use crate::opentype::values::F2Dot14;

verus! {

/// The point numbers of a run: 16-bit where the run says so, else 8-bit.
#[derive(Clone, Debug, PartialEq, Eq)]
pub enum RunPoints {
    Points16(Vec<u16>),
    Points8(Vec<u8>),
}

/// Mathematical form of `RunPoints`.
pub enum SpecRunPoints {
    Points16(Seq<u16>),
    Points8(Seq<u8>),
}

/// A run of packed point numbers: a control byte (whether the numbers are
/// words; the run length less one, in 7 bits) and the numbers.
#[derive(Clone, Debug, PartialEq, Eq)]
pub struct PointRun {
    pub points_are_words: bool,
    pub point_run_count: u8,
    pub points: RunPoints,
}

/// Mathematical form of `PointRun`.
pub struct SpecPointRun {
    pub points_are_words: bool,
    pub point_run_count: u8,
    pub points: SpecRunPoints,
}

impl View for PointRun {
    type V = SpecPointRun;

    open spec fn view(&self) -> SpecPointRun {
        SpecPointRun {
            points_are_words: self.points_are_words,
            point_run_count: self.point_run_count,
            points: match &self.points {
                RunPoints::Points16(v) => SpecRunPoints::Points16(v@),
                RunPoints::Points8(v) => SpecRunPoints::Points8(v@),
            },
        }
    }
}

/// The run of point numbers at `p`.
pub open spec fn spec_point_run(t: Seq<u8>, p: int) -> Option<(SpecPointRun, int)> {
    if !avail(t, p, 1) {
        None
    } else {
        let c = t[p];
        let words = c >= 128;
        let count = (c % 128) as u8;
        let len = count + 1;
        if words {
            if avail(t, p + 1, 2 * len) {
                Some((SpecPointRun {
                    points_are_words: true,
                    point_run_count: count,
                    points: SpecRunPoints::Points16(u16s_at(t, p + 1, len)),
                }, p + 1 + 2 * len))
            } else {
                None
            }
        } else {
            if avail(t, p + 1, len) {
                Some((SpecPointRun {
                    points_are_words: false,
                    point_run_count: count,
                    points: SpecRunPoints::Points8(t.subrange(p + 1, p + 1 + len)),
                }, p + 1 + len))
            } else {
                None
            }
        }
    }
}

/// How far `acc` is from reaching `total`.
pub open spec fn shortfall(acc: int, total: int) -> int {
    if acc < total {
        total - acc
    } else {
        0
    }
}

/// Runs of point numbers from `p`, read while the number of points read so
/// far, `acc`, is below `total`; a count that would pass `0xffff` fails.
pub open spec fn spec_point_runs(t: Seq<u8>, p: int, acc: int, total: int) -> Option<
    (Seq<SpecPointRun>, int),
>
    decreases shortfall(acc, total),
{
    if acc >= total {
        Some((Seq::empty(), p))
    } else {
        match spec_point_run(t, p) {
            None => None,
            Some((r, e)) => {
                let acc2 = acc + r.point_run_count + 1;
                if acc2 > 0xffff {
                    None
                } else {
                    match spec_point_runs(t, e, acc2, total) {
                        None => None,
                        Some((rest, e2)) => Some((seq![r] + rest, e2)),
                    }
                }
            },
        }
    }
}

/// The views of a sequence of point runs.
pub open spec fn point_runs_view(v: Seq<PointRun>) -> Seq<SpecPointRun> {
    v.map_values(|r: PointRun| r@)
}

fn point_run(t: &[u8], p: usize) -> (r: Option<(PointRun, usize)>)
    ensures
        match r {
            Some((v, e)) => spec_point_run(t@, p as int) == Some((v@, e as int)) && e <= t@.len(),
            None => spec_point_run(t@, p as int) is None,
        },
{
    if !has_bytes(t, p, 1) {
        return None;
    }
    let c = t[p];
    let count = c % 128;
    let len = (count as usize) + 1;
    if c >= 128 {
        if !has_bytes(t, p + 1, 2 * len) {
            return None;
        }
        let run = PointRun {
            points_are_words: true,
            point_run_count: count,
            points: RunPoints::Points16(read_u16s(t, p + 1, len)),
        };
        Some((run, p + 1 + 2 * len))
    } else {
        if !has_bytes(t, p + 1, len) {
            return None;
        }
        let bytes = slice_to_vec(slice_subrange(t, p + 1, p + 1 + len));
        let run = PointRun { points_are_words: false, point_run_count: count, points: RunPoints::Points8(bytes) };
        Some((run, p + 1 + len))
    }
}

fn point_runs(t: &[u8], p: usize, total: u16) -> (r: Option<(Vec<PointRun>, usize)>)
    ensures
        match r {
            Some((v, e)) => spec_point_runs(t@, p as int, 0, total as int) == Some(
                (point_runs_view(v@), e as int),
            ),
            None => spec_point_runs(t@, p as int, 0, total as int) is None,
        },
{
    let mut v: Vec<PointRun> = Vec::new();
    let mut acc: u32 = 0;
    let mut q: usize = p;
    proof {
        if let Some((rest, _)) = spec_point_runs(t@, p as int, 0, total as int) {
            assert(point_runs_view(v@) + rest =~= rest);
        }
    }
    while acc < total as u32
        invariant
            acc <= 0xffff,
            spec_point_runs(t@, p as int, 0, total as int) == prepend_parsed(
                point_runs_view(v@),
                spec_point_runs(t@, q as int, acc as int, total as int),
            ),
        decreases shortfall(acc as int, total as int),
    {
        let (run, e) = match point_run(t, q) {
            Some(x) => x,
            None => return None,
        };
        let acc2 = acc + (run.point_run_count as u32) + 1;
        if acc2 > 0xffff {
            return None;
        }
        let ghost old_v = point_runs_view(v@);
        let ghost tail = spec_point_runs(t@, e as int, acc2 as int, total as int);
        assert(spec_point_runs(t@, q as int, acc as int, total as int) == prepend_parsed(seq![run@], tail));
        v.push(run);
        assert(point_runs_view(v@) =~= old_v + seq![run@]);
        proof {
            if let Some((rest, _)) = tail {
                assert(old_v + (seq![run@] + rest) =~= (old_v + seq![run@]) + rest);
            }
        }
        acc = acc2;
        q = e;
    }
    assert(point_runs_view(v@) + Seq::<SpecPointRun>::empty() =~= point_runs_view(v@));
    Some((v, q))
}

/// Packed point numbers: the point count and the runs that hold them.
#[derive(Clone, Debug, PartialEq, Eq)]
pub struct PackedPoints {
    pub point_count: u16,
    pub runs: Vec<PointRun>,
}

/// Mathematical form of `PackedPoints`.
pub struct SpecPackedPoints {
    pub point_count: u16,
    pub runs: Seq<SpecPointRun>,
}

impl View for PackedPoints {
    type V = SpecPackedPoints;

    open spec fn view(&self) -> SpecPackedPoints {
        SpecPackedPoints { point_count: self.point_count, runs: point_runs_view(self.runs@) }
    }
}

/// The packed point numbers at `p`: a zero byte for none; a byte from 1 to
/// 127 giving the count; or a byte with the high bit set whose low seven
/// bits and the next byte give a 15-bit count; then runs that cover the
/// count.
pub open spec fn spec_packed_points(t: Seq<u8>, p: int) -> Option<(SpecPackedPoints, int)> {
    if !avail(t, p, 1) {
        None
    } else {
        let b0 = t[p];
        if b0 == 0 {
            Some((SpecPackedPoints { point_count: 0, runs: Seq::empty() }, p + 1))
        } else {
            let (count, q) = if b0 < 128 {
                (b0 as int, p + 1)
            } else {
                ((b0 % 128) * 256 + t[p + 1], p + 2)
            };
            if b0 >= 128 && !avail(t, p + 1, 1) {
                None
            } else {
                match spec_point_runs(t, q, 0, count) {
                    None => None,
                    Some((runs, e)) => Some((SpecPackedPoints { point_count: count as u16, runs }, e)),
                }
            }
        }
    }
}

/// Parses the packed point numbers at `p`.
pub fn packed_points(t: &[u8], p: usize) -> (r: Option<(PackedPoints, usize)>)
    ensures
        match r {
            Some((v, e)) => spec_packed_points(t@, p as int) == Some((v@, e as int)),
            None => spec_packed_points(t@, p as int) is None,
        },
{
    if !has_bytes(t, p, 1) {
        return None;
    }
    let b0 = t[p];
    if b0 == 0 {
        let runs: Vec<PointRun> = Vec::new();
        assert(point_runs_view(runs@) =~= Seq::<SpecPointRun>::empty());
        return Some((PackedPoints { point_count: 0, runs }, p + 1));
    }
    let (count, q): (u16, usize) = if b0 < 128 {
        (b0 as u16, p + 1)
    } else {
        if !has_bytes(t, p + 1, 1) {
            return None;
        }
        (((b0 % 128) as u16) * 256 + (t[p + 1] as u16), p + 2)
    };
    match point_runs(t, q, count) {
        None => None,
        Some((runs, e)) => Some((PackedPoints { point_count: count, runs }, e)),
    }
}

/// The deltas of a run: none stored (all zero, only counted), 16-bit, or
/// 8-bit.
#[derive(Clone, Debug, PartialEq, Eq)]
pub enum RunDeltas {
    Delta0(u8),
    Delta16(Vec<i16>),
    Delta8(Vec<i8>),
}

/// Mathematical form of `RunDeltas`.
pub enum SpecRunDeltas {
    Delta0(u8),
    Delta16(Seq<i16>),
    Delta8(Seq<i8>),
}

/// A run of packed deltas: a control byte (whether the deltas are zero,
/// whether they are words, the run length less one in 6 bits) and the
/// deltas.
#[derive(Clone, Debug, PartialEq, Eq)]
pub struct DeltaRun {
    pub deltas_are_zero: bool,
    pub deltas_are_words: bool,
    pub delta_run_count: u8,
    pub deltas: RunDeltas,
}

/// Mathematical form of `DeltaRun`.
pub struct SpecDeltaRun {
    pub deltas_are_zero: bool,
    pub deltas_are_words: bool,
    pub delta_run_count: u8,
    pub deltas: SpecRunDeltas,
}

impl View for DeltaRun {
    type V = SpecDeltaRun;

    open spec fn view(&self) -> SpecDeltaRun {
        SpecDeltaRun {
            deltas_are_zero: self.deltas_are_zero,
            deltas_are_words: self.deltas_are_words,
            delta_run_count: self.delta_run_count,
            deltas: match &self.deltas {
                RunDeltas::Delta0(n) => SpecRunDeltas::Delta0(*n),
                RunDeltas::Delta16(v) => SpecRunDeltas::Delta16(v@),
                RunDeltas::Delta8(v) => SpecRunDeltas::Delta8(v@),
            },
        }
    }
}

/// `n` signed 16-bit values at `p`.
pub open spec fn i16s_at(t: Seq<u8>, p: int, n: int) -> Seq<i16> {
    Seq::new(n as nat, |i: int| to_i16(u16_at(t, p + 2 * i)))
}

/// `n` signed bytes at `p`.
pub open spec fn i8s_at(t: Seq<u8>, p: int, n: int) -> Seq<i8> {
    Seq::new(n as nat, |i: int| to_i8(t[p + i]))
}

/// The run of deltas at `p`.
pub open spec fn spec_delta_run(t: Seq<u8>, p: int) -> Option<(SpecDeltaRun, int)> {
    if !avail(t, p, 1) {
        None
    } else {
        let c = t[p];
        let zero = c >= 128;
        let words = (c / 64) % 2 == 1;
        let count = (c % 64) as u8;
        let len = count + 1;
        let head = SpecDeltaRun {
            deltas_are_zero: zero,
            deltas_are_words: words,
            delta_run_count: count,
            deltas: SpecRunDeltas::Delta0(len as u8),
        };
        if zero {
            Some((head, p + 1))
        } else if words {
            if avail(t, p + 1, 2 * len) {
                Some((SpecDeltaRun { deltas: SpecRunDeltas::Delta16(i16s_at(t, p + 1, len)), ..head }, p + 1 + 2 * len))
            } else {
                None
            }
        } else {
            if avail(t, p + 1, len) {
                Some((SpecDeltaRun { deltas: SpecRunDeltas::Delta8(i8s_at(t, p + 1, len)), ..head }, p + 1 + len))
            } else {
                None
            }
        }
    }
}

/// Runs of deltas from `p`, read while the number of deltas so far, `acc`,
/// is below `total`; a count that would pass `0xffff` fails.
pub open spec fn spec_delta_runs(t: Seq<u8>, p: int, acc: int, total: int) -> Option<
    (Seq<SpecDeltaRun>, int),
>
    decreases shortfall(acc, total),
{
    if acc >= total {
        Some((Seq::empty(), p))
    } else {
        match spec_delta_run(t, p) {
            None => None,
            Some((r, e)) => {
                let acc2 = acc + r.delta_run_count + 1;
                if acc2 > 0xffff {
                    None
                } else {
                    match spec_delta_runs(t, e, acc2, total) {
                        None => None,
                        Some((rest, e2)) => Some((seq![r] + rest, e2)),
                    }
                }
            },
        }
    }
}

/// The views of a sequence of delta runs.
pub open spec fn delta_runs_view(v: Seq<DeltaRun>) -> Seq<SpecDeltaRun> {
    v.map_values(|r: DeltaRun| r@)
}

/// How many point numbers a run holds.
pub open spec fn run_points_len(p: SpecRunPoints) -> int {
    match p {
        SpecRunPoints::Points16(v) => v.len() as int,
        SpecRunPoints::Points8(v) => v.len() as int,
    }
}

/// How many points a sequence of runs announces: each run its count plus one.
pub open spec fn point_run_total(runs: Seq<SpecPointRun>) -> int
    decreases runs.len(),
{
    if runs.len() == 0 {
        0
    } else {
        runs[0].point_run_count + 1 + point_run_total(runs.drop_first())
    }
}

/// How many deltas a run holds (stored or, for a run of zeros, counted).
pub open spec fn run_deltas_len(d: SpecRunDeltas) -> int {
    match d {
        SpecRunDeltas::Delta0(n) => n as int,
        SpecRunDeltas::Delta16(v) => v.len() as int,
        SpecRunDeltas::Delta8(v) => v.len() as int,
    }
}

/// How many deltas a sequence of runs announces: each run its count plus one.
pub open spec fn delta_run_total(runs: Seq<SpecDeltaRun>) -> int
    decreases runs.len(),
{
    if runs.len() == 0 {
        0
    } else {
        runs[0].delta_run_count + 1 + delta_run_total(runs.drop_first())
    }
}

/// Packed point runs are read until they reach the wanted number and no
/// further: runs read from `acc` points towards `total` together reach
/// `total`, every proper prefix of them falls short of it, and each run holds
/// exactly as many point numbers as its control byte announces.
pub proof fn lemma_point_runs_cover(t: Seq<u8>, p: int, acc: int, total: int)
    requires
        spec_point_runs(t, p, acc, total) is Some,
    ensures
        ({
            let runs = spec_point_runs(t, p, acc, total).unwrap().0;
            &&& acc + point_run_total(runs) >= total
            &&& forall|k: int| 0 <= k < runs.len() ==> acc + #[trigger] point_run_total(runs.take(k)) < total
            &&& forall|i: int|
                0 <= i < runs.len() ==> run_points_len(#[trigger] runs[i].points) == runs[i].point_run_count + 1
        }),
    decreases shortfall(acc, total),
{
    let runs = spec_point_runs(t, p, acc, total).unwrap().0;
    if acc >= total {
        assert(runs.len() == 0);
    } else {
        let (r, e) = spec_point_run(t, p).unwrap();
        let acc2 = acc + r.point_run_count + 1;
        lemma_point_runs_cover(t, e, acc2, total);
        let rest = spec_point_runs(t, e, acc2, total).unwrap().0;
        assert(runs == seq![r] + rest);
        assert(runs.drop_first() =~= rest);
        assert(run_points_len(r.points) == r.point_run_count + 1);
        assert forall|k: int| 0 <= k < runs.len() implies acc + #[trigger] point_run_total(runs.take(k)) < total by {
            if k > 0 {
                assert(runs.take(k).drop_first() =~= rest.take(k - 1));
                assert(runs.take(k)[0] == r);
                assert(acc2 + point_run_total(rest.take(k - 1)) < total);
            } else {
                assert(runs.take(k).len() == 0);
            }
        }
        assert forall|i: int| 0 <= i < runs.len() implies run_points_len(#[trigger] runs[i].points)
            == runs[i].point_run_count + 1 by {
            if i > 0 {
                assert(runs[i] == rest[i - 1]);
            }
        }
    }
}

/// Packed delta runs are read until they reach the wanted number and no
/// further: runs read from `acc` deltas towards `total` together reach
/// `total`, every proper prefix of them falls short of it, and each run holds
/// exactly as many deltas as its control byte announces.
pub proof fn lemma_delta_runs_cover(t: Seq<u8>, p: int, acc: int, total: int)
    requires
        spec_delta_runs(t, p, acc, total) is Some,
    ensures
        ({
            let runs = spec_delta_runs(t, p, acc, total).unwrap().0;
            &&& acc + delta_run_total(runs) >= total
            &&& forall|k: int| 0 <= k < runs.len() ==> acc + #[trigger] delta_run_total(runs.take(k)) < total
            &&& forall|i: int|
                0 <= i < runs.len() ==> run_deltas_len(#[trigger] runs[i].deltas) == runs[i].delta_run_count + 1
        }),
    decreases shortfall(acc, total),
{
    let runs = spec_delta_runs(t, p, acc, total).unwrap().0;
    if acc >= total {
        assert(runs.len() == 0);
    } else {
        let (r, e) = spec_delta_run(t, p).unwrap();
        let acc2 = acc + r.delta_run_count + 1;
        lemma_delta_runs_cover(t, e, acc2, total);
        let rest = spec_delta_runs(t, e, acc2, total).unwrap().0;
        assert(runs == seq![r] + rest);
        assert(runs.drop_first() =~= rest);
        assert(run_deltas_len(r.deltas) == r.delta_run_count + 1);
        assert forall|k: int| 0 <= k < runs.len() implies acc + #[trigger] delta_run_total(runs.take(k)) < total by {
            if k > 0 {
                assert(runs.take(k).drop_first() =~= rest.take(k - 1));
                assert(runs.take(k)[0] == r);
                assert(acc2 + delta_run_total(rest.take(k - 1)) < total);
            } else {
                assert(runs.take(k).len() == 0);
            }
        }
        assert forall|i: int| 0 <= i < runs.len() implies run_deltas_len(#[trigger] runs[i].deltas)
            == runs[i].delta_run_count + 1 by {
            if i > 0 {
                assert(runs[i] == rest[i - 1]);
            }
        }
    }
}

fn read_i16s(t: &[u8], p: usize, n: usize) -> (v: Vec<i16>)
    requires
        avail(t@, p as int, 2 * n),
    ensures
        v@ == i16s_at(t@, p as int, n as int),
{
    let _len = t.len();
    let mut v: Vec<i16> = Vec::new();
    let mut i: usize = 0;
    while i < n
        invariant
            0 <= i <= n,
            avail(t@, p as int, 2 * n),
            t@.len() <= usize::MAX,
            v@ =~= i16s_at(t@, p as int, i as int),
        decreases n - i,
    {
        v.push(as_i16(get_u16be(t, p + 2 * i)));
        i = i + 1;
        assert(v@ =~= i16s_at(t@, p as int, i as int));
    }
    v
}

fn read_i8s(t: &[u8], p: usize, n: usize) -> (v: Vec<i8>)
    requires
        avail(t@, p as int, n as int),
    ensures
        v@ == i8s_at(t@, p as int, n as int),
{
    let _len = t.len();
    let mut v: Vec<i8> = Vec::new();
    let mut i: usize = 0;
    while i < n
        invariant
            0 <= i <= n,
            avail(t@, p as int, n as int),
            t@.len() <= usize::MAX,
            v@ =~= i8s_at(t@, p as int, i as int),
        decreases n - i,
    {
        v.push(as_i8(t[p + i]));
        i = i + 1;
        assert(v@ =~= i8s_at(t@, p as int, i as int));
    }
    v
}

fn delta_run(t: &[u8], p: usize) -> (r: Option<(DeltaRun, usize)>)
    ensures
        match r {
            Some((v, e)) => spec_delta_run(t@, p as int) == Some((v@, e as int)) && e <= t@.len(),
            None => spec_delta_run(t@, p as int) is None,
        },
{
    if !has_bytes(t, p, 1) {
        return None;
    }
    let c = t[p];
    let zero = c >= 128;
    let words = (c / 64) % 2 == 1;
    let count = c % 64;
    let len = (count as usize) + 1;
    if zero {
        let run = DeltaRun {
            deltas_are_zero: true,
            deltas_are_words: words,
            delta_run_count: count,
            deltas: RunDeltas::Delta0(count + 1),
        };
        Some((run, p + 1))
    } else if words {
        if !has_bytes(t, p + 1, 2 * len) {
            return None;
        }
        let run = DeltaRun {
            deltas_are_zero: false,
            deltas_are_words: true,
            delta_run_count: count,
            deltas: RunDeltas::Delta16(read_i16s(t, p + 1, len)),
        };
        Some((run, p + 1 + 2 * len))
    } else {
        if !has_bytes(t, p + 1, len) {
            return None;
        }
        let run = DeltaRun {
            deltas_are_zero: false,
            deltas_are_words: false,
            delta_run_count: count,
            deltas: RunDeltas::Delta8(read_i8s(t, p + 1, len)),
        };
        Some((run, p + 1 + len))
    }
}

/// Parses runs of packed deltas at `p` until `total` deltas are covered.
pub fn packed_deltas(t: &[u8], p: usize, total: u16) -> (r: Option<(Vec<DeltaRun>, usize)>)
    ensures
        match r {
            Some((v, e)) => spec_delta_runs(t@, p as int, 0, total as int) == Some(
                (delta_runs_view(v@), e as int),
            ),
            None => spec_delta_runs(t@, p as int, 0, total as int) is None,
        },
{
    let mut v: Vec<DeltaRun> = Vec::new();
    let mut acc: u32 = 0;
    let mut q: usize = p;
    proof {
        if let Some((rest, _)) = spec_delta_runs(t@, p as int, 0, total as int) {
            assert(delta_runs_view(v@) + rest =~= rest);
        }
    }
    while acc < total as u32
        invariant
            acc <= 0xffff,
            spec_delta_runs(t@, p as int, 0, total as int) == prepend_parsed(
                delta_runs_view(v@),
                spec_delta_runs(t@, q as int, acc as int, total as int),
            ),
        decreases shortfall(acc as int, total as int),
    {
        let (run, e) = match delta_run(t, q) {
            Some(x) => x,
            None => return None,
        };
        let acc2 = acc + (run.delta_run_count as u32) + 1;
        if acc2 > 0xffff {
            return None;
        }
        let ghost old_v = delta_runs_view(v@);
        let ghost tail = spec_delta_runs(t@, e as int, acc2 as int, total as int);
        assert(spec_delta_runs(t@, q as int, acc as int, total as int) == prepend_parsed(seq![run@], tail));
        v.push(run);
        assert(delta_runs_view(v@) =~= old_v + seq![run@]);
        proof {
            if let Some((rest, _)) = tail {
                assert(old_v + (seq![run@] + rest) =~= (old_v + seq![run@]) + rest);
            }
        }
        acc = acc2;
        q = e;
    }
    assert(delta_runs_view(v@) + Seq::<SpecDeltaRun>::empty() =~= delta_runs_view(v@));
    Some((v, q))
}

/// A point of the design space: one normalised coordinate per axis, in 2.14
/// fixed point.
#[derive(Clone, Debug, PartialEq, Eq)]
pub struct TupleRecord {
    pub coordinates: Vec<F2Dot14>,
}

/// Mathematical form of `TupleRecord`.
pub struct SpecTupleRecord {
    pub coordinates: Seq<F2Dot14>,
}

impl View for TupleRecord {
    type V = SpecTupleRecord;

    open spec fn view(&self) -> SpecTupleRecord {
        SpecTupleRecord { coordinates: self.coordinates@ }
    }
}

/// The tuple of `axes` coordinates at `q`.
pub open spec fn tuple_item(t: Seq<u8>, axes: u16, q: int) -> Option<(SpecTupleRecord, int)> {
    if avail(t, q, 2 * axes) {
        Some((SpecTupleRecord { coordinates: Seq::new(axes as nat, |i: int| F2Dot14(u16_at(t, q + 2 * i))) }, q + 2 * axes))
    } else {
        None
    }
}

fn tuple_item_exec(t: &[u8], axes: u16, q: usize) -> (r: Option<(TupleRecord, usize)>)
    ensures
        match r {
            Some((v, e)) => tuple_item(t@, axes, q as int) == Some((v@, e as int)),
            None => tuple_item(t@, axes, q as int) is None,
        },
{
    let n = axes as usize;
    if !has_bytes(t, q, 2 * n) {
        return None;
    }
    let mut v: Vec<F2Dot14> = Vec::new();
    let mut i: usize = 0;
    while i < n
        invariant
            0 <= i <= n,
            n == axes,
            avail(t@, q as int, 2 * n),
            t@.len() <= usize::MAX,
            v@ =~= Seq::new(i as nat, |j: int| F2Dot14(u16_at(t@, q + 2 * j))),
        decreases n - i,
    {
        v.push(F2Dot14(get_u16be(t, q + 2 * i)));
        i = i + 1;
        assert(v@ =~= Seq::new(i as nat, |j: int| F2Dot14(u16_at(t@, q + 2 * j))));
    }
    Some((TupleRecord { coordinates: v }, q + 2 * n))
}

/// The views of a sequence of tuples.
pub open spec fn tuples_view(v: Seq<TupleRecord>) -> Seq<SpecTupleRecord> {
    v.map_values(|r: TupleRecord| r@)
}

/// `n` tuples of `axes` coordinates one after the other from `q`.
pub open spec fn spec_tuples(t: Seq<u8>, axes: u16, q: int, n: nat) -> Option<(Seq<SpecTupleRecord>, int)>
    decreases n,
{
    if n == 0 {
        Some((Seq::empty(), q))
    } else {
        match tuple_item(t, axes, q) {
            None => None,
            Some((x, e)) => match spec_tuples(t, axes, e, (n - 1) as nat) {
                None => None,
                Some((rest, e2)) => Some((seq![x] + rest, e2)),
            },
        }
    }
}

fn tuples(t: &[u8], axes: u16, q: usize, n: u16) -> (r: Option<(Vec<TupleRecord>, usize)>)
    ensures
        match r {
            Some((v, e)) => spec_tuples(t@, axes, q as int, n as nat) == Some((tuples_view(v@), e as int)),
            None => spec_tuples(t@, axes, q as int, n as nat) is None,
        },
{
    let mut v: Vec<TupleRecord> = Vec::new();
    let mut i: u16 = 0;
    let mut p: usize = q;
    proof {
        if let Some((rest, _)) = spec_tuples(t@, axes, q as int, n as nat) {
            assert(tuples_view(v@) + rest =~= rest);
        }
    }
    while i < n
        invariant
            0 <= i <= n,
            spec_tuples(t@, axes, q as int, n as nat) == prepend_parsed(
                tuples_view(v@),
                spec_tuples(t@, axes, p as int, (n - i) as nat),
            ),
        decreases n - i,
    {
        let (x, e) = match tuple_item_exec(t, axes, p) {
            Some(r) => r,
            None => return None,
        };
        let ghost old_v = tuples_view(v@);
        let ghost tail = spec_tuples(t@, axes, e as int, (n - i - 1) as nat);
        assert(spec_tuples(t@, axes, p as int, (n - i) as nat) == prepend_parsed(seq![x@], tail));
        v.push(x);
        assert(tuples_view(v@) =~= old_v + seq![x@]);
        proof {
            if let Some((rest, _)) = tail {
                assert(old_v + (seq![x@] + rest) =~= (old_v + seq![x@]) + rest);
            }
        }
        i = i + 1;
        p = e;
    }
    assert(tuples_view(v@) + Seq::<SpecTupleRecord>::empty() =~= tuples_view(v@));
    Some((v, p))
}

/// The tuple index word of a header: whether a peak tuple is embedded,
/// whether the header has an intermediate region, whether the data has its
/// own point numbers (bits 15, 14, 13), and an index into the shared tuples
/// (bits 11 to 0). Bit 12 is reserved and ignored.
#[derive(Clone, Copy, Debug, PartialEq, Eq)]
pub struct TupleIndex {
    pub embedded_peak_tuple: bool,
    pub intermediate_region: bool,
    pub private_point_numbers: bool,
    pub tuple_index: u16,
}

/// The tuple index word `raw`, split into its fields.
pub open spec fn spec_tuple_index(raw: u16) -> TupleIndex {
    TupleIndex {
        embedded_peak_tuple: raw >= 0x8000,
        intermediate_region: (raw / 0x4000) % 2 == 1,
        private_point_numbers: (raw / 0x2000) % 2 == 1,
        tuple_index: raw % 0x1000,
    }
}

/// A tuple variation header: the size of its serialized data, its tuple
/// index, and the tuples it embeds.
#[derive(Clone, Debug, PartialEq, Eq)]
pub struct TupleVariationHeader {
    pub variation_data_size: u16,
    pub tuple_index: TupleIndex,
    pub peak_tuple: Option<TupleRecord>,
    pub intermediate_tuples: Option<(TupleRecord, TupleRecord)>,
}

/// Mathematical form of `TupleVariationHeader`.
pub struct SpecTupleVariationHeader {
    pub variation_data_size: u16,
    pub tuple_index: TupleIndex,
    pub peak_tuple: Option<SpecTupleRecord>,
    pub intermediate_tuples: Option<(SpecTupleRecord, SpecTupleRecord)>,
}

impl View for TupleVariationHeader {
    type V = SpecTupleVariationHeader;

    open spec fn view(&self) -> SpecTupleVariationHeader {
        SpecTupleVariationHeader {
            variation_data_size: self.variation_data_size,
            tuple_index: self.tuple_index,
            peak_tuple: match &self.peak_tuple {
                Some(r) => Some(r@),
                None => None,
            },
            intermediate_tuples: match &self.intermediate_tuples {
                Some((a, b)) => Some((a@, b@)),
                None => None,
            },
        }
    }
}

/// The header at `q` for `axes` axes: the data size, the tuple index, then
/// a peak tuple where embedded and a start and an end tuple where the
/// header has an intermediate region.
pub open spec fn header_item(t: Seq<u8>, axes: u16, q: int) -> Option<(SpecTupleVariationHeader, int)> {
    if !avail(t, q, 4) {
        None
    } else {
        let ti = spec_tuple_index(u16_at(t, q + 2));
        let peak = if ti.embedded_peak_tuple {
            match tuple_item(t, axes, q + 4) {
                Some((r, e)) => Some((Some(r), e)),
                None => None,
            }
        } else {
            Some((None, q + 4))
        };
        match peak {
            None => None,
            Some((pk, p1)) => {
                let inter = if ti.intermediate_region {
                    match tuple_item(t, axes, p1) {
                        None => None,
                        Some((a, p2)) => match tuple_item(t, axes, p2) {
                            None => None,
                            Some((b, p3)) => Some((Some((a, b)), p3)),
                        },
                    }
                } else {
                    Some((None, p1))
                };
                match inter {
                    None => None,
                    Some((it, e)) => Some((SpecTupleVariationHeader {
                        variation_data_size: u16_at(t, q),
                        tuple_index: ti,
                        peak_tuple: pk,
                        intermediate_tuples: it,
                    }, e)),
                }
            },
        }
    }
}

fn header_item_exec(t: &[u8], axes: u16, q: usize) -> (r: Option<(TupleVariationHeader, usize)>)
    ensures
        match r {
            Some((v, e)) => header_item(t@, axes, q as int) == Some((v@, e as int)),
            None => header_item(t@, axes, q as int) is None,
        },
{
    if !has_bytes(t, q, 4) {
        return None;
    }
    let raw = get_u16be(t, q + 2);
    let ti = TupleIndex {
        embedded_peak_tuple: raw >= 0x8000,
        intermediate_region: (raw / 0x4000) % 2 == 1,
        private_point_numbers: (raw / 0x2000) % 2 == 1,
        tuple_index: raw % 0x1000,
    };
    let (pk, p1) = if ti.embedded_peak_tuple {
        match tuple_item_exec(t, axes, q + 4) {
            Some((r, e)) => (Some(r), e),
            None => return None,
        }
    } else {
        (None, q + 4)
    };
    let (it, e) = if ti.intermediate_region {
        let (a, p2) = match tuple_item_exec(t, axes, p1) {
            Some(x) => x,
            None => return None,
        };
        let (b, p3) = match tuple_item_exec(t, axes, p2) {
            Some(x) => x,
            None => return None,
        };
        (Some((a, b)), p3)
    } else {
        (None, p1)
    };
    Some(
        (
            TupleVariationHeader {
                variation_data_size: get_u16be(t, q),
                tuple_index: ti,
                peak_tuple: pk,
                intermediate_tuples: it,
            },
            e,
        ),
    )
}

/// The views of a sequence of headers.
pub open spec fn headers_view(v: Seq<TupleVariationHeader>) -> Seq<SpecTupleVariationHeader> {
    v.map_values(|r: TupleVariationHeader| r@)
}

/// `n` tuple variation headers one after the other from `q`.
pub open spec fn spec_headers(t: Seq<u8>, axes: u16, q: int, n: nat) -> Option<(Seq<SpecTupleVariationHeader>, int)>
    decreases n,
{
    if n == 0 {
        Some((Seq::empty(), q))
    } else {
        match header_item(t, axes, q) {
            None => None,
            Some((x, e)) => match spec_headers(t, axes, e, (n - 1) as nat) {
                None => None,
                Some((rest, e2)) => Some((seq![x] + rest, e2)),
            },
        }
    }
}

fn headers(t: &[u8], axes: u16, q: usize, n: u16) -> (r: Option<(Vec<TupleVariationHeader>, usize)>)
    ensures
        match r {
            Some((v, e)) => spec_headers(t@, axes, q as int, n as nat) == Some((headers_view(v@), e as int)),
            None => spec_headers(t@, axes, q as int, n as nat) is None,
        },
{
    let mut v: Vec<TupleVariationHeader> = Vec::new();
    let mut i: u16 = 0;
    let mut p: usize = q;
    proof {
        if let Some((rest, _)) = spec_headers(t@, axes, q as int, n as nat) {
            assert(headers_view(v@) + rest =~= rest);
        }
    }
    while i < n
        invariant
            0 <= i <= n,
            spec_headers(t@, axes, q as int, n as nat) == prepend_parsed(
                headers_view(v@),
                spec_headers(t@, axes, p as int, (n - i) as nat),
            ),
        decreases n - i,
    {
        let (x, e) = match header_item_exec(t, axes, p) {
            Some(r) => r,
            None => return None,
        };
        let ghost old_v = headers_view(v@);
        let ghost tail = spec_headers(t@, axes, e as int, (n - i - 1) as nat);
        assert(spec_headers(t@, axes, p as int, (n - i) as nat) == prepend_parsed(seq![x@], tail));
        v.push(x);
        assert(headers_view(v@) =~= old_v + seq![x@]);
        proof {
            if let Some((rest, _)) = tail {
                assert(old_v + (seq![x@] + rest) =~= (old_v + seq![x@]) + rest);
            }
        }
        i = i + 1;
        p = e;
    }
    assert(headers_view(v@) + Seq::<SpecTupleVariationHeader>::empty() =~= headers_view(v@));
    Some((v, p))
}

/// The data of one tuple variation: its own point numbers, where its header
/// says so, and the packed x and y deltas (two per point).
#[derive(Clone, Debug, PartialEq, Eq)]
pub struct TupleVariationData {
    pub private_point_numbers: Option<PackedPoints>,
    pub x_and_y_coordinate_deltas: Vec<DeltaRun>,
}

/// Mathematical form of `TupleVariationData`.
pub struct SpecTupleVariationData {
    pub private_point_numbers: Option<SpecPackedPoints>,
    pub x_and_y_coordinate_deltas: Seq<SpecDeltaRun>,
}

impl View for TupleVariationData {
    type V = SpecTupleVariationData;

    open spec fn view(&self) -> SpecTupleVariationData {
        SpecTupleVariationData {
            private_point_numbers: match &self.private_point_numbers {
                Some(p) => Some(p@),
                None => None,
            },
            x_and_y_coordinate_deltas: delta_runs_view(self.x_and_y_coordinate_deltas@),
        }
    }
}

/// The data of the tuple variation with header `h`, in the
/// `variation_data_size` bytes at `q`: its private point numbers where the
/// header says so, then deltas for twice the point count, which is that of
/// the private numbers or else of the shared ones (`shared`); without
/// either, or with a doubled count past `0xffff`, it fails. The next data
/// starts right after those bytes.
pub open spec fn spec_tuple_data(t: Seq<u8>, q: int, h: SpecTupleVariationHeader, shared: Option<u16>) -> Option<
    (SpecTupleVariationData, int),
> {
    let size = h.variation_data_size as int;
    if !avail(t, q, size) {
        None
    } else {
        let u = t.subrange(0, q + size);
        let pp = if h.tuple_index.private_point_numbers {
            match spec_packed_points(u, q) {
                Some((p, e)) => Some((Some(p), e)),
                None => None,
            }
        } else {
            Some((None, q))
        };
        match pp {
            None => None,
            Some((private, e)) => {
                let count = match private {
                    Some(p) => Some(p.point_count),
                    None => shared,
                };
                match count {
                    None => None,
                    Some(c) => if 2 * c > 0xffff {
                        None
                    } else {
                        match spec_delta_runs(u, e, 0, 2 * c) {
                            Some((d, _)) => Some((SpecTupleVariationData {
                                private_point_numbers: private,
                                x_and_y_coordinate_deltas: d,
                            }, q + size)),
                            None => None,
                        }
                    },
                }
            },
        }
    }
}

fn tuple_data(t: &[u8], q: usize, h: &TupleVariationHeader, shared: Option<u16>) -> (r: Option<
    (TupleVariationData, usize),
>)
    ensures
        match r {
            Some((v, e)) => spec_tuple_data(t@, q as int, h@, shared) == Some((v@, e as int)),
            None => spec_tuple_data(t@, q as int, h@, shared) is None,
        },
{
    let size = h.variation_data_size as usize;
    if !has_bytes(t, q, size) {
        return None;
    }
    let u = slice_subrange(t, 0, q + size);
    assert(u@ =~= t@.subrange(0, q + size));
    let (private, e) = if h.tuple_index.private_point_numbers {
        match packed_points(u, q) {
            Some((p, e)) => (Some(p), e),
            None => return None,
        }
    } else {
        (None, q)
    };
    let count = match &private {
        Some(p) => p.point_count,
        None => match shared {
            Some(c) => c,
            None => return None,
        },
    };
    if count > 0x7fff {
        return None;
    }
    match packed_deltas(u, e, 2 * count) {
        Some((d, _)) => Some((TupleVariationData { private_point_numbers: private, x_and_y_coordinate_deltas: d }, q + size)),
        None => None,
    }
}

/// The data of the tuple variations with headers `hs`, one after the other
/// from `q`.
pub open spec fn spec_tuple_datas(t: Seq<u8>, q: int, hs: Seq<SpecTupleVariationHeader>, shared: Option<u16>) -> Option<
    (Seq<SpecTupleVariationData>, int),
>
    decreases hs.len(),
{
    if hs.len() == 0 {
        Some((Seq::empty(), q))
    } else {
        match spec_tuple_data(t, q, hs[0], shared) {
            None => None,
            Some((d, e)) => match spec_tuple_datas(t, e, hs.drop_first(), shared) {
                None => None,
                Some((rest, e2)) => Some((seq![d] + rest, e2)),
            },
        }
    }
}

/// The views of a sequence of tuple variation data.
pub open spec fn tuple_datas_view(v: Seq<TupleVariationData>) -> Seq<SpecTupleVariationData> {
    v.map_values(|r: TupleVariationData| r@)
}

fn tuple_datas(t: &[u8], q: usize, hs: &Vec<TupleVariationHeader>, shared: Option<u16>) -> (r: Option<
    (Vec<TupleVariationData>, usize),
>)
    ensures
        match r {
            Some((v, e)) => spec_tuple_datas(t@, q as int, headers_view(hs@), shared) == Some(
                (tuple_datas_view(v@), e as int),
            ),
            None => spec_tuple_datas(t@, q as int, headers_view(hs@), shared) is None,
        },
{
    let ghost all = headers_view(hs@);
    let mut v: Vec<TupleVariationData> = Vec::new();
    let mut p: usize = q;
    let mut i: usize = 0;
    assert(all.skip(0) =~= all);
    proof {
        if let Some((rest, _)) = spec_tuple_datas(t@, q as int, all, shared) {
            assert(tuple_datas_view(v@) + rest =~= rest);
        }
    }
    while i < hs.len()
        invariant
            0 <= i <= hs@.len(),
            all == headers_view(hs@),
            spec_tuple_datas(t@, q as int, all, shared) == prepend_parsed(
                tuple_datas_view(v@),
                spec_tuple_datas(t@, p as int, all.skip(i as int), shared),
            ),
        decreases hs@.len() - i,
    {
        let (d, e) = match tuple_data(t, p, &hs[i], shared) {
            Some(x) => x,
            None => {
                assert(all.skip(i as int)[0] == hs@[i as int]@);
                return None;
            },
        };
        assert(all.skip(i as int)[0] == hs@[i as int]@);
        assert(all.skip(i as int).drop_first() =~= all.skip(i + 1));
        let ghost old_v = tuple_datas_view(v@);
        let ghost tail = spec_tuple_datas(t@, e as int, all.skip(i + 1), shared);
        assert(spec_tuple_datas(t@, p as int, all.skip(i as int), shared) == prepend_parsed(seq![d@], tail));
        v.push(d);
        assert(tuple_datas_view(v@) =~= old_v + seq![d@]);
        proof {
            if let Some((rest, _)) = tail {
                assert(old_v + (seq![d@] + rest) =~= (old_v + seq![d@]) + rest);
            }
        }
        i = i + 1;
        p = e;
    }
    assert(all.skip(i as int).len() == 0);
    assert(tuple_datas_view(v@) + Seq::<SpecTupleVariationData>::empty() =~= tuple_datas_view(v@));
    Some((v, p))
}

/// The serialized data of a glyph: the shared point numbers, where the
/// glyph has them, and the data of each tuple variation.
#[derive(Clone, Debug, PartialEq, Eq)]
pub struct SerializedData {
    pub shared_point_numbers: Option<PackedPoints>,
    pub per_tuple_variation_data: Vec<TupleVariationData>,
}

/// Mathematical form of `SerializedData`.
pub struct SpecSerializedData {
    pub shared_point_numbers: Option<SpecPackedPoints>,
    pub per_tuple_variation_data: Seq<SpecTupleVariationData>,
}

impl View for SerializedData {
    type V = SpecSerializedData;

    open spec fn view(&self) -> SpecSerializedData {
        SpecSerializedData {
            shared_point_numbers: match &self.shared_point_numbers {
                Some(p) => Some(p@),
                None => None,
            },
            per_tuple_variation_data: tuple_datas_view(self.per_tuple_variation_data@),
        }
    }
}

/// The serialized data at `d`: shared point numbers where `shared` is set,
/// then the data of the tuple variations with headers `hs`.
pub open spec fn spec_serialized(t: Seq<u8>, d: int, shared: bool, hs: Seq<SpecTupleVariationHeader>) -> Option<
    SpecSerializedData,
> {
    let sp = if shared {
        match spec_packed_points(t, d) {
            Some((p, e)) => Some((Some(p), e)),
            None => None,
        }
    } else {
        Some((None, d))
    };
    match sp {
        None => None,
        Some((sp, e)) => {
            let count = match sp {
                Some(p) => Some(p.point_count),
                None => None,
            };
            match spec_tuple_datas(t, e, hs, count) {
                Some((datas, _)) => Some(SpecSerializedData { shared_point_numbers: sp, per_tuple_variation_data: datas }),
                None => None,
            }
        },
    }
}

fn serialized(t: &[u8], d: usize, shared: bool, hs: &Vec<TupleVariationHeader>) -> (r: Option<SerializedData>)
    ensures
        match r {
            Some(v) => spec_serialized(t@, d as int, shared, headers_view(hs@)) == Some(v@),
            None => spec_serialized(t@, d as int, shared, headers_view(hs@)) is None,
        },
{
    let (sp, e) = if shared {
        match packed_points(t, d) {
            Some((p, e)) => (Some(p), e),
            None => return None,
        }
    } else {
        (None, d)
    };
    let count = match &sp {
        Some(p) => Some(p.point_count),
        None => None,
    };
    match tuple_datas(t, e, hs, count) {
        Some((datas, _)) => Some(SerializedData { shared_point_numbers: sp, per_tuple_variation_data: datas }),
        None => None,
    }
}

/// The variation data of one glyph.
#[derive(Clone, Debug, PartialEq, Eq)]
pub struct GlyphVariationData {
    pub shared_point_numbers: bool,
    pub tuple_count: u16,
    pub data_offset: u16,
    pub tuple_variation_headers: Vec<TupleVariationHeader>,
    pub data: SerializedData,
}

/// Mathematical form of `GlyphVariationData`.
pub struct SpecGlyphVariationData {
    pub shared_point_numbers: bool,
    pub tuple_count: u16,
    pub data_offset: u16,
    pub tuple_variation_headers: Seq<SpecTupleVariationHeader>,
    pub data: SpecSerializedData,
}

impl View for GlyphVariationData {
    type V = SpecGlyphVariationData;

    open spec fn view(&self) -> SpecGlyphVariationData {
        SpecGlyphVariationData {
            shared_point_numbers: self.shared_point_numbers,
            tuple_count: self.tuple_count,
            data_offset: self.data_offset,
            tuple_variation_headers: headers_view(self.tuple_variation_headers@),
            data: self.data@,
        }
    }
}

/// The variation data of a glyph at `g`, for `axes` axes: a count word
/// (bit 15: shared point numbers; bits 11 to 0: the tuple count), a
/// non-zero offset from `g` to the serialized data, the tuple variation
/// headers, then the serialized data, which may not begin before the
/// headers end nor after the end of `t`.
#[verifier::opaque]
pub open spec fn spec_glyph_variation_data(t: Seq<u8>, axes: u16, g: int) -> Option<SpecGlyphVariationData> {
    if !avail(t, g, 4) || u16_at(t, g + 2) == 0 {
        None
    } else {
        let raw = u16_at(t, g);
        let shared = raw >= 0x8000;
        let count = (raw % 0x1000) as u16;
        let off = u16_at(t, g + 2);
        match spec_headers(t, axes, g + 4, count as nat) {
            None => None,
            Some((hs, here)) => {
                let d = g + off;
                if d < here || d > t.len() {
                    None
                } else {
                    match spec_serialized(t, d, shared, hs) {
                        None => None,
                        Some(data) => Some(SpecGlyphVariationData {
                            shared_point_numbers: shared,
                            tuple_count: count,
                            data_offset: off,
                            tuple_variation_headers: hs,
                            data,
                        }),
                    }
                }
            },
        }
    }
}

/// Parses the variation data of a glyph at `g`.
pub fn glyph_variation_data(t: &[u8], axes: u16, g: usize) -> (r: Option<GlyphVariationData>)
    ensures
        match r {
            Some(v) => spec_glyph_variation_data(t@, axes, g as int) == Some(v@),
            None => spec_glyph_variation_data(t@, axes, g as int) is None,
        },
{
    reveal(spec_glyph_variation_data);
    if !has_bytes(t, g, 4) || get_u16be(t, g + 2) == 0 {
        return None;
    }
    let raw = get_u16be(t, g);
    let shared = raw >= 0x8000;
    let count = raw % 0x1000;
    let off = get_u16be(t, g + 2);
    let (hs, here) = match headers(t, axes, g + 4, count) {
        Some(x) => x,
        None => return None,
    };
    if (off as usize) > t.len() - g {
        return None;
    }
    let d = g + (off as usize);
    if d < here {
        return None;
    }
    match serialized(t, d, shared, &hs) {
        None => None,
        Some(data) => Some(
            GlyphVariationData {
                shared_point_numbers: shared,
                tuple_count: count,
                data_offset: off,
                tuple_variation_headers: hs,
                data,
            },
        ),
    }
}

/// The variation data of the glyph whose data lies at `this..next` of the
/// array at `a`: none when the range is empty; otherwise it must lie
/// within `t` and parse, within its range.
pub open spec fn spec_gvar_entry(t: Seq<u8>, axes: u16, a: int, this: int, next: int) -> Option<
    Option<SpecGlyphVariationData>,
> {
    if next > this {
        if a + next <= t.len() {
            match spec_glyph_variation_data(t.subrange(0, a + next), axes, a + this) {
                Some(d) => Some(Some(d)),
                None => None,
            }
        } else {
            None
        }
    } else {
        Some(None)
    }
}

fn gvar_entry(t: &[u8], axes: u16, a: usize, this: u32, next: u32) -> (r: Option<Option<GlyphVariationData>>)
    requires
        a <= t@.len(),
    ensures
        match r {
            Some(Some(d)) => spec_gvar_entry(t@, axes, a as int, this as int, next as int) == Some(Some(d@)),
            Some(None) => spec_gvar_entry(t@, axes, a as int, this as int, next as int) == Some(
                None::<SpecGlyphVariationData>,
            ),
            None => spec_gvar_entry(t@, axes, a as int, this as int, next as int) is None,
        },
{
    if next > this {
        if (next as usize) > t.len() - a {
            return None;
        }
        let u = slice_subrange(t, 0, a + next as usize);
        assert(u@ =~= t@.subrange(0, a + next));
        match glyph_variation_data(u, axes, a + this as usize) {
            Some(d) => Some(Some(d)),
            None => None,
        }
    } else {
        Some(None)
    }
}

/// The view of an optional glyph variation data.
pub open spec fn opt_gvd_view(d: Option<GlyphVariationData>) -> Option<SpecGlyphVariationData> {
    match d {
        Some(x) => Some(x@),
        None => None,
    }
}

/// The views of a sequence of optional glyph variation data.
pub open spec fn gvar_entries_view(v: Seq<Option<GlyphVariationData>>) -> Seq<
    Option<SpecGlyphVariationData>,
> {
    v.map_values(|d: Option<GlyphVariationData>| opt_gvd_view(d))
}

/// The variation data of each glyph, from the array at `a` and the
/// consecutive pairs of the offsets (short offsets doubled).
pub open spec fn spec_gvar_array(t: Seq<u8>, axes: u16, a: int, offsets: SpecLocaOffsets) -> Option<
    Seq<Option<SpecGlyphVariationData>>,
> {
    match spec_for_each_pair(byte_offsets(offsets)) {
        None => None,
        Some(pairs) => if forall|i: int|
            0 <= i < pairs.len() ==> #[trigger] spec_gvar_entry(t, axes, a, pairs[i].0, pairs[i].1) is Some {
            Some(Seq::new(pairs.len(), |i: int| spec_gvar_entry(t, axes, a, pairs[i].0, pairs[i].1).unwrap()))
        } else {
            None
        },
    }
}

fn gvar_array(t: &[u8], axes: u16, a: usize, offsets: &LocaOffsets) -> (r: Option<Vec<Option<GlyphVariationData>>>)
    requires
        a <= t@.len(),
    ensures
        match r {
            Some(v) => spec_gvar_array(t@, axes, a as int, offsets@) == Some(gvar_entries_view(v@)),
            None => spec_gvar_array(t@, axes, a as int, offsets@) is None,
        },
{
    let pairs = match for_each_pair(offsets) {
        Some(p) => p,
        None => return None,
    };
    let ghost ps = pairs_view(pairs@);
    let mut v: Vec<Option<GlyphVariationData>> = Vec::new();
    let mut i: usize = 0;
    while i < pairs.len()
        invariant
            0 <= i <= pairs@.len(),
            a <= t@.len(),
            ps == pairs_view(pairs@),
            spec_for_each_pair(byte_offsets(offsets@)) == Some(ps),
            forall|j: int| 0 <= j < i ==> #[trigger] spec_gvar_entry(t@, axes, a as int, ps[j].0, ps[j].1) is Some,
            gvar_entries_view(v@) =~= Seq::new(i as nat, |j: int| spec_gvar_entry(t@, axes, a as int, ps[j].0, ps[j].1).unwrap()),
        decreases pairs@.len() - i,
    {
        let (this, next) = pairs[i];
        assert(ps[i as int] == (this as int, next as int));
        let e = match gvar_entry(t, axes, a, this, next) {
            Some(e) => e,
            None => {
                assert(spec_gvar_entry(t@, axes, a as int, ps[i as int].0, ps[i as int].1) is None);
                return None;
            },
        };
        let ghost old_v = gvar_entries_view(v@);
        v.push(e);
        assert(gvar_entries_view(v@) =~= old_v.push(opt_gvd_view(e)));
        i = i + 1;
        assert(gvar_entries_view(v@) =~= Seq::new(i as nat, |j: int| spec_gvar_entry(t@, axes, a as int, ps[j].0, ps[j].1).unwrap()));
    }
    Some(v)
}

/// The tuples shared by the glyphs.
#[derive(Clone, Debug, PartialEq, Eq)]
pub struct SharedTuples {
    pub tuples: Vec<TupleRecord>,
}

/// Mathematical form of `SharedTuples`.
pub struct SpecSharedTuples {
    pub tuples: Seq<SpecTupleRecord>,
}

impl View for SharedTuples {
    type V = SpecSharedTuples;

    open spec fn view(&self) -> SpecSharedTuples {
        SpecSharedTuples { tuples: tuples_view(self.tuples@) }
    }
}

/// The `gvar` table.
#[derive(Clone, Debug, PartialEq, Eq)]
pub struct GvarTable {
    pub major_version: u16,
    pub minor_version: u16,
    pub axis_count: u16,
    pub shared_tuple_count: u16,
    pub shared_tuples_offset: Link32<SharedTuples>,
    pub glyph_count: u16,
    pub is_long_offset: bool,
    pub glyph_variation_data_array_offset: u32,
    pub glyph_variation_data_offsets: LocaOffsets,
    pub glyph_variation_data_array: Vec<Option<GlyphVariationData>>,
}

/// Mathematical form of `GvarTable`.
pub struct SpecGvarTable {
    pub major_version: u16,
    pub minor_version: u16,
    pub axis_count: u16,
    pub shared_tuple_count: u16,
    pub shared_tuples_offset: Link32<SpecSharedTuples>,
    pub glyph_count: u16,
    pub is_long_offset: bool,
    pub glyph_variation_data_array_offset: u32,
    pub glyph_variation_data_offsets: SpecLocaOffsets,
    pub glyph_variation_data_array: Seq<Option<SpecGlyphVariationData>>,
}

impl View for GvarTable {
    type V = SpecGvarTable;

    open spec fn view(&self) -> SpecGvarTable {
        SpecGvarTable {
            major_version: self.major_version,
            minor_version: self.minor_version,
            axis_count: self.axis_count,
            shared_tuple_count: self.shared_tuple_count,
            shared_tuples_offset: self.shared_tuples_offset@,
            glyph_count: self.glyph_count,
            is_long_offset: self.is_long_offset,
            glyph_variation_data_array_offset: self.glyph_variation_data_array_offset,
            glyph_variation_data_offsets: self.glyph_variation_data_offsets@,
            glyph_variation_data_array: gvar_entries_view(self.glyph_variation_data_array@),
        }
    }
}

/// The shared-tuples offset at 8 of the table, with the tuples.
pub open spec fn spec_shared_tuples_link(t: Seq<u8>, axes: u16, count: u16) -> Option<Link32<SpecSharedTuples>> {
    match spec_offset32(t, 0, 8) {
        None => None,
        Some(((off, None), _)) => Some(Link32 { offset: off, link: None }),
        Some(((off, Some(x)), _)) => match spec_tuples(t, axes, x, count as nat) {
            Some((v, _)) => Some(Link32 { offset: off, link: Some(SpecSharedTuples { tuples: v }) }),
            None => None,
        },
    }
}

/// The `glyph_count + 1` data offsets at 20: 32-bit where long, else
/// 16-bit half-values; and the position after them.
pub open spec fn spec_gvar_offsets(t: Seq<u8>, glyph_count: u16, long: bool) -> Option<(SpecLocaOffsets, int)> {
    let n = glyph_count + 1;
    if glyph_count == 0xffff {
        None
    } else if long {
        if avail(t, 20, 4 * n) {
            Some((SpecLocaOffsets::Offsets32(Seq::new(n as nat, |i: int| u32_at(t, 20 + 4 * i))), 20 + 4 * n))
        } else {
            None
        }
    } else {
        if avail(t, 20, 2 * n) {
            Some((SpecLocaOffsets::Offsets16(u16s_at(t, 20, n)), 20 + 2 * n))
        } else {
            None
        }
    }
}

/// The `gvar` table held in `t`: version 1.0, the axis count, the shared
/// tuples (a count and a 32-bit offset), the glyph count, the flags (bit
/// 0: long offsets), the 32-bit offset of the data array, one more data
/// offset than there are glyphs, and the variation data of each glyph. The
/// data array may not begin before the offsets end.
#[verifier::opaque]
pub open spec fn spec_gvar_table(t: Seq<u8>) -> Option<(SpecGvarTable, int)> {
    if !avail(t, 0, 20) || u16_at(t, 0) != 1 || u16_at(t, 2) != 0 {
        None
    } else {
        let axes = u16_at(t, 4);
        let stc = u16_at(t, 6);
        let gc = u16_at(t, 12);
        let long = u16_at(t, 14) % 2 == 1;
        let aoff = u32_at(t, 16);
        match (spec_shared_tuples_link(t, axes, stc), spec_gvar_offsets(t, gc, long)) {
            (Some(st), Some((offs, here))) => if !(here <= aoff <= t.len()) {
                None
            } else {
                match spec_gvar_array(t, axes, aoff as int, offs) {
                    None => None,
                    Some(arr) => Some((SpecGvarTable {
                        major_version: 1,
                        minor_version: 0,
                        axis_count: axes,
                        shared_tuple_count: stc,
                        shared_tuples_offset: st,
                        glyph_count: gc,
                        is_long_offset: long,
                        glyph_variation_data_array_offset: aoff,
                        glyph_variation_data_offsets: offs,
                        glyph_variation_data_array: arr,
                    }, here)),
                }
            },
            _ => None,
        }
    }
}

fn shared_tuples_link(t: &[u8], axes: u16, count: u16) -> (r: Option<Link32<SharedTuples>>)
    ensures
        match r {
            Some(l) => spec_shared_tuples_link(t@, axes, count) == Some(l@),
            None => spec_shared_tuples_link(t@, axes, count) is None,
        },
{
    let (off, target, _) = match offset32(t, 0, 8) {
        Some(o) => o,
        None => return None,
    };
    match target {
        None => Some(Link32 { offset: off, link: None }),
        Some(x) => match tuples(t, axes, x, count) {
            Some((v, _)) => Some(Link32 { offset: off, link: Some(SharedTuples { tuples: v }) }),
            None => None,
        },
    }
}

fn gvar_offsets(t: &[u8], glyph_count: u16, long: bool) -> (r: Option<(LocaOffsets, usize)>)
    ensures
        match r {
            Some((o, e)) => spec_gvar_offsets(t@, glyph_count, long) == Some((o@, e as int)),
            None => spec_gvar_offsets(t@, glyph_count, long) is None,
        },
{
    if glyph_count == 0xffff {
        return None;
    }
    let n = (glyph_count as usize) + 1;
    if long {
        if !has_bytes(t, 20, 4 * n) {
            return None;
        }
        let mut v: Vec<u32> = Vec::new();
        let mut i: usize = 0;
        while i < n
            invariant
                0 <= i <= n,
                avail(t@, 20, 4 * n),
                t@.len() <= usize::MAX,
                v@ =~= Seq::new(i as nat, |j: int| u32_at(t@, 20 + 4 * j)),
            decreases n - i,
        {
            v.push(get_u32be(t, 20 + 4 * i));
            i = i + 1;
            assert(v@ =~= Seq::new(i as nat, |j: int| u32_at(t@, 20 + 4 * j)));
        }
        Some((LocaOffsets::Offsets32(v), 20 + 4 * n))
    } else {
        if !has_bytes(t, 20, 2 * n) {
            return None;
        }
        Some((LocaOffsets::Offsets16(read_u16s(t, 20, n)), 20 + 2 * n))
    }
}

/// The number of glyph variation data offsets that a list holds.
pub open spec fn gvar_offsets_len(offsets: SpecLocaOffsets) -> int {
    match offsets {
        SpecLocaOffsets::Offsets16(v) => v.len() as int,
        SpecLocaOffsets::Offsets32(v) => v.len() as int,
    }
}

/// A `gvar` table has variation data for each glyph that it counts: one
/// more offset than glyphs, one entry per glyph, and an entry is present
/// exactly where the glyph's data is not empty (its next offset lies above
/// its own).
pub proof fn lemma_gvar_per_glyph(t: Seq<u8>)
    requires
        spec_gvar_table(t) is Some,
    ensures
        ({
            let g = spec_gvar_table(t).unwrap().0;
            let offs = byte_offsets(g.glyph_variation_data_offsets);
            &&& gvar_offsets_len(g.glyph_variation_data_offsets) == g.glyph_count + 1
            &&& g.glyph_variation_data_array.len() == g.glyph_count
            &&& forall|i: int|
                0 <= i < g.glyph_count ==> (#[trigger] g.glyph_variation_data_array[i] is Some <==> offs[i] < offs[i + 1])
        }),
{
    reveal(spec_gvar_table);
    let g = spec_gvar_table(t).unwrap().0;
    let offs = byte_offsets(g.glyph_variation_data_offsets);
    let gc = u16_at(t, 12);
    let long = u16_at(t, 14) % 2 == 1;
    let (offsets, _) = spec_gvar_offsets(t, gc, long).unwrap();
    assert(g.glyph_variation_data_offsets == offsets && g.glyph_count == gc);
    match offsets {
        SpecLocaOffsets::Offsets16(v) => assert(v.len() == gc + 1),
        SpecLocaOffsets::Offsets32(v) => assert(v.len() == gc + 1),
    }
    assert(offs.len() == g.glyph_count + 1);
    let pairs = spec_for_each_pair(offs).unwrap();
    assert(pairs.len() == g.glyph_count);
    assert forall|i: int| 0 <= i < g.glyph_count implies (#[trigger] g.glyph_variation_data_array[i] is Some
        <==> offs[i] < offs[i + 1]) by {
        assert(pairs[i] == (offs[i], offs[i + 1]));
    }
}

/// Parses the `gvar` table held in `t`.
pub fn gvar_table(t: &[u8]) -> (r: Option<(GvarTable, usize)>)
    ensures
        match r {
            Some((g, e)) => spec_gvar_table(t@) == Some((g@, e as int)),
            None => spec_gvar_table(t@) is None,
        },
{
    reveal(spec_gvar_table);
    if !has_bytes(t, 0, 20) || get_u16be(t, 0) != 1 || get_u16be(t, 2) != 0 {
        return None;
    }
    let axes = get_u16be(t, 4);
    let stc = get_u16be(t, 6);
    let gc = get_u16be(t, 12);
    let long = get_u16be(t, 14) % 2 == 1;
    let aoff = get_u32be(t, 16);
    let st = match shared_tuples_link(t, axes, stc) {
        Some(l) => l,
        None => return None,
    };
    let (offs, here) = match gvar_offsets(t, gc, long) {
        Some(x) => x,
        None => return None,
    };
    let a = match linked_offset32(0, aoff, here, t.len()) {
        Some(a) => a,
        None => return None,
    };
    let arr = match gvar_array(t, axes, a, &offs) {
        Some(v) => v,
        None => return None,
    };
    Some(
        (
            GvarTable {
                major_version: 1,
                minor_version: 0,
                axis_count: axes,
                shared_tuple_count: stc,
                shared_tuples_offset: st,
                glyph_count: gc,
                is_long_offset: long,
                glyph_variation_data_array_offset: aoff,
                glyph_variation_data_offsets: offs,
                glyph_variation_data_array: arr,
            },
            here,
        ),
    )
}


/// A tuple index word carries the embedded peak flag in bit 15, the
/// intermediate region flag in bit 14, the private point numbers flag in
/// bit 13 and the shared tuple index in its low twelve bits.
pub proof fn lemma_tuple_index_bits(raw: u16)
    ensures
        spec_tuple_index(raw).embedded_peak_tuple == (raw & 0x8000 != 0),
        spec_tuple_index(raw).intermediate_region == (raw & 0x4000 != 0),
        spec_tuple_index(raw).private_point_numbers == (raw & 0x2000 != 0),
        spec_tuple_index(raw).tuple_index == raw & 0x0fff,
{
    assert({
        &&& (raw >= 0x8000) == (raw & 0x8000 != 0)
        &&& ((raw / 0x4000) % 2 == 1) == (raw & 0x4000 != 0)
        &&& ((raw / 0x2000) % 2 == 1) == (raw & 0x2000 != 0)
        &&& raw % 0x1000 == raw & 0x0fff
    }) by (bit_vector);
}

/// A tuple variation header at `q` holds the data size and tuple index
/// words at `q` and `q + 2`; an embedded peak tuple follows at `q + 4`, one
/// F2Dot14 word per axis, and an intermediate region follows the peak (or
/// the index) as two such tuples.
pub proof fn lemma_header_fields(t: Seq<u8>, axes: u16, q: int)
    ensures
        header_item(t, axes, q) matches Some((h, _)) ==> {
            &&& h.variation_data_size == crate::bytes::word_at(t, q)
            &&& h.tuple_index == spec_tuple_index(crate::bytes::word_at(t, q + 2) as u16)
            &&& (h.peak_tuple is Some <==> h.tuple_index.embedded_peak_tuple)
            &&& (h.intermediate_tuples is Some <==> h.tuple_index.intermediate_region)
            &&& (h.peak_tuple matches Some(pk) ==> pk.coordinates.len() == axes && forall|i: int|
                0 <= i < axes ==> #[trigger] pk.coordinates[i].0 == crate::bytes::word_at(t, q + 4 + 2 * i))
        },
{
    if let Some((h, _)) = header_item(t, axes, q) {
        crate::bytes::lemma_readers_spell(t, q);
        crate::bytes::lemma_readers_spell(t, q + 2);
        if let Some(pk) = h.peak_tuple {
            assert forall|i: int| 0 <= i < axes implies #[trigger] pk.coordinates[i].0 == crate::bytes::word_at(t, q + 4 + 2 * i) by {
                crate::bytes::lemma_readers_spell(t, q + 4 + 2 * i);
            }
        }
    }
}

/// Packed point numbers begin with their count: zero in one byte means all
/// points; a byte below 128 is the count itself; otherwise the count is the
/// low seven bits of that byte and the next byte, high byte first.
pub proof fn lemma_packed_points_count(t: Seq<u8>, p: int)
    ensures
        spec_packed_points(t, p) matches Some((pp, _)) ==> {
            &&& (t[p] == 0 ==> pp.point_count == 0 && pp.runs.len() == 0)
            &&& (0 < t[p] < 128 ==> pp.point_count == t[p])
            &&& (t[p] >= 128 ==> pp.point_count == (t[p] & 0x7f) * 256 + t[p + 1])
        },
{
    let b = t[p];
    assert(b % 128 == b & 0x7f) by (bit_vector);
}


/// A run of point numbers is announced by a control byte: bit 7 says the
/// numbers are words, the low seven bits are the run length less one; the
/// numbers follow the control byte. A run of deltas likewise: bit 7 says
/// the deltas are all zero (and not stored), bit 6 that they are signed
/// words, else signed bytes, and the low six bits are the run length less
/// one.
pub proof fn lemma_run_control(t: Seq<u8>, p: int)
    ensures
        spec_point_run(t, p) matches Some((r, _)) ==> {
            &&& r.points_are_words == (t[p] & 0x80 != 0)
            &&& r.point_run_count == t[p] & 0x7f
            &&& (r.points matches SpecRunPoints::Points16(v) ==> r.points_are_words && forall|i: int|
                0 <= i < v.len() ==> #[trigger] v[i] == crate::bytes::word_at(t, p + 1 + 2 * i))
            &&& (r.points matches SpecRunPoints::Points8(v) ==> !r.points_are_words && forall|i: int|
                0 <= i < v.len() ==> #[trigger] v[i] == t[p + 1 + i])
        },
        spec_delta_run(t, p) matches Some((r, _)) ==> {
            &&& r.deltas_are_zero == (t[p] & 0x80 != 0)
            &&& r.deltas_are_words == (t[p] & 0x40 != 0)
            &&& r.delta_run_count == t[p] & 0x3f
            &&& (r.deltas is Delta0 <==> r.deltas_are_zero)
            &&& (r.deltas matches SpecRunDeltas::Delta16(v) ==> r.deltas_are_words && forall|i: int|
                0 <= i < v.len() ==> #[trigger] v[i] == crate::bytes::signed_word_at(t, p + 1 + 2 * i))
            &&& (r.deltas matches SpecRunDeltas::Delta8(v) ==> !r.deltas_are_words && forall|i: int|
                0 <= i < v.len() ==> #[trigger] v[i] == crate::bytes::signed_byte(t[p + 1 + i]))
        },
{
    if 0 <= p < t.len() {
        let b = t[p];
        assert({
            &&& (b >= 128) == (b & 0x80 != 0)
            &&& b % 128 == b & 0x7f
            &&& ((b / 64) % 2 == 1) == (b & 0x40 != 0)
            &&& b % 64 == b & 0x3f
        }) by (bit_vector);
    }
    if let Some((r, _)) = spec_point_run(t, p) {
        if let SpecRunPoints::Points16(v) = r.points {
            assert forall|i: int| 0 <= i < v.len() implies #[trigger] v[i] == crate::bytes::word_at(t, p + 1 + 2 * i) by {
                crate::bytes::lemma_readers_spell(t, p + 1 + 2 * i);
            }
        }
    }
    if let Some((r, _)) = spec_delta_run(t, p) {
        if let SpecRunDeltas::Delta16(v) = r.deltas {
            assert forall|i: int| 0 <= i < v.len() implies #[trigger] v[i] == crate::bytes::signed_word_at(t, p + 1 + 2 * i) by {
                crate::bytes::lemma_readers_spell(t, p + 1 + 2 * i);
            }
        }
    }
}

/// A `gvar` header holds the axis count and shared tuple count words at 4
/// and 6, the shared tuples offset at 8, the glyph count and flags words at
/// 12 and 14 (bit 0: long offsets) and the data array offset at 16.
pub proof fn lemma_gvar_header_fields(t: Seq<u8>)
    ensures
        spec_gvar_table(t) matches Some((g, _)) ==> {
            &&& g.axis_count == crate::bytes::word_at(t, 4)
            &&& g.shared_tuple_count == crate::bytes::word_at(t, 6)
            &&& g.shared_tuples_offset.offset == crate::bytes::dword_at(t, 8)
            &&& g.glyph_count == crate::bytes::word_at(t, 12)
            &&& g.is_long_offset == (u16_at(t, 14) & 1 != 0)
            &&& g.glyph_variation_data_array_offset == crate::bytes::dword_at(t, 16)
        },
{
    reveal(spec_gvar_table);
    if let Some((g, _)) = spec_gvar_table(t) {
        crate::bytes::lemma_readers_spell(t, 4);
        crate::bytes::lemma_readers_spell(t, 6);
        crate::bytes::lemma_dword_spells(t, 8);
        crate::bytes::lemma_readers_spell(t, 12);
        crate::bytes::lemma_dword_spells(t, 16);
        let f = u16_at(t, 14);
        assert((f % 2 == 1) == (f & 1 != 0)) by (bit_vector);
    }
}

} // verus!
