//! Glyph locations (`loca`) and glyph outlines (`glyf`). Positions are
//! relative to the start of the table being read.
use vstd::prelude::*;
use vstd::slice::{slice_subrange, slice_to_vec};
use crate::bytes::{
    agrees, as_i16, as_i8, avail, get_u16be, get_u32be, get_u8, has_bytes, to_i16, to_i8, u16_at,
    u32_at,
};
use crate::opentype::values::{F2Dot14, last_elem, scale2, spec_u8_to_i16, u8_to_i16};

verus! {

/// The glyph offsets of a `loca` table: short (half-values) or long.
#[derive(Clone, Debug, PartialEq, Eq)]
pub enum LocaOffsets {
    Offsets16(Vec<u16>),
    Offsets32(Vec<u32>),
}

/// Mathematical form of `LocaOffsets`.
pub enum SpecLocaOffsets {
    Offsets16(Seq<u16>),
    Offsets32(Seq<u32>),
}

impl View for LocaOffsets {
    type V = SpecLocaOffsets;

    open spec fn view(&self) -> SpecLocaOffsets {
        match self {
            LocaOffsets::Offsets16(v) => SpecLocaOffsets::Offsets16(v@),
            LocaOffsets::Offsets32(v) => SpecLocaOffsets::Offsets32(v@),
        }
    }
}

/// The `loca` table.
#[derive(Clone, Debug, PartialEq, Eq)]
pub struct LocaTable {
    pub offsets: LocaOffsets,
}

impl View for LocaTable {
    type V = SpecLocaOffsets;

    open spec fn view(&self) -> SpecLocaOffsets {
        self.offsets@
    }
}

/// The `loca` table at the start of `t`: `num_glyphs + 1` offsets, as
/// `u16` half-values for location format 0 and as `u32` for format 1; any
/// other format fails.
pub open spec fn spec_loca_table(t: Seq<u8>, num_glyphs: u16, index_to_loc_format: u16) -> Option<
    (SpecLocaOffsets, int),
> {
    let n = num_glyphs + 1;
    if index_to_loc_format == 0 {
        if avail(t, 0, 2 * n) {
            Some((SpecLocaOffsets::Offsets16(Seq::new(n as nat, |i: int| u16_at(t, 2 * i))), 2 * n))
        } else {
            None
        }
    } else if index_to_loc_format == 1 {
        if avail(t, 0, 4 * n) {
            Some((SpecLocaOffsets::Offsets32(Seq::new(n as nat, |i: int| u32_at(t, 4 * i))), 4 * n))
        } else {
            None
        }
    } else {
        None
    }
}

/// Parses the `loca` table held in `t`.
pub fn loca_table(t: &[u8], num_glyphs: u16, index_to_loc_format: u16) -> (r: Option<
    (LocaTable, usize),
>)
    ensures
        agrees(r, spec_loca_table(t@, num_glyphs, index_to_loc_format)),
{
    let n = num_glyphs as usize + 1;
    if index_to_loc_format == 0 {
        if !has_bytes(t, 0, 2 * n) {
            return None;
        }
        let mut v: Vec<u16> = Vec::new();
        let mut i: usize = 0;
        while i < n
            invariant
                0 <= i <= n,
                n == num_glyphs + 1,
                avail(t@, 0, 2 * n),
                v@ =~= Seq::new(i as nat, |j: int| u16_at(t@, 2 * j)),
            decreases n - i,
        {
            v.push(get_u16be(t, 2 * i));
            i = i + 1;
            assert(v@ =~= Seq::new(i as nat, |j: int| u16_at(t@, 2 * j)));
        }
        Some((LocaTable { offsets: LocaOffsets::Offsets16(v) }, 2 * n))
    } else if index_to_loc_format == 1 {
        if !has_bytes(t, 0, 4 * n) {
            return None;
        }
        let mut v: Vec<u32> = Vec::new();
        let mut i: usize = 0;
        while i < n
            invariant
                0 <= i <= n,
                n == num_glyphs + 1,
                avail(t@, 0, 4 * n),
                v@ =~= Seq::new(i as nat, |j: int| u32_at(t@, 4 * j)),
            decreases n - i,
        {
            v.push(get_u32be(t, 4 * i));
            i = i + 1;
            assert(v@ =~= Seq::new(i as nat, |j: int| u32_at(t@, 4 * j)));
        }
        Some((LocaTable { offsets: LocaOffsets::Offsets32(v) }, 4 * n))
    } else {
        None
    }
}

/// The offsets of an optional `loca` table; without one, an empty list of
/// long offsets.
pub fn loca_offsets(loca: Option<LocaTable>) -> (r: LocaOffsets)
    ensures
        r@ == match loca {
            Some(l) => l@,
            None => SpecLocaOffsets::Offsets32(Seq::empty()),
        },
{
    match loca {
        Some(l) => l.offsets,
        None => LocaOffsets::Offsets32(Vec::new()),
    }
}

/// The byte offsets, within `glyf`, that the `loca` offsets stand for:
/// short offsets are half-values and are doubled.
pub open spec fn byte_offsets(offsets: SpecLocaOffsets) -> Seq<int> {
    match offsets {
        SpecLocaOffsets::Offsets16(v) => Seq::new(v.len(), |i: int| 2 * v[i] as int),
        SpecLocaOffsets::Offsets32(v) => Seq::new(v.len(), |i: int| v[i] as int),
    }
}

/// The consecutive pairs `(offs[i], offs[i + 1])` of a list of offsets; the
/// list must not be empty.
pub open spec fn spec_for_each_pair(offs: Seq<int>) -> Option<Seq<(int, int)>> {
    if offs.len() == 0 {
        None
    } else {
        Some(Seq::new((offs.len() - 1) as nat, |i: int| (offs[i], offs[i + 1])))
    }
}

/// Pairs of `u32` offsets read as integers.
pub open spec fn pairs_view(v: Seq<(u32, u32)>) -> Seq<(int, int)> {
    v.map_values(|p: (u32, u32)| (p.0 as int, p.1 as int))
}

/// The consecutive pairs of the byte offsets that `offsets` stands for, as
/// `(this, next)`; `None` for an empty list, which has no last index.
pub fn for_each_pair(offsets: &LocaOffsets) -> (r: Option<Vec<(u32, u32)>>)
    ensures
        match r {
            Some(v) => spec_for_each_pair(byte_offsets(offsets@)) == Some(
                pairs_view(v@),
            ),
            None => spec_for_each_pair(byte_offsets(offsets@)) is None,
        },
{
    let ghost offs = byte_offsets(offsets@);
    let len = match offsets {
        LocaOffsets::Offsets16(v) => v.len(),
        LocaOffsets::Offsets32(v) => v.len(),
    };
    if len == 0 {
        return None;
    }
    let mut pairs: Vec<(u32, u32)> = Vec::new();
    let mut i: usize = 0;
    while i < len - 1
        invariant
            0 <= i <= len - 1,
            len == offs.len(),
            offs == byte_offsets(offsets@),
            pairs_view(pairs@) =~= Seq::new(
                i as nat,
                |j: int| (offs[j], offs[j + 1]),
            ),
        decreases len - 1 - i,
    {
        let pair = match offsets {
            LocaOffsets::Offsets16(v) => {
                let p = (scale2(v[i]), scale2(v[i + 1]));
                assert(p.0 as int == offs[i as int] && p.1 as int == offs[i + 1]);
                p
            },
            LocaOffsets::Offsets32(v) => {
                let p = (v[i], v[i + 1]);
                assert(p.0 as int == offs[i as int] && p.1 as int == offs[i + 1]);
                p
            },
        };
        let ghost old_pairs = pairs@;
        pairs.push(pair);
        assert(pairs@ == old_pairs.push(pair));
        assert(pairs_view(pairs@) =~= pairs_view(old_pairs).push((pair.0 as int, pair.1 as int)));
        i = i + 1;
        assert(pairs_view(pairs@) =~= Seq::new(
            i as nat,
            |j: int| (offs[j], offs[j + 1]),
        ));
    }
    Some(pairs)
}

/// The flags of one point of a simple glyph (the repeat bit is consumed by
/// the expansion of runs).
#[derive(Clone, Copy, Debug, PartialEq, Eq)]
pub struct FlagSet {
    pub on_curve_point: bool,
    pub x_short_vector: bool,
    pub y_short_vector: bool,
    pub x_is_same_or_positive_x_short_vector: bool,
    pub y_is_same_or_positive_y_short_vector: bool,
    pub overlap_simple: bool,
}

/// The point flags of a flag byte: bits 0, 1, 2, 4, 5 and 6 (bit 3 is the
/// repeat bit, bit 7 is reserved and not checked).
pub open spec fn flag_set(b: u8) -> FlagSet {
    FlagSet {
        on_curve_point: b % 2 == 1,
        x_short_vector: (b / 2) % 2 == 1,
        y_short_vector: (b / 4) % 2 == 1,
        x_is_same_or_positive_x_short_vector: (b / 16) % 2 == 1,
        y_is_same_or_positive_y_short_vector: (b / 32) % 2 == 1,
        overlap_simple: (b / 64) % 2 == 1,
    }
}

fn read_flag_set(b: u8) -> (f: FlagSet)
    ensures
        f == flag_set(b),
{
    FlagSet {
        on_curve_point: b % 2 == 1,
        x_short_vector: (b / 2) % 2 == 1,
        y_short_vector: (b / 4) % 2 == 1,
        x_is_same_or_positive_x_short_vector: (b / 16) % 2 == 1,
        y_is_same_or_positive_y_short_vector: (b / 32) % 2 == 1,
        overlap_simple: (b / 64) % 2 == 1,
    }
}

/// The expanded point flags read at `p` once `total` points have flags, up
/// to at least `n` points: each flag byte with the repeat bit (bit 3) is
/// followed by a count of extra repetitions, and stands for that many plus
/// one points. The running total must fit in a `u16`.
pub open spec fn spec_flags(s: Seq<u8>, p: int, total: int, n: int) -> Option<(Seq<FlagSet>, int)>
    decreases (if n > total {
        n - total
    } else {
        0
    }),
{
    if total >= n {
        Some((Seq::empty(), p))
    } else if !avail(s, p, 1) {
        None
    } else {
        let b = s[p];
        let rep = (b / 8) % 2 == 1;
        if rep && !avail(s, p + 1, 1) {
            None
        } else {
            let reps: int = if rep {
                s[p + 1] as int
            } else {
                0
            };
            let q = if rep {
                p + 2
            } else {
                p + 1
            };
            let t2 = total + reps + 1;
            if t2 > 0xffff {
                None
            } else {
                match spec_flags(s, q, t2, n) {
                    Some((rest, e)) => Some(
                        (Seq::new((reps + 1) as nat, |_i: int| flag_set(b)) + rest, e),
                    ),
                    None => None,
                }
            }
        }
    }
}

/// Number of bytes that a coordinate delta takes: one for a short vector,
/// none for a repeated coordinate, two otherwise.
pub open spec fn coord_size(short: bool, same: bool) -> int {
    if short {
        1
    } else if same {
        0
    } else {
        2
    }
}

/// The coordinate delta at `p`: a short vector is a magnitude byte whose
/// sign the `same` bit gives (set for positive); a repeated coordinate is
/// zero; otherwise a signed big-endian 16-bit value.
pub open spec fn coord_value(s: Seq<u8>, p: int, short: bool, same: bool) -> i16 {
    if short {
        to_i16(spec_u8_to_i16(s[p], same))
    } else if same {
        0
    } else {
        to_i16(u16_at(s, p))
    }
}

/// The `(short, same)` bits of a point for one axis.
pub open spec fn axis_bits(f: FlagSet, is_x: bool) -> (bool, bool) {
    if is_x {
        (f.x_short_vector, f.x_is_same_or_positive_x_short_vector)
    } else {
        (f.y_short_vector, f.y_is_same_or_positive_y_short_vector)
    }
}

/// The coordinate deltas at `p` of the points `i..` of `flags`, along the
/// x axis or the y axis.
pub open spec fn spec_coords(s: Seq<u8>, p: int, flags: Seq<FlagSet>, i: int, is_x: bool) -> Option<
    (Seq<i16>, int),
>
    decreases flags.len() - i,
{
    if i >= flags.len() {
        Some((Seq::empty(), p))
    } else {
        let (short, same) = axis_bits(flags[i], is_x);
        let sz = coord_size(short, same);
        if !avail(s, p, sz) {
            None
        } else {
            match spec_coords(s, p + sz, flags, i + 1, is_x) {
                Some((rest, e)) => Some((seq![coord_value(s, p, short, same)] + rest, e)),
                None => None,
            }
        }
    }
}

/// The flags read from a running total of `total` points bring the total
/// to at least `n`, and never past the largest `u16`.
pub proof fn lemma_flags_count(s: Seq<u8>, p: int, total: int, n: int)
    requires
        0 <= total <= 0xffff,
    ensures
        spec_flags(s, p, total, n) matches Some((fl, e)) ==> total + fl.len() >= n && total
            + fl.len() <= 0xffff,
    decreases (if n > total {
        n - total
    } else {
        0
    }),
{
    if total < n && avail(s, p, 1) {
        let b = s[p];
        let rep = (b / 8) % 2 == 1;
        if !(rep && !avail(s, p + 1, 1)) {
            let reps: int = if rep {
                s[p + 1] as int
            } else {
                0
            };
            let q = if rep {
                p + 2
            } else {
                p + 1
            };
            let t2 = total + reps + 1;
            if t2 <= 0xffff {
                lemma_flags_count(s, q, t2, n);
            }
        }
    }
}

/// The deltas read for the points `i..` of `flags` are one per point.
pub proof fn lemma_coords_count(s: Seq<u8>, p: int, flags: Seq<FlagSet>, i: int, is_x: bool)
    requires
        0 <= i <= flags.len(),
    ensures
        spec_coords(s, p, flags, i, is_x) matches Some((v, e)) ==> v.len() == flags.len() - i,
    decreases flags.len() - i,
{
    if i < flags.len() {
        let (short, same) = axis_bits(flags[i], is_x);
        lemma_coords_count(s, p + coord_size(short, same), flags, i + 1, is_x);
    }
}

/// Parses the point flags at `p` until `n` points have one.
fn parse_flags(s: &[u8], p: usize, n: u16) -> (r: Option<(Vec<FlagSet>, usize)>)
    ensures
        agrees(r, spec_flags(s@, p as int, 0, n as int)),
{
    let mut flags: Vec<FlagSet> = Vec::new();
    let mut q = p;
    let mut total: u16 = 0;
    assert(flags@ + Seq::<FlagSet>::empty() =~= flags@);
    while total < n
        invariant
            match spec_flags(s@, q as int, total as int, n as int) {
                Some((rest, e)) => spec_flags(s@, p as int, 0, n as int) == Some(
                    (flags@ + rest, e),
                ),
                None => spec_flags(s@, p as int, 0, n as int) is None,
            },
        decreases (if n > total {
            n - total
        } else {
            0
        }),
    {
        if !has_bytes(s, q, 1) {
            return None;
        }
        let b = get_u8(s, q);
        let rep = (b / 8) % 2 == 1;
        if rep && !has_bytes(s, q + 1, 1) {
            return None;
        }
        let reps: u8 = if rep {
            get_u8(s, q + 1)
        } else {
            0
        };
        let next = if rep {
            q + 2
        } else {
            q + 1
        };
        if (total as u32) + (reps as u32) + 1 > 0xffff {
            return None;
        }
        let new_total: u16 = total + (reps as u16) + 1;
        let fs = read_flag_set(b);
        let ghost old_flags = flags@;
        let mut k: u16 = 0;
        while k <= reps as u16
            invariant
                0 <= k <= reps as u16 + 1,
                fs == flag_set(b),
                flags@ =~= old_flags + Seq::new(k as nat, |_i: int| flag_set(b)),
            decreases reps as u16 + 1 - k,
        {
            flags.push(fs);
            k = k + 1;
            assert(flags@ =~= old_flags + Seq::new(k as nat, |_i: int| flag_set(b)));
        }
        proof {
            let run = Seq::new((reps + 1) as nat, |_i: int| flag_set(b));
            match spec_flags(s@, next as int, total + reps + 1, n as int) {
                Some((rest, e)) => {
                    assert(old_flags + (run + rest) =~= (old_flags + run) + rest);
                },
                None => {},
            }
        }
        total = new_total;
        q = next;
    }
    assert(flags@ + Seq::<FlagSet>::empty() =~= flags@);
    Some((flags, q))
}

/// Parses the coordinate deltas at `p` of all points of `flags`, along one
/// axis.
fn parse_coords(s: &[u8], p: usize, flags: &Vec<FlagSet>, is_x: bool) -> (r: Option<
    (Vec<i16>, usize),
>)
    ensures
        agrees(r, spec_coords(s@, p as int, flags@, 0, is_x)),
{
    let mut v: Vec<i16> = Vec::new();
    let mut q = p;
    let mut i: usize = 0;
    assert(v@ + Seq::<i16>::empty() =~= v@);
    while i < flags.len()
        invariant
            0 <= i <= flags@.len(),
            match spec_coords(s@, q as int, flags@, i as int, is_x) {
                Some((rest, e)) => spec_coords(s@, p as int, flags@, 0, is_x) == Some(
                    (v@ + rest, e),
                ),
                None => spec_coords(s@, p as int, flags@, 0, is_x) is None,
            },
        decreases flags@.len() - i,
    {
        let f = flags[i];
        let (short, same) = if is_x {
            (f.x_short_vector, f.x_is_same_or_positive_x_short_vector)
        } else {
            (f.y_short_vector, f.y_is_same_or_positive_y_short_vector)
        };
        let sz: usize = if short {
            1
        } else if same {
            0
        } else {
            2
        };
        if !has_bytes(s, q, sz) {
            return None;
        }
        let c: i16 = if short {
            as_i16(u8_to_i16(get_u8(s, q), same))
        } else if same {
            0
        } else {
            as_i16(get_u16be(s, q))
        };
        proof {
            match spec_coords(s@, q + sz, flags@, i + 1, is_x) {
                Some((rest, e)) => {
                    assert(v@ + (seq![c] + rest) =~= v@.push(c) + rest);
                },
                None => {},
            }
        }
        v.push(c);
        q = q + sz;
        i = i + 1;
    }
    assert(v@ + Seq::<i16>::empty() =~= v@);
    Some((v, q))
}

/// The outline of a simple glyph.
#[derive(Clone, Debug, PartialEq, Eq)]
pub struct SimpleGlyph {
    pub end_points_of_contour: Vec<u16>,
    pub instruction_length: u16,
    pub instructions: Vec<u8>,
    pub number_of_coordinates: u16,
    pub flags: Vec<FlagSet>,
    pub x_coordinates: Vec<i16>,
    pub y_coordinates: Vec<i16>,
}

/// Mathematical form of `SimpleGlyph`.
pub struct SpecSimpleGlyph {
    pub end_points_of_contour: Seq<u16>,
    pub instruction_length: u16,
    pub instructions: Seq<u8>,
    pub number_of_coordinates: u16,
    pub flags: Seq<FlagSet>,
    pub x_coordinates: Seq<i16>,
    pub y_coordinates: Seq<i16>,
}

impl View for SimpleGlyph {
    type V = SpecSimpleGlyph;

    open spec fn view(&self) -> SpecSimpleGlyph {
        SpecSimpleGlyph {
            end_points_of_contour: self.end_points_of_contour@,
            instruction_length: self.instruction_length,
            instructions: self.instructions@,
            number_of_coordinates: self.number_of_coordinates,
            flags: self.flags@,
            x_coordinates: self.x_coordinates@,
            y_coordinates: self.y_coordinates@,
        }
    }
}

/// A simple glyph of `n` contours at `p`: the last point index of each
/// contour, the hinting instructions, the point flags for one more point
/// than the last index, then the x and the y deltas of every flagged point.
pub open spec fn spec_simple_glyph(s: Seq<u8>, p: int, n: u16) -> Option<(SpecSimpleGlyph, int)> {
    if n == 0 || !avail(s, p, 2 * n + 2) {
        None
    } else {
        let ends = Seq::new(n as nat, |i: int| u16_at(s, p + 2 * i));
        let q = p + 2 * n;
        let il = u16_at(s, q);
        if !avail(s, q + 2, il as int) || ends.last() == 0xffff {
            None
        } else {
            let count = (ends.last() + 1) as u16;
            let r = q + 2 + il;
            match spec_flags(s, r, 0, count as int) {
                None => None,
                Some((fl, r2)) => match spec_coords(s, r2, fl, 0, true) {
                    None => None,
                    Some((xs, r3)) => match spec_coords(s, r3, fl, 0, false) {
                        None => None,
                        Some((ys, r4)) => Some((SpecSimpleGlyph {
                            end_points_of_contour: ends,
                            instruction_length: il,
                            instructions: s.subrange(q + 2, r),
                            number_of_coordinates: count,
                            flags: fl,
                            x_coordinates: xs,
                            y_coordinates: ys,
                        }, r4)),
                    },
                },
            }
        }
    }
}

/// A simple glyph has one end point per contour, one more point than its
/// last end point, flags for at least that many points, and exactly one x
/// delta and one y delta per flagged point.
pub proof fn lemma_simple_glyph_counts(s: Seq<u8>, p: int, n: u16)
    ensures
        spec_simple_glyph(s, p, n) matches Some((g, e)) ==> {
            &&& g.end_points_of_contour.len() == n
            &&& g.number_of_coordinates == g.end_points_of_contour.last() + 1
            &&& g.instructions.len() == g.instruction_length
            &&& g.flags.len() >= g.number_of_coordinates
            &&& g.x_coordinates.len() == g.flags.len()
            &&& g.y_coordinates.len() == g.flags.len()
        },
{
    if n != 0 && avail(s, p, 2 * n + 2) {
        let ends = Seq::new(n as nat, |i: int| u16_at(s, p + 2 * i));
        let q = p + 2 * n;
        let il = u16_at(s, q);
        if avail(s, q + 2, il as int) && ends.last() != 0xffff {
            let count = (ends.last() + 1) as u16;
            let r = q + 2 + il;
            lemma_flags_count(s, r, 0, count as int);
            if let Some((fl, r2)) = spec_flags(s, r, 0, count as int) {
                lemma_coords_count(s, r2, fl, 0, true);
                if let Some((xs, r3)) = spec_coords(s, r2, fl, 0, true) {
                    lemma_coords_count(s, r3, fl, 0, false);
                }
            }
        }
    }
}

/// Parses a simple glyph of `n` contours at `p`.
pub fn simple_glyph(s: &[u8], p: usize, n: u16) -> (r: Option<(SimpleGlyph, usize)>)
    ensures
        agrees(r, spec_simple_glyph(s@, p as int, n)),
{
    if n == 0 || !has_bytes(s, p, 2 * (n as usize) + 2) {
        return None;
    }
    let mut ends: Vec<u16> = Vec::new();
    let mut i: usize = 0;
    while i < n as usize
        invariant
            0 <= i <= n,
            avail(s@, p as int, 2 * n + 2),
            s@.len() <= usize::MAX,
            ends@ =~= Seq::new(i as nat, |j: int| u16_at(s@, p + 2 * j)),
        decreases n - i,
    {
        ends.push(get_u16be(s, p + 2 * i));
        i = i + 1;
        assert(ends@ =~= Seq::new(i as nat, |j: int| u16_at(s@, p + 2 * j)));
    }
    let q = p + 2 * (n as usize);
    let il = get_u16be(s, q);
    if !has_bytes(s, q + 2, il as usize) {
        return None;
    }
    let last = last_elem(ends.as_slice());
    if last == 0xffff {
        return None;
    }
    let count = last + 1;
    let r = q + 2 + il as usize;
    let instructions = slice_to_vec(slice_subrange(s, q + 2, r));
    let (flags, r2) = match parse_flags(s, r, count) {
        Some(x) => x,
        None => return None,
    };
    let (xs, r3) = match parse_coords(s, r2, &flags, true) {
        Some(x) => x,
        None => return None,
    };
    let (ys, r4) = match parse_coords(s, r3, &flags, false) {
        Some(x) => x,
        None => return None,
    };
    let g = SimpleGlyph {
        end_points_of_contour: ends,
        instruction_length: il,
        instructions,
        number_of_coordinates: count,
        flags,
        x_coordinates: xs,
        y_coordinates: ys,
    };
    Some((g, r4))
}

/// The flags of a component of a composite glyph; bits 13 to 15 and bit 4
/// are reserved and not checked.
#[derive(Clone, Copy, Debug, PartialEq, Eq)]
pub struct CompositeFlags {
    pub unscaled_component_offset: bool,
    pub scaled_component_offset: bool,
    pub overlap_compound: bool,
    pub use_my_metrics: bool,
    pub we_have_instructions: bool,
    pub we_have_a_two_by_two: bool,
    pub we_have_an_x_and_y_scale: bool,
    pub more_components: bool,
    pub we_have_a_scale: bool,
    pub round_xy_to_grid: bool,
    pub args_are_xy_values: bool,
    pub arg_1_and_2_are_words: bool,
}

/// The flags of a raw component-flags word: bits 12 down to 5, and 3 down
/// to 0.
pub open spec fn composite_flags(raw: u16) -> CompositeFlags {
    CompositeFlags {
        unscaled_component_offset: (raw / 0x1000) % 2 == 1,
        scaled_component_offset: (raw / 0x800) % 2 == 1,
        overlap_compound: (raw / 0x400) % 2 == 1,
        use_my_metrics: (raw / 0x200) % 2 == 1,
        we_have_instructions: (raw / 0x100) % 2 == 1,
        we_have_a_two_by_two: (raw / 0x80) % 2 == 1,
        we_have_an_x_and_y_scale: (raw / 0x40) % 2 == 1,
        more_components: (raw / 0x20) % 2 == 1,
        we_have_a_scale: (raw / 8) % 2 == 1,
        round_xy_to_grid: (raw / 4) % 2 == 1,
        args_are_xy_values: (raw / 2) % 2 == 1,
        arg_1_and_2_are_words: raw % 2 == 1,
    }
}

fn read_composite_flags(raw: u16) -> (f: CompositeFlags)
    ensures
        f == composite_flags(raw),
{
    CompositeFlags {
        unscaled_component_offset: (raw / 0x1000) % 2 == 1,
        scaled_component_offset: (raw / 0x800) % 2 == 1,
        overlap_compound: (raw / 0x400) % 2 == 1,
        use_my_metrics: (raw / 0x200) % 2 == 1,
        we_have_instructions: (raw / 0x100) % 2 == 1,
        we_have_a_two_by_two: (raw / 0x80) % 2 == 1,
        we_have_an_x_and_y_scale: (raw / 0x40) % 2 == 1,
        more_components: (raw / 0x20) % 2 == 1,
        we_have_a_scale: (raw / 8) % 2 == 1,
        round_xy_to_grid: (raw / 4) % 2 == 1,
        args_are_xy_values: (raw / 2) % 2 == 1,
        arg_1_and_2_are_words: raw % 2 == 1,
    }
}

/// An argument of a component: a point number (unsigned) or an offset
/// (signed), as a byte or as a word.
#[derive(Clone, Copy, Debug, PartialEq, Eq)]
pub enum GlyfArg {
    Int16(i16),
    Uint16(u16),
    Int8(i8),
    Uint8(u8),
}

/// The transformation of a component.
#[derive(Clone, Copy, Debug, PartialEq, Eq)]
pub enum GlyfScale {
    Scale(F2Dot14),
    XY { x_scale: F2Dot14, y_scale: F2Dot14 },
    Matrix((F2Dot14, F2Dot14), (F2Dot14, F2Dot14)),
}

/// One component of a composite glyph.
#[derive(Clone, Copy, Debug, PartialEq, Eq)]
pub struct CompositeComponent {
    pub flags: CompositeFlags,
    pub glyph_index: u16,
    pub argument1: GlyfArg,
    pub argument2: GlyfArg,
    pub scale: Option<GlyfScale>,
}

impl View for CompositeComponent {
    type V = CompositeComponent;

    open spec fn view(&self) -> CompositeComponent {
        *self
    }
}

/// The argument at `p` as the flags say: words or bytes, signed (xy
/// offsets) or unsigned (point numbers).
pub open spec fn glyf_arg(s: Seq<u8>, p: int, f: CompositeFlags) -> GlyfArg {
    if f.arg_1_and_2_are_words {
        if f.args_are_xy_values {
            GlyfArg::Int16(to_i16(u16_at(s, p)))
        } else {
            GlyfArg::Uint16(u16_at(s, p))
        }
    } else {
        if f.args_are_xy_values {
            GlyfArg::Int8(to_i8(s[p]))
        } else {
            GlyfArg::Uint8(s[p])
        }
    }
}

/// Number of bytes of the transformation that the flags announce: a single
/// scale, then separate x and y scales, then a two-by-two matrix, in that
/// order of precedence.
pub open spec fn scale_size(f: CompositeFlags) -> int {
    if f.we_have_a_scale {
        2
    } else if f.we_have_an_x_and_y_scale {
        4
    } else if f.we_have_a_two_by_two {
        8
    } else {
        0
    }
}

/// The transformation at `p` as the flags say.
pub open spec fn glyf_scale(s: Seq<u8>, p: int, f: CompositeFlags) -> Option<GlyfScale> {
    if f.we_have_a_scale {
        Some(GlyfScale::Scale(F2Dot14(u16_at(s, p))))
    } else if f.we_have_an_x_and_y_scale {
        Some(GlyfScale::XY { x_scale: F2Dot14(u16_at(s, p)), y_scale: F2Dot14(u16_at(s, p + 2)) })
    } else if f.we_have_a_two_by_two {
        Some(
            GlyfScale::Matrix(
                (F2Dot14(u16_at(s, p)), F2Dot14(u16_at(s, p + 2))),
                (F2Dot14(u16_at(s, p + 4)), F2Dot14(u16_at(s, p + 6))),
            ),
        )
    } else {
        None
    }
}

/// The component at `p`: flags, glyph index, two arguments and the
/// transformation.
pub open spec fn spec_component(s: Seq<u8>, p: int) -> Option<(CompositeComponent, int)> {
    if !avail(s, p, 4) {
        None
    } else {
        let f = composite_flags(u16_at(s, p));
        let asz: int = if f.arg_1_and_2_are_words {
            2
        } else {
            1
        };
        let q = p + 4 + 2 * asz;
        if !avail(s, p + 4, 2 * asz) || !avail(s, q, scale_size(f)) {
            None
        } else {
            Some((CompositeComponent {
                flags: f,
                glyph_index: u16_at(s, p + 2),
                argument1: glyf_arg(s, p + 4, f),
                argument2: glyf_arg(s, p + 4 + asz, f),
                scale: glyf_scale(s, q, f),
            }, q + scale_size(f)))
        }
    }
}

/// The components at `p`, up to and including the first one without the
/// `more_components` flag.
pub open spec fn spec_components(s: Seq<u8>, p: int) -> Option<(Seq<CompositeComponent>, int)>
    decreases s.len() - p,
{
    match spec_component(s, p) {
        None => None,
        Some((c, q)) => {
            if !c.flags.more_components {
                Some((seq![c], q))
            } else if q <= p {
                None
            } else {
                match spec_components(s, q) {
                    Some((rest, e)) => Some((seq![c] + rest, e)),
                    None => None,
                }
            }
        },
    }
}

/// Whether some component asks for instructions.
pub open spec fn any_instructions(cs: Seq<CompositeComponent>) -> bool {
    exists|i: int| 0 <= i < cs.len() && #[trigger] cs[i].flags.we_have_instructions
}

/// The outline of a composite glyph.
#[derive(Clone, Debug, PartialEq, Eq)]
pub struct CompositeGlyph {
    pub glyphs: Vec<CompositeComponent>,
    pub instructions: Vec<u8>,
}

/// Mathematical form of `CompositeGlyph`.
pub struct SpecCompositeGlyph {
    pub glyphs: Seq<CompositeComponent>,
    pub instructions: Seq<u8>,
}

impl View for CompositeGlyph {
    type V = SpecCompositeGlyph;

    open spec fn view(&self) -> SpecCompositeGlyph {
        SpecCompositeGlyph { glyphs: self.glyphs@, instructions: self.instructions@ }
    }
}

/// A composite glyph at `p`: its components, then, when one of them asks
/// for instructions, a length and that many instruction bytes.
pub open spec fn spec_composite_glyph(s: Seq<u8>, p: int) -> Option<(SpecCompositeGlyph, int)> {
    match spec_components(s, p) {
        None => None,
        Some((cs, q)) => {
            if any_instructions(cs) {
                if avail(s, q, 2) && avail(s, q + 2, u16_at(s, q) as int) {
                    let e = q + 2 + u16_at(s, q);
                    Some((SpecCompositeGlyph { glyphs: cs, instructions: s.subrange(q + 2, e) }, e))
                } else {
                    None
                }
            } else {
                Some((SpecCompositeGlyph { glyphs: cs, instructions: Seq::empty() }, q))
            }
        },
    }
}

fn read_arg(s: &[u8], p: usize, f: CompositeFlags) -> (a: GlyfArg)
    requires
        avail(s@, p as int, if f.arg_1_and_2_are_words {
            2
        } else {
            1
        }),
    ensures
        a == glyf_arg(s@, p as int, f),
{
    if f.arg_1_and_2_are_words {
        if f.args_are_xy_values {
            GlyfArg::Int16(as_i16(get_u16be(s, p)))
        } else {
            GlyfArg::Uint16(get_u16be(s, p))
        }
    } else {
        if f.args_are_xy_values {
            GlyfArg::Int8(as_i8(get_u8(s, p)))
        } else {
            GlyfArg::Uint8(get_u8(s, p))
        }
    }
}

/// Parses the component at `p`.
pub fn component(s: &[u8], p: usize) -> (r: Option<(CompositeComponent, usize)>)
    ensures
        agrees(r, spec_component(s@, p as int)),
{
    if !has_bytes(s, p, 4) {
        return None;
    }
    let f = read_composite_flags(get_u16be(s, p));
    let asz: usize = if f.arg_1_and_2_are_words {
        2
    } else {
        1
    };
    if !has_bytes(s, p + 4, 2 * asz) {
        return None;
    }
    let q = p + 4 + 2 * asz;
    let ssz: usize = if f.we_have_a_scale {
        2
    } else if f.we_have_an_x_and_y_scale {
        4
    } else if f.we_have_a_two_by_two {
        8
    } else {
        0
    };
    if !has_bytes(s, q, ssz) {
        return None;
    }
    let scale = if f.we_have_a_scale {
        Some(GlyfScale::Scale(F2Dot14(get_u16be(s, q))))
    } else if f.we_have_an_x_and_y_scale {
        Some(
            GlyfScale::XY {
                x_scale: F2Dot14(get_u16be(s, q)),
                y_scale: F2Dot14(get_u16be(s, q + 2)),
            },
        )
    } else if f.we_have_a_two_by_two {
        Some(
            GlyfScale::Matrix(
                (F2Dot14(get_u16be(s, q)), F2Dot14(get_u16be(s, q + 2))),
                (F2Dot14(get_u16be(s, q + 4)), F2Dot14(get_u16be(s, q + 6))),
            ),
        )
    } else {
        None
    };
    let c = CompositeComponent {
        flags: f,
        glyph_index: get_u16be(s, p + 2),
        argument1: read_arg(s, p + 4, f),
        argument2: read_arg(s, p + 4 + asz, f),
        scale,
    };
    Some((c, q + ssz))
}

/// Appending a component asks for instructions exactly when the earlier
/// ones or the new one do.
proof fn lemma_any_instructions_push(cs: Seq<CompositeComponent>, c: CompositeComponent)
    ensures
        any_instructions(cs.push(c)) == (any_instructions(cs) || c.flags.we_have_instructions),
{
    let all = cs.push(c);
    if c.flags.we_have_instructions {
        assert(all[cs.len() as int].flags.we_have_instructions);
    }
    if any_instructions(all) && !c.flags.we_have_instructions {
        let k = choose|k: int| 0 <= k < all.len() && #[trigger] all[k].flags.we_have_instructions;
        assert(cs[k] == all[k]);
    }
    if any_instructions(cs) {
        let k = choose|k: int| 0 <= k < cs.len() && #[trigger] cs[k].flags.we_have_instructions;
        assert(all[k] == cs[k]);
    }
}

/// Parses the components at `p`, and whether one of them asks for
/// instructions.
fn components(s: &[u8], p: usize) -> (r: Option<(Vec<CompositeComponent>, bool, usize)>)
    ensures
        match r {
            Some((cs, any, e)) => spec_components(s@, p as int) == Some((cs@, e as int)) && any
                == any_instructions(cs@),
            None => spec_components(s@, p as int) is None,
        },
{
    let mut cs: Vec<CompositeComponent> = Vec::new();
    let mut q = p;
    let mut any = false;
    assert(cs@ =~= Seq::<CompositeComponent>::empty());
    loop
        invariant_except_break
            any == any_instructions(cs@),
            match spec_components(s@, q as int) {
                Some((rest, e)) => spec_components(s@, p as int) == Some((cs@ + rest, e)),
                None => spec_components(s@, p as int) is None,
            },
        ensures
            any == any_instructions(cs@),
            spec_components(s@, p as int) == Some((cs@, q as int)),
        decreases s@.len() - q,
    {
        let (c, next) = match component(s, q) {
            Some(x) => x,
            None => return None,
        };
        let ghost old_cs = cs@;
        cs.push(c);
        proof {
            lemma_any_instructions_push(old_cs, c);
        }
        any = any || c.flags.we_have_instructions;
        if !c.flags.more_components {
            assert(old_cs + seq![c] =~= cs@);
            q = next;
            break;
        }
        if next <= q {
            return None;
        }
        proof {
            match spec_components(s@, next as int) {
                Some((rest, e)) => {
                    assert(old_cs + (seq![c] + rest) =~= cs@ + rest);
                },
                None => {},
            }
        }
        q = next;
    }
    Some((cs, any, q))
}

/// Parses a composite glyph at `p`.
pub fn composite_glyph(s: &[u8], p: usize) -> (r: Option<(CompositeGlyph, usize)>)
    ensures
        agrees(r, spec_composite_glyph(s@, p as int)),
{
    let (cs, any, q) = match components(s, p) {
        Some(x) => x,
        None => return None,
    };
    if any {
        if !has_bytes(s, q, 2) {
            return None;
        }
        let il = get_u16be(s, q);
        if !has_bytes(s, q + 2, il as usize) {
            return None;
        }
        let e = q + 2 + il as usize;
        let instructions = slice_to_vec(slice_subrange(s, q + 2, e));
        Some((CompositeGlyph { glyphs: cs, instructions }, e))
    } else {
        Some((CompositeGlyph { glyphs: cs, instructions: Vec::new() }, q))
    }
}

/// The outline of a glyph, by its number of contours.
#[derive(Clone, Debug, PartialEq, Eq)]
pub enum GlyphDescription {
    HeaderOnly,
    Simple(SimpleGlyph),
    Composite(CompositeGlyph),
}

/// Mathematical form of `GlyphDescription`.
pub enum SpecGlyphDescription {
    HeaderOnly,
    Simple(SpecSimpleGlyph),
    Composite(SpecCompositeGlyph),
}

impl View for GlyphDescription {
    type V = SpecGlyphDescription;

    open spec fn view(&self) -> SpecGlyphDescription {
        match self {
            GlyphDescription::HeaderOnly => SpecGlyphDescription::HeaderOnly,
            GlyphDescription::Simple(g) => SpecGlyphDescription::Simple(g@),
            GlyphDescription::Composite(g) => SpecGlyphDescription::Composite(g@),
        }
    }
}

/// A glyph: contour count, bounding box and outline.
#[derive(Clone, Debug, PartialEq, Eq)]
pub struct Glyph {
    pub number_of_contours: i16,
    pub x_min: i16,
    pub y_min: i16,
    pub x_max: i16,
    pub y_max: i16,
    pub description: GlyphDescription,
}

/// Mathematical form of `Glyph`.
pub struct SpecGlyph {
    pub number_of_contours: i16,
    pub x_min: i16,
    pub y_min: i16,
    pub x_max: i16,
    pub y_max: i16,
    pub description: SpecGlyphDescription,
}

impl View for Glyph {
    type V = SpecGlyph;

    open spec fn view(&self) -> SpecGlyph {
        SpecGlyph {
            number_of_contours: self.number_of_contours,
            x_min: self.x_min,
            y_min: self.y_min,
            x_max: self.x_max,
            y_max: self.y_max,
            description: self.description@,
        }
    }
}

/// A glyph at `p`: a ten-byte header, then no outline for zero contours, a
/// simple outline for a positive count and a composite one for a negative
/// count.
pub open spec fn spec_glyph(s: Seq<u8>, p: int) -> Option<(SpecGlyph, int)> {
    if !avail(s, p, 10) {
        None
    } else {
        let n = to_i16(u16_at(s, p));
        let desc = if n == 0 {
            Some((SpecGlyphDescription::HeaderOnly, p + 10))
        } else if n > 0 {
            match spec_simple_glyph(s, p + 10, n as u16) {
                Some((g, e)) => Some((SpecGlyphDescription::Simple(g), e)),
                None => None,
            }
        } else {
            match spec_composite_glyph(s, p + 10) {
                Some((g, e)) => Some((SpecGlyphDescription::Composite(g), e)),
                None => None,
            }
        };
        match desc {
            None => None,
            Some((d, e)) => Some((SpecGlyph {
                number_of_contours: n,
                x_min: to_i16(u16_at(s, p + 2)),
                y_min: to_i16(u16_at(s, p + 4)),
                x_max: to_i16(u16_at(s, p + 6)),
                y_max: to_i16(u16_at(s, p + 8)),
                description: d,
            }, e)),
        }
    }
}

/// Parses a glyph at `p`.
pub fn glyph(s: &[u8], p: usize) -> (r: Option<(Glyph, usize)>)
    ensures
        agrees(r, spec_glyph(s@, p as int)),
{
    if !has_bytes(s, p, 10) {
        return None;
    }
    let n = as_i16(get_u16be(s, p));
    let (d, e) = if n == 0 {
        (GlyphDescription::HeaderOnly, p + 10)
    } else if n > 0 {
        match simple_glyph(s, p + 10, n as u16) {
            Some((g, e)) => (GlyphDescription::Simple(g), e),
            None => return None,
        }
    } else {
        match composite_glyph(s, p + 10) {
            Some((g, e)) => (GlyphDescription::Composite(g), e),
            None => return None,
        }
    };
    let g = Glyph {
        number_of_contours: n,
        x_min: as_i16(get_u16be(s, p + 2)),
        y_min: as_i16(get_u16be(s, p + 4)),
        x_max: as_i16(get_u16be(s, p + 6)),
        y_max: as_i16(get_u16be(s, p + 8)),
        description: d,
    };
    Some((g, e))
}

/// One entry of the `glyf` table.
#[derive(Clone, Debug, PartialEq, Eq)]
pub enum GlyfEntry {
    Glyph(Glyph),
    EmptyGlyph,
}

/// Mathematical form of `GlyfEntry`.
pub enum SpecGlyfEntry {
    Glyph(SpecGlyph),
    EmptyGlyph,
}

impl View for GlyfEntry {
    type V = SpecGlyfEntry;

    open spec fn view(&self) -> SpecGlyfEntry {
        match self {
            GlyfEntry::Glyph(g) => SpecGlyfEntry::Glyph(g@),
            GlyfEntry::EmptyGlyph => SpecGlyfEntry::EmptyGlyph,
        }
    }
}

/// The views of a sequence of `glyf` entries.
pub open spec fn entries_view(v: Seq<GlyfEntry>) -> Seq<SpecGlyfEntry> {
    v.map_values(|e: GlyfEntry| e@)
}

/// The entry of the glyph whose data lies at `this..next` of `t`: a glyph
/// parsed at `this` when `next > this` (then `this` must lie within `t`),
/// and an empty glyph otherwise.
pub open spec fn spec_glyf_entry(t: Seq<u8>, this: int, next: int) -> Option<SpecGlyfEntry> {
    if next > this {
        if this <= t.len() {
            match spec_glyph(t, this) {
                Some((g, _)) => Some(SpecGlyfEntry::Glyph(g)),
                None => None,
            }
        } else {
            None
        }
    } else {
        Some(SpecGlyfEntry::EmptyGlyph)
    }
}

/// The `glyf` table held in `t` for the `loca` offsets `offsets`: one entry
/// for each consecutive pair of offsets; every entry must parse.
pub open spec fn spec_glyf_table(t: Seq<u8>, offsets: SpecLocaOffsets) -> Option<Seq<SpecGlyfEntry>> {
    match spec_for_each_pair(byte_offsets(offsets)) {
        None => None,
        Some(pairs) => {
            if forall|i: int|
                0 <= i < pairs.len() ==> #[trigger] spec_glyf_entry(t, pairs[i].0, pairs[i].1)
                    is Some {
                Some(
                    Seq::new(
                        pairs.len(),
                        |i: int| spec_glyf_entry(t, pairs[i].0, pairs[i].1).unwrap(),
                    ),
                )
            } else {
                None
            }
        },
    }
}

/// Parses the entry of the glyph whose data lies at `this..next` of `t`.
pub fn glyf_entry(t: &[u8], this: u32, next: u32) -> (r: Option<GlyfEntry>)
    ensures
        match r {
            Some(e) => spec_glyf_entry(t@, this as int, next as int) == Some(e@),
            None => spec_glyf_entry(t@, this as int, next as int) is None,
        },
{
    if next > this {
        if this as usize > t.len() {
            return None;
        }
        match glyph(t, this as usize) {
            Some((g, _)) => Some(GlyfEntry::Glyph(g)),
            None => None,
        }
    } else {
        Some(GlyfEntry::EmptyGlyph)
    }
}

/// The `glyf` table has one entry per glyph: one fewer than the `loca`
/// offsets, which for a `loca` table of `num_glyphs` glyphs is `num_glyphs`.
pub proof fn lemma_glyf_entries_per_glyph(
    loca: Seq<u8>,
    num_glyphs: u16,
    index_to_loc_format: u16,
    t: Seq<u8>,
)
    ensures
        spec_loca_table(loca, num_glyphs, index_to_loc_format) matches Some((offs, _)) ==> (
        spec_glyf_table(t, offs) matches Some(entries) ==> entries.len() == num_glyphs),
{
}

/// Parses the `glyf` table held in `t`, locating the glyphs through the
/// `loca` offsets.
pub fn glyf_table(t: &[u8], offsets: &LocaOffsets) -> (r: Option<Vec<GlyfEntry>>)
    ensures
        match r {
            Some(v) => spec_glyf_table(t@, offsets@) == Some(entries_view(v@)),
            None => spec_glyf_table(t@, offsets@) is None,
        },
{
    let pairs = match for_each_pair(offsets) {
        Some(p) => p,
        None => return None,
    };
    let ghost gp = pairs_view(pairs@);
    let mut v: Vec<GlyfEntry> = Vec::new();
    let mut i: usize = 0;
    while i < pairs.len()
        invariant
            0 <= i <= pairs@.len(),
            gp == pairs_view(pairs@),
            spec_for_each_pair(byte_offsets(offsets@)) == Some(gp),
            forall|j: int| 0 <= j < i ==> #[trigger] spec_glyf_entry(t@, gp[j].0, gp[j].1) is Some,
            entries_view(v@) =~= Seq::new(
                i as nat,
                |j: int| spec_glyf_entry(t@, gp[j].0, gp[j].1).unwrap(),
            ),
        decreases pairs@.len() - i,
    {
        let (this, next) = pairs[i];
        assert(gp[i as int] == (this as int, next as int));
        let entry = match glyf_entry(t, this, next) {
            Some(e) => e,
            None => return None,
        };
        let ghost old_v = v@;
        v.push(entry);
        assert(entries_view(v@) =~= entries_view(old_v).push(entry@));
        i = i + 1;
        assert(entries_view(v@) =~= Seq::new(
            i as nat,
            |j: int| spec_glyf_entry(t@, gp[j].0, gp[j].1).unwrap(),
        ));
    }
    Some(v)
}


/// Each flag of a component-flags word is set exactly when its bit is:
/// bit 0 words, 1 xy values, 2 round to grid, 3 a scale, 5 more components,
/// 6 x and y scales, 7 a two-by-two, 8 instructions, 9 use my metrics,
/// 10 overlap, 11 scaled offset, 12 unscaled offset.
pub proof fn lemma_composite_flag_bits(raw: u16)
    ensures
        ({
            let f = composite_flags(raw);
            &&& f.arg_1_and_2_are_words == (raw & 0x0001 != 0)
            &&& f.args_are_xy_values == (raw & 0x0002 != 0)
            &&& f.round_xy_to_grid == (raw & 0x0004 != 0)
            &&& f.we_have_a_scale == (raw & 0x0008 != 0)
            &&& f.more_components == (raw & 0x0020 != 0)
            &&& f.we_have_an_x_and_y_scale == (raw & 0x0040 != 0)
            &&& f.we_have_a_two_by_two == (raw & 0x0080 != 0)
            &&& f.we_have_instructions == (raw & 0x0100 != 0)
            &&& f.use_my_metrics == (raw & 0x0200 != 0)
            &&& f.overlap_compound == (raw & 0x0400 != 0)
            &&& f.scaled_component_offset == (raw & 0x0800 != 0)
            &&& f.unscaled_component_offset == (raw & 0x1000 != 0)
        }),
{
    assert({
        &&& (raw % 2 == 1) == (raw & 0x0001 != 0)
        &&& ((raw / 2) % 2 == 1) == (raw & 0x0002 != 0)
        &&& ((raw / 4) % 2 == 1) == (raw & 0x0004 != 0)
        &&& ((raw / 8) % 2 == 1) == (raw & 0x0008 != 0)
        &&& ((raw / 0x20) % 2 == 1) == (raw & 0x0020 != 0)
        &&& ((raw / 0x40) % 2 == 1) == (raw & 0x0040 != 0)
        &&& ((raw / 0x80) % 2 == 1) == (raw & 0x0080 != 0)
        &&& ((raw / 0x100) % 2 == 1) == (raw & 0x0100 != 0)
        &&& ((raw / 0x200) % 2 == 1) == (raw & 0x0200 != 0)
        &&& ((raw / 0x400) % 2 == 1) == (raw & 0x0400 != 0)
        &&& ((raw / 0x800) % 2 == 1) == (raw & 0x0800 != 0)
        &&& ((raw / 0x1000) % 2 == 1) == (raw & 0x1000 != 0)
    }) by (bit_vector);
}

/// A component's fields come from its own bytes: the flags word at `p`,
/// the glyph index at `p + 2`, then two arguments from `p + 4`. The
/// arguments are words when bit 0 of the flags is set and bytes otherwise,
/// and signed (x and y offsets) when bit 1 is set, unsigned (point numbers)
/// otherwise. Right after the arguments comes the transformation: one
/// scale word when bit 3 is set, else x and y scale words when bit 6 is,
/// else four matrix words when bit 7 is, else none.
pub proof fn lemma_component_fields(s: Seq<u8>, p: int)
    ensures
        spec_component(s, p) matches Some((c, end)) ==> {
            let raw = u16_at(s, p);
            let words = raw & 0x0001 != 0;
            let xy = raw & 0x0002 != 0;
            let q = if words {
                p + 8
            } else {
                p + 6
            };
            &&& raw == crate::bytes::word_at(s, p)
            &&& c.glyph_index == crate::bytes::word_at(s, p + 2)
            &&& (words && xy ==> (c.argument1 matches GlyfArg::Int16(a) && a
                == crate::bytes::signed_word_at(s, p + 4)) && (c.argument2 matches GlyfArg::Int16(b)
                && b == crate::bytes::signed_word_at(s, p + 6)))
            &&& (words && !xy ==> (c.argument1 matches GlyfArg::Uint16(a) && a
                == crate::bytes::word_at(s, p + 4)) && (c.argument2 matches GlyfArg::Uint16(b) && b
                == crate::bytes::word_at(s, p + 6)))
            &&& (!words && xy ==> (c.argument1 matches GlyfArg::Int8(a) && a
                == crate::bytes::signed_byte(s[p + 4])) && (c.argument2 matches GlyfArg::Int8(b)
                && b == crate::bytes::signed_byte(s[p + 5])))
            &&& (!words && !xy ==> (c.argument1 matches GlyfArg::Uint8(a) && a == s[p + 4]) && (
            c.argument2 matches GlyfArg::Uint8(b) && b == s[p + 5]))
            &&& (raw & 0x0008 != 0 ==> end == q + 2 && (c.scale matches Some(GlyfScale::Scale(a)) && a.0
                == crate::bytes::word_at(s, q)))
            &&& (raw & 0x0008 == 0 && raw & 0x0040 != 0 ==> end == q + 4 && (c.scale matches Some(
                GlyfScale::XY { x_scale, y_scale },
            ) && x_scale.0 == crate::bytes::word_at(s, q) && y_scale.0 == crate::bytes::word_at(s, q + 2)))
            &&& (raw & 0x0008 == 0 && raw & 0x0040 == 0 && raw & 0x0080 != 0 ==> end == q + 8 && (
            c.scale matches Some(GlyfScale::Matrix((a, b), (c2, d))) && a.0 == crate::bytes::word_at(s, q)
                && b.0 == crate::bytes::word_at(s, q + 2) && c2.0 == crate::bytes::word_at(s, q + 4) && d.0
                == crate::bytes::word_at(s, q + 6)))
            &&& (raw & 0x0008 == 0 && raw & 0x0040 == 0 && raw & 0x0080 == 0 ==> end == q && c.scale is None)
        },
{
    if let Some((c, end)) = spec_component(s, p) {
        let q = p + 4 + 2 * (if c.flags.arg_1_and_2_are_words { 2int } else { 1int });
        if scale_size(c.flags) >= 2 {
            crate::bytes::lemma_readers_spell(s, q);
        }
        if scale_size(c.flags) >= 4 {
            crate::bytes::lemma_readers_spell(s, q + 2);
        }
        if scale_size(c.flags) >= 8 {
            crate::bytes::lemma_readers_spell(s, q + 4);
            crate::bytes::lemma_readers_spell(s, q + 6);
        }
        let raw = u16_at(s, p);
        lemma_composite_flag_bits(raw);
        crate::bytes::lemma_readers_spell(s, p);
        crate::bytes::lemma_readers_spell(s, p + 2);
        if c.flags.arg_1_and_2_are_words {
            crate::bytes::lemma_readers_spell(s, p + 4);
            crate::bytes::lemma_readers_spell(s, p + 6);
        } else {
            crate::bytes::lemma_readers_spell(s, p + 4);
        }
    }
}


/// Each point flag is set exactly when its bit of the flag byte is: bit 0
/// on curve, 1 x short, 2 y short, 4 x same or positive, 5 y same or
/// positive, 6 overlap.
pub proof fn lemma_flag_set_bits(b: u8)
    ensures
        ({
            let f = flag_set(b);
            &&& f.on_curve_point == (b & 0x01 != 0)
            &&& f.x_short_vector == (b & 0x02 != 0)
            &&& f.y_short_vector == (b & 0x04 != 0)
            &&& f.x_is_same_or_positive_x_short_vector == (b & 0x10 != 0)
            &&& f.y_is_same_or_positive_y_short_vector == (b & 0x20 != 0)
            &&& f.overlap_simple == (b & 0x40 != 0)
        }),
{
    assert({
        &&& (b % 2 == 1) == (b & 0x01 != 0)
        &&& ((b / 2) % 2 == 1) == (b & 0x02 != 0)
        &&& ((b / 4) % 2 == 1) == (b & 0x04 != 0)
        &&& ((b / 16) % 2 == 1) == (b & 0x10 != 0)
        &&& ((b / 32) % 2 == 1) == (b & 0x20 != 0)
        &&& ((b / 64) % 2 == 1) == (b & 0x40 != 0)
    }) by (bit_vector);
}

/// A coordinate delta is the byte at `p` for a short vector, positive when
/// the `same` bit is set and negative otherwise; nothing (zero) for a
/// repeated coordinate; and otherwise the signed word at `p`.
pub proof fn lemma_coord_value(s: Seq<u8>, p: int, short: bool, same: bool)
    requires
        0 <= p && p + coord_size(short, same) <= s.len(),
    ensures
        short && same ==> coord_value(s, p, short, same) == s[p],
        short && !same ==> coord_value(s, p, short, same) == -(s[p] as int),
        !short && same ==> coord_value(s, p, short, same) == 0,
        !short && !same ==> coord_value(s, p, short, same) == crate::bytes::signed_word_at(s, p),
{
    if !short && !same {
        crate::bytes::lemma_readers_spell(s, p);
    }
}

/// A glyph's header fields are the signed words at `p` to `p + 8`: the
/// contour count and the bounding box; a zero count is a bare header, a
/// positive one a simple glyph and a negative one a composite glyph.
pub proof fn lemma_glyph_header(s: Seq<u8>, p: int)
    ensures
        spec_glyph(s, p) matches Some((g, _)) ==> {
            &&& g.number_of_contours == crate::bytes::signed_word_at(s, p)
            &&& g.x_min == crate::bytes::signed_word_at(s, p + 2)
            &&& g.y_min == crate::bytes::signed_word_at(s, p + 4)
            &&& g.x_max == crate::bytes::signed_word_at(s, p + 6)
            &&& g.y_max == crate::bytes::signed_word_at(s, p + 8)
            &&& (g.number_of_contours == 0 <==> g.description is HeaderOnly)
            &&& (g.number_of_contours > 0 <==> g.description is Simple)
            &&& (g.number_of_contours < 0 <==> g.description is Composite)
        },
{
    if let Some((g, _)) = spec_glyph(s, p) {
        crate::bytes::lemma_readers_spell(s, p);
        crate::bytes::lemma_readers_spell(s, p + 2);
        crate::bytes::lemma_readers_spell(s, p + 4);
        crate::bytes::lemma_readers_spell(s, p + 6);
        crate::bytes::lemma_readers_spell(s, p + 8);
    }
}

/// The offsets of a `loca` table are the words (format 0, standing for
/// twice their value) or double words (format 1) at the start of the table,
/// one per glyph and one more.
pub proof fn lemma_loca_offsets(t: Seq<u8>, num_glyphs: u16, index_to_loc_format: u16)
    ensures
        spec_loca_table(t, num_glyphs, index_to_loc_format) matches Some((offs, _)) ==> {
            let b = byte_offsets(offs);
            &&& b.len() == num_glyphs + 1
            &&& (index_to_loc_format == 0 ==> forall|i: int|
                0 <= i <= num_glyphs ==> #[trigger] b[i] == 2 * crate::bytes::word_at(t, 2 * i))
            &&& (index_to_loc_format == 1 ==> forall|i: int|
                0 <= i <= num_glyphs ==> #[trigger] b[i] == crate::bytes::dword_at(t, 4 * i))
        },
{
    if let Some((offs, _)) = spec_loca_table(t, num_glyphs, index_to_loc_format) {
        let b = byte_offsets(offs);
        if index_to_loc_format == 0 {
            assert forall|i: int| 0 <= i <= num_glyphs implies #[trigger] b[i] == 2 * crate::bytes::word_at(
                t,
                2 * i,
            ) by {
                crate::bytes::lemma_readers_spell(t, 2 * i);
            }
        } else {
            assert forall|i: int| 0 <= i <= num_glyphs implies #[trigger] b[i] == crate::bytes::dword_at(
                t,
                4 * i,
            ) by {
                crate::bytes::lemma_dword_spells(t, 4 * i);
            }
        }
    }
}


/// A simple glyph's fields come from its bytes: one end point (a word) per
/// contour from `p`, the instruction length (a word) after them, that many
/// instruction bytes, and one point more than the last end point; then the
/// point flags, then all x deltas, then all y deltas.
pub proof fn lemma_simple_glyph_fields(s: Seq<u8>, p: int, n: u16)
    ensures
        spec_simple_glyph(s, p, n) matches Some((g, _)) ==> {
            let q = p + 2 * n;
            &&& g.end_points_of_contour.len() == n
            &&& forall|i: int| 0 <= i < n ==> #[trigger] g.end_points_of_contour[i]
                == crate::bytes::word_at(s, p + 2 * i)
            &&& g.instruction_length == crate::bytes::word_at(s, q)
            &&& g.instructions == s.subrange(q + 2, q + 2 + crate::bytes::word_at(s, q))
            &&& g.number_of_coordinates == crate::bytes::word_at(s, p + 2 * (n - 1)) + 1
            &&& (spec_flags(s, q + 2 + g.instruction_length, 0, g.number_of_coordinates as int) matches Some((fl, r2))
                && fl == g.flags && (spec_coords(s, r2, fl, 0, true) matches Some((xs, r3)) && xs
                == g.x_coordinates && (spec_coords(s, r3, fl, 0, false) matches Some((ys, _)) && ys
                == g.y_coordinates)))
        },
{
    if let Some((g, _)) = spec_simple_glyph(s, p, n) {
        let q = p + 2 * n;
        crate::bytes::lemma_readers_spell(s, q);
        crate::bytes::lemma_readers_spell(s, p + 2 * (n - 1));
        assert forall|i: int| 0 <= i < n implies #[trigger] g.end_points_of_contour[i]
            == crate::bytes::word_at(s, p + 2 * i) by {
            crate::bytes::lemma_readers_spell(s, p + 2 * i);
        }
    }
}

/// How point flags repeat: while points are still wanted, a flag byte
/// without bit 3 (0x08) stands for one point and the next flag byte follows
/// it; with bit 3 the byte after it counts extra repetitions, so the byte
/// stands for that many points plus one, and the next flag byte follows the
/// count.
pub proof fn lemma_flags_repeat(s: Seq<u8>, p: int, total: int, n: int)
    requires
        total < n,
        0 <= p < s.len(),
    ensures
        s[p] & 0x08 == 0 && total + 1 <= 0xffff ==> spec_flags(s, p, total, n)
            == crate::bytes::prepend_parsed(seq![flag_set(s[p])], spec_flags(s, p + 1, total + 1, n)),
        s[p] & 0x08 != 0 && p + 1 < s.len() && total + s[p + 1] + 1 <= 0xffff ==> spec_flags(s, p, total, n)
            == crate::bytes::prepend_parsed(
            Seq::new((s[p + 1] + 1) as nat, |_i: int| flag_set(s[p])),
            spec_flags(s, p + 2, total + s[p + 1] + 1, n),
        ),
{
    let b = s[p];
    assert(((b / 8) % 2 == 1) == (b & 0x08 != 0)) by (bit_vector);
    if b & 0x08 == 0 {
        assert(Seq::new(1, |_i: int| flag_set(b)) =~= seq![flag_set(b)]);
    }
}

/// Each coordinate delta is read by its own point's bits for its own axis:
/// the x short-vector and x same bits for x, the y ones for y; the deltas
/// of the following points come right after it.
pub proof fn lemma_coords_axis(s: Seq<u8>, p: int, flags: Seq<FlagSet>, i: int, is_x: bool)
    requires
        0 <= i < flags.len(),
    ensures
        spec_coords(s, p, flags, i, is_x) matches Some((c, e)) ==> {
            let short = if is_x {
                flags[i].x_short_vector
            } else {
                flags[i].y_short_vector
            };
            let same = if is_x {
                flags[i].x_is_same_or_positive_x_short_vector
            } else {
                flags[i].y_is_same_or_positive_y_short_vector
            };
            &&& c.len() >= 1
            &&& c[0] == coord_value(s, p, short, same)
            &&& 0 <= p && p + coord_size(short, same) <= s.len()
            &&& spec_coords(s, p + coord_size(short, same), flags, i + 1, is_x) == Some((c.drop_first(), e))
        },
{
    if let Some((c, e)) = spec_coords(s, p, flags, i, is_x) {
        let (short, same) = axis_bits(flags[i], is_x);
        let (rest, e2) = spec_coords(s, p + coord_size(short, same), flags, i + 1, is_x).unwrap();
        assert(c.drop_first() =~= rest);
    }
}

} // verus!
