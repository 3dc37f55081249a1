//! Offset links: an offset field read at one position names the position,
//! relative to some base, where a sub-table is to be parsed. Following a
//! link never moves the reading position past the offset field itself.
use vstd::prelude::*;
use crate::bytes::{avail, get_u16be, get_u32be, has_bytes, u16_at, u32_at};

verus! {

/// An offset field together with the sub-table it leads to, where it leads
/// to one.
#[derive(Clone, Debug, PartialEq, Eq)]
pub struct Link16<T> {
    pub offset: u16,
    pub link: Option<T>,
}

/// A 32-bit offset field together with the sub-table it leads to, where it
/// leads to one.
#[derive(Clone, Debug, PartialEq, Eq)]
pub struct Link32<T> {
    pub offset: u32,
    pub link: Option<T>,
}

impl<T: View> View for Link16<T> {
    type V = Link16<T::V>;

    open spec fn view(&self) -> Link16<T::V> {
        Link16 {
            offset: self.offset,
            link: match self.link {
                Some(t) => Some(t@),
                None => None,
            },
        }
    }
}

impl<T: View> View for Link32<T> {
    type V = Link32<T::V>;

    open spec fn view(&self) -> Link32<T::V> {
        Link32 {
            offset: self.offset,
            link: match self.link {
                Some(t) => Some(t@),
                None => None,
            },
        }
    }
}

/// Decides whether content at `abs_offset` can be parsed from position
/// `here`: yields the offset when it lies at or after `here`, and `None`
/// (no linked content) when it has already been passed.
pub fn link_forward_checked(abs_offset: usize, here: usize) -> (r: Option<usize>)
    ensures
        r matches Some(t) ==> t == abs_offset,
        r is Some <==> abs_offset >= here,
{
    if abs_offset >= here {
        Some(abs_offset)
    } else {
        None
    }
}

/// Like `link_forward_checked`, but a passed offset is a parse failure:
/// `None` here means that the enclosing parse fails.
pub fn link_forward_unchecked(abs_offset: usize, here: usize) -> (r: Option<usize>)
    ensures
        r matches Some(t) ==> t == abs_offset,
        r is Some <==> abs_offset >= here,
{
    if here <= abs_offset {
        Some(abs_offset)
    } else {
        None
    }
}

/// What a 16-bit offset field at `pos` of `s`, relative to `base`, amounts
/// to: the offset and where its link points. A zero offset has no link, and
/// neither has one whose target does not lie strictly after the field (the
/// distance from the end of the field to the target is zero or negative).
/// `None` when the field cannot be read, or when the target lies beyond the
/// end of `s`, where no linked content can be parsed.
pub open spec fn spec_offset16(s: Seq<u8>, base: int, pos: int) -> Option<((u16, Option<int>), int)> {
    if !avail(s, pos, 2) {
        None
    } else {
        let off = u16_at(s, pos);
        let here = pos + 2;
        if off != 0 && base + off > here {
            if base + off <= s.len() {
                Some(((off, Some(base + off)), here))
            } else {
                None
            }
        } else {
            Some(((off, None), here))
        }
    }
}

/// What a 32-bit offset field at `pos` of `s`, relative to `base`, amounts
/// to. A zero offset has no link, and neither has one whose target does not
/// lie strictly after the field; a target beyond the end of `s` fails the
/// parse.
pub open spec fn spec_offset32(s: Seq<u8>, base: int, pos: int) -> Option<((u32, Option<int>), int)> {
    if !avail(s, pos, 4) {
        None
    } else {
        let off = u32_at(s, pos);
        let here = pos + 4;
        if off == 0 || base + off <= here {
            Some(((off, None), here))
        } else if base + off <= s.len() {
            Some(((off, Some(base + off)), here))
        } else {
            None
        }
    }
}

/// A 16-bit offset field takes two bytes whatever it links to; a zero
/// offset, or one whose target does not lie strictly after the field, links
/// to nothing; a link always points strictly after the field, at
/// `base + offset`, within `s`; and a non-zero offset that points strictly
/// after the field within `s` always links.
pub proof fn lemma_offset16_links_forward(s: Seq<u8>, base: int, pos: int)
    ensures
        spec_offset16(s, base, pos) matches Some(((off, link), e)) ==> {
            &&& e == pos + 2
            &&& off == u16_at(s, pos)
            &&& (off == 0 ==> link is None)
            &&& (link matches Some(x) ==> x == base + off && pos + 2 < x <= s.len())
            &&& (off != 0 && pos + 2 < base + off ==> link is Some)
        },
        avail(s, pos, 2) && (u16_at(s, pos) == 0 || base + u16_at(s, pos) <= pos + 2) ==> spec_offset16(
            s,
            base,
            pos,
        ) == Some(((u16_at(s, pos), None::<int>), pos + 2)),
{
}

/// A 32-bit offset field takes four bytes; a zero offset, or one whose
/// target does not lie strictly after the field, links to nothing; any
/// other offset links, to `base + offset`, strictly after the field and
/// within `s`, or fails when its target lies beyond `s`.
pub proof fn lemma_offset32_links(s: Seq<u8>, base: int, pos: int)
    ensures
        spec_offset32(s, base, pos) matches Some(((off, link), e)) ==> {
            &&& e == pos + 4
            &&& off == u32_at(s, pos)
            &&& (link is None <==> (off == 0 || base + off <= pos + 4))
            &&& (link matches Some(x) ==> x == base + off && pos + 4 < x <= s.len())
        },
        avail(s, pos, 4) && (u32_at(s, pos) == 0 || base + u32_at(s, pos) <= pos + 4) ==> spec_offset32(
            s,
            base,
            pos,
        ) == Some(((u32_at(s, pos), None::<int>), pos + 4)),
{
}

/// Executable result of an offset field agrees with the specified one.
pub open spec fn offset_agrees<O>(
    r: Option<(O, Option<usize>, usize)>,
    want: Option<((O, Option<int>), int)>,
) -> bool {
    match r {
        Some((o, t, n)) => want == Some(
            (
                (
                    o,
                    match t {
                        Some(x) => Some(x as int),
                        None => None,
                    },
                ),
                n as int,
            ),
        ),
        None => want is None,
    }
}

/// Reads a 16-bit offset at `pos`, relative to `base`, and resolves where it
/// links to (see `spec_offset16`).
pub fn offset16_nullable(s: &[u8], base: usize, pos: usize) -> (r: Option<(u16, Option<usize>, usize)>)
    ensures
        offset_agrees(r, spec_offset16(s@, base as int, pos as int)),
        r matches Some((_, Some(t), _)) ==> t <= s@.len(),
{
    if !has_bytes(s, pos, 2) {
        return None;
    }
    let off = get_u16be(s, pos);
    let here = pos + 2;
    if off != 0 && (here < off as usize || base > here - (off as usize)) {
        if base <= s.len() && (off as usize) <= s.len() - base {
            Some((off, Some(base + off as usize), here))
        } else {
            None
        }
    } else {
        Some((off, None, here))
    }
}

/// Reads a 16-bit offset that the format says is never null; a null
/// offset, or one not pointing strictly past the field, is nevertheless
/// tolerated and has no link, exactly as for `offset16_nullable`.
pub fn offset16_mandatory(s: &[u8], base: usize, pos: usize) -> (r: Option<(u16, Option<usize>, usize)>)
    ensures
        offset_agrees(r, spec_offset16(s@, base as int, pos as int)),
        r matches Some((_, Some(t), _)) ==> t <= s@.len(),
{
    offset16_nullable(s, base, pos)
}

/// Resolves a position given relative to `base`: the absolute position,
/// provided it is neither behind `here` nor beyond `len`.
pub fn linked_offset32(base: usize, rel_offset: u32, here: usize, len: usize) -> (r: Option<usize>)
    ensures
        r == if here <= base + rel_offset <= len {
            Some((base + rel_offset) as usize)
        } else {
            None::<usize>
        },
{
    if base <= len && (rel_offset as usize) <= len - base && here <= base + rel_offset as usize {
        Some(base + rel_offset as usize)
    } else {
        None
    }
}

/// Reads a 32-bit offset at `pos`, relative to `base`, and resolves where it
/// links to (see `spec_offset32`).
pub fn offset32(s: &[u8], base: usize, pos: usize) -> (r: Option<(u32, Option<usize>, usize)>)
    ensures
        offset_agrees(r, spec_offset32(s@, base as int, pos as int)),
        r matches Some((_, Some(t), _)) ==> t <= s@.len(),
{
    if !has_bytes(s, pos, 4) {
        return None;
    }
    let off = get_u32be(s, pos);
    let here = pos + 4;
    if off == 0 || (here >= off as usize && base <= here - (off as usize)) {
        Some((off, None, here))
    } else {
        match linked_offset32(base, off, here, s.len()) {
            Some(t) => Some((off, Some(t), here)),
            None => None,
        }
    }
}

} // verus!
