//! The framing of a gzip member (RFC 1952): the fixed header, the optional
//! fields that its flags announce, and the trailing footer. The compressed
//! data between them is a deflate stream, which this module does not read.
use vstd::prelude::*;
use vstd::slice::{slice_subrange, slice_to_vec};
use crate::bytes::{agrees, avail, prepend_parsed, get_u16le, get_u32le, get_u8, has_bytes, u16le_at, u32le_at};

verus! {

/// The five defined flags of a gzip header; the three high bits are
/// reserved and must be zero.
#[derive(Clone, Copy, Debug, PartialEq, Eq)]
pub struct GzipFlags {
    pub fcomment: bool,
    pub fname: bool,
    pub fextra: bool,
    pub fhcrc: bool,
    pub ftext: bool,
}

/// The fixed ten-byte header of a member (after its `1f 8b` magic).
#[derive(Clone, Copy, Debug, PartialEq, Eq)]
pub struct GzipHeader {
    pub method: u8,
    pub file_flags: GzipFlags,
    pub timestamp: u32,
    pub compression_flags: u8,
    pub os_id: u8,
}

/// One subfield of the extra field: two identifier characters, a length
/// and that many bytes of data.
#[derive(Clone, Debug, PartialEq, Eq)]
pub struct FextraSubfield {
    pub si1: u8,
    pub si2: u8,
    pub len: u16,
    pub data: Vec<u8>,
}

/// Mathematical form of `FextraSubfield`.
pub struct SpecFextraSubfield {
    pub si1: u8,
    pub si2: u8,
    pub len: u16,
    pub data: Seq<u8>,
}

impl View for FextraSubfield {
    type V = SpecFextraSubfield;

    open spec fn view(&self) -> SpecFextraSubfield {
        SpecFextraSubfield { si1: self.si1, si2: self.si2, len: self.len, data: self.data@ }
    }
}

/// The views of a sequence of subfields.
pub open spec fn subfields_view(v: Seq<FextraSubfield>) -> Seq<SpecFextraSubfield> {
    v.map_values(|f: FextraSubfield| f@)
}

/// The extra field: its byte length and the subfields that fill it.
#[derive(Clone, Debug, PartialEq, Eq)]
pub struct Fextra {
    pub xlen: u16,
    pub subfields: Vec<FextraSubfield>,
}

/// Mathematical form of `Fextra`.
pub struct SpecFextra {
    pub xlen: u16,
    pub subfields: Seq<SpecFextraSubfield>,
}

impl View for Fextra {
    type V = SpecFextra;

    open spec fn view(&self) -> SpecFextra {
        SpecFextra { xlen: self.xlen, subfields: subfields_view(self.subfields@) }
    }
}

/// Everything of a member that precedes its compressed data.
#[derive(Clone, Debug, PartialEq, Eq)]
pub struct GzipMemberHead {
    pub header: GzipHeader,
    pub fextra: Option<Fextra>,
    pub fname: Option<Vec<u8>>,
    pub fcomment: Option<Vec<u8>>,
    pub fhcrc: Option<u16>,
}

/// Mathematical form of `GzipMemberHead`.
pub struct SpecGzipMemberHead {
    pub header: GzipHeader,
    pub fextra: Option<SpecFextra>,
    pub fname: Option<Seq<u8>>,
    pub fcomment: Option<Seq<u8>>,
    pub fhcrc: Option<u16>,
}

impl View for GzipMemberHead {
    type V = SpecGzipMemberHead;

    open spec fn view(&self) -> SpecGzipMemberHead {
        SpecGzipMemberHead {
            header: self.header,
            fextra: match self.fextra {
                Some(f) => Some(f@),
                None => None,
            },
            fname: match self.fname {
                Some(v) => Some(v@),
                None => None,
            },
            fcomment: match self.fcomment {
                Some(v) => Some(v@),
                None => None,
            },
            fhcrc: self.fhcrc,
        }
    }
}

/// The footer of a member: the CRC-32 and the length (mod 2^32) of the
/// uncompressed data.
#[derive(Clone, Copy, Debug, PartialEq, Eq)]
pub struct GzipFooter {
    pub crc: u32,
    pub length: u32,
}

impl View for GzipHeader {
    type V = GzipHeader;

    open spec fn view(&self) -> GzipHeader {
        *self
    }
}

impl View for GzipFooter {
    type V = GzipFooter;

    open spec fn view(&self) -> GzipFooter {
        *self
    }
}

/// The flags of a flag byte, bit 4 down to bit 0.
pub open spec fn gzip_flags(b: u8) -> GzipFlags {
    GzipFlags {
        fcomment: (b / 16) % 2 == 1,
        fname: (b / 8) % 2 == 1,
        fextra: (b / 4) % 2 == 1,
        fhcrc: (b / 2) % 2 == 1,
        ftext: b % 2 == 1,
    }
}

/// The fixed header at `pos`: the magic bytes `1f 8b`, the method, a flag
/// byte whose three reserved bits are zero, the little-endian modification
/// time, the extra flags and the operating system.
pub open spec fn spec_gzip_header(s: Seq<u8>, pos: int) -> Option<(GzipHeader, int)> {
    if avail(s, pos, 10) && s[pos] == 0x1f && s[pos + 1] == 0x8b && s[pos + 3] < 0x20 {
        Some((GzipHeader {
            method: s[pos + 2],
            file_flags: gzip_flags(s[pos + 3]),
            timestamp: u32le_at(s, pos + 4),
            compression_flags: s[pos + 8],
            os_id: s[pos + 9],
        }, pos + 10))
    } else {
        None
    }
}

/// The subfields filling `p..end` exactly: each has two ASCII identifier
/// bytes, a little-endian length and that many data bytes, all within `end`.
pub open spec fn spec_subfields(s: Seq<u8>, p: int, end: int) -> Option<Seq<SpecFextraSubfield>>
    decreases end - p,
{
    if p == end && 0 <= p <= s.len() {
        Some(Seq::empty())
    } else if 0 <= p && p + 4 <= end && end <= s.len() && s[p] < 0x80 && s[p + 1] < 0x80 {
        let len = u16le_at(s, p + 2);
        let q = p + 4 + len;
        if q <= end {
            let f = SpecFextraSubfield {
                si1: s[p],
                si2: s[p + 1],
                len,
                data: s.subrange(p + 4, q),
            };
            match spec_subfields(s, q, end) {
                Some(rest) => Some(seq![f] + rest),
                None => None,
            }
        } else {
            None
        }
    } else {
        None
    }
}

/// The extra field at `pos`: its little-endian length, then subfields that
/// fill exactly that many bytes.
pub open spec fn spec_fextra(s: Seq<u8>, pos: int) -> Option<(SpecFextra, int)> {
    if !avail(s, pos, 2) {
        None
    } else {
        let xlen = u16le_at(s, pos);
        let end = pos + 2 + xlen;
        match spec_subfields(s, pos + 2, end) {
            Some(subs) => Some((SpecFextra { xlen, subfields: subs }, end)),
            None => None,
        }
    }
}

/// The position of the first zero byte at or after `p`.
pub open spec fn first_zero(s: Seq<u8>, p: int) -> Option<int>
    decreases s.len() - p,
{
    if p < 0 || p >= s.len() {
        None
    } else if s[p] == 0 {
        Some(p)
    } else {
        first_zero(s, p + 1)
    }
}

/// A zero-terminated string at `p`: the bytes before the first zero, and
/// the position after that zero.
pub open spec fn spec_asciiz(s: Seq<u8>, p: int) -> Option<(Seq<u8>, int)> {
    match first_zero(s, p) {
        Some(k) => Some((s.subrange(p, k), k + 1)),
        None => None,
    }
}

/// The part of a member before its compressed data: the header, then, each
/// only where its flag is set, the extra field, the file name, the comment
/// and the header CRC-16. Yields the position where the data begins.
pub open spec fn spec_member_head(s: Seq<u8>, pos: int) -> Option<(SpecGzipMemberHead, int)> {
    match spec_gzip_header(s, pos) {
        None => None,
        Some((h, p0)) => {
            let fx = if h.file_flags.fextra {
                match spec_fextra(s, p0) {
                    Some((f, e)) => Some((Some(f), e)),
                    None => None,
                }
            } else {
                Some((None, p0))
            };
            match fx {
                None => None,
                Some((fextra, p1)) => {
                    let fnm = if h.file_flags.fname {
                        match spec_asciiz(s, p1) {
                            Some((n, e)) => Some((Some(n), e)),
                            None => None,
                        }
                    } else {
                        Some((None, p1))
                    };
                    match fnm {
                        None => None,
                        Some((fname, p2)) => {
                            let fcm = if h.file_flags.fcomment {
                                match spec_asciiz(s, p2) {
                                    Some((c, e)) => Some((Some(c), e)),
                                    None => None,
                                }
                            } else {
                                Some((None, p2))
                            };
                            match fcm {
                                None => None,
                                Some((fcomment, p3)) => {
                                    if h.file_flags.fhcrc && !avail(s, p3, 2) {
                                        None
                                    } else {
                                        let fhcrc = if h.file_flags.fhcrc {
                                            Some(u16le_at(s, p3))
                                        } else {
                                            None
                                        };
                                        let p4 = if h.file_flags.fhcrc {
                                            p3 + 2
                                        } else {
                                            p3
                                        };
                                        Some((SpecGzipMemberHead {
                                            header: h,
                                            fextra,
                                            fname,
                                            fcomment,
                                            fhcrc,
                                        }, p4))
                                    }
                                },
                            }
                        },
                    }
                },
            }
        },
    }
}

/// The footer at `pos`: two little-endian `u32`s.
pub open spec fn spec_gzip_footer(s: Seq<u8>, pos: int) -> Option<(GzipFooter, int)> {
    if avail(s, pos, 8) {
        Some((GzipFooter { crc: u32le_at(s, pos), length: u32le_at(s, pos + 4) }, pos + 8))
    } else {
        None
    }
}

/// Total number of bytes that a list of subfields takes: four header bytes
/// and the data of each.
pub open spec fn subfields_size(subs: Seq<SpecFextraSubfield>) -> int
    decreases subs.len(),
{
    if subs.len() == 0 {
        0
    } else {
        4 + subs[0].data.len() + subfields_size(subs.drop_first())
    }
}

/// Subfields that parse fill their area exactly, and each carries as many
/// data bytes as its length says.
pub proof fn lemma_subfields_fill(s: Seq<u8>, p: int, end: int)
    ensures
        spec_subfields(s, p, end) matches Some(subs) ==> subfields_size(subs) == end - p
            && forall|i: int| 0 <= i < subs.len() ==> #[trigger] subs[i].data.len() == subs[i].len,
    decreases end - p,
{
    if !(p == end && 0 <= p <= s.len()) && 0 <= p && p + 4 <= end && end <= s.len() && s[p] < 0x80
        && s[p + 1] < 0x80 {
        let len = u16le_at(s, p + 2);
        let q = p + 4 + len;
        if q <= end {
            lemma_subfields_fill(s, q, end);
            if let Some(rest) = spec_subfields(s, q, end) {
                let f = SpecFextraSubfield {
                    si1: s[p],
                    si2: s[p + 1],
                    len,
                    data: s.subrange(p + 4, q),
                };
                let all = seq![f] + rest;
                assert(all.drop_first() =~= rest);
                assert forall|i: int| 0 <= i < all.len() implies #[trigger] all[i].data.len()
                    == all[i].len by {
                    if i > 0 {
                        assert(all[i] == rest[i - 1]);
                    }
                }
            }
        }
    }
}

/// The extra field of a member takes `xlen` bytes after its length, all of
/// them filled by subfields.
pub proof fn lemma_fextra_fill(s: Seq<u8>, pos: int)
    ensures
        spec_fextra(s, pos) matches Some((f, e)) ==> e == pos + 2 + f.xlen && subfields_size(
            f.subfields,
        ) == f.xlen,
{
    if avail(s, pos, 2) {
        lemma_subfields_fill(s, pos + 2, pos + 2 + u16le_at(s, pos));
    }
}

/// Each optional part of a member is present exactly when its flag is set,
/// and a header with a reserved flag bit set is refused.
pub proof fn lemma_member_head_flags(s: Seq<u8>, pos: int)
    ensures
        spec_member_head(s, pos) matches Some((h, e)) ==> {
            &&& s[pos + 3] < 0x20
            &&& (h.fextra is Some <==> h.header.file_flags.fextra)
            &&& (h.fname is Some <==> h.header.file_flags.fname)
            &&& (h.fcomment is Some <==> h.header.file_flags.fcomment)
            &&& (h.fhcrc is Some <==> h.header.file_flags.fhcrc)
            &&& pos + 10 <= e <= s.len()
        },
        avail(s, pos, 10) && s[pos + 3] >= 0x20 ==> spec_member_head(s, pos) is None,
{
    if let Some((h, p0)) = spec_gzip_header(s, pos) {
        if h.file_flags.fextra {
            lemma_fextra_fill(s, p0);
        }
        let p1 = if h.file_flags.fextra {
            match spec_fextra(s, p0) {
                Some((f, e)) => e,
                None => p0,
            }
        } else {
            p0
        };
        if h.file_flags.fname {
            lemma_first_zero_bound(s, p1);
        }
        if let Some((_, p2)) = (if h.file_flags.fname {
            match spec_asciiz(s, p1) {
                Some((n, e)) => Some((Some(n), e)),
                None => None,
            }
        } else {
            Some((None::<Seq<u8>>, p1))
        }) {
            if h.file_flags.fcomment {
                lemma_first_zero_bound(s, p2);
            }
        }
    }
}

/// The first zero at or after `p`, if any, lies in `p..s.len()`.
pub proof fn lemma_first_zero_bound(s: Seq<u8>, p: int)
    ensures
        first_zero(s, p) matches Some(k) ==> p <= k < s.len() && s[k] == 0,
    decreases s.len() - p,
{
    if 0 <= p < s.len() && s[p] != 0 {
        lemma_first_zero_bound(s, p + 1);
    }
}

/// Parses the fixed header of a member at `pos`, refusing a wrong magic or a
/// flag byte with a reserved bit set.
pub fn gzip_header(s: &[u8], pos: usize) -> (r: Option<(GzipHeader, usize)>)
    ensures
        agrees(r, spec_gzip_header(s@, pos as int)),
{
    if !has_bytes(s, pos, 10) {
        return None;
    }
    let flags = get_u8(s, pos + 3);
    if get_u8(s, pos) != 0x1f || get_u8(s, pos + 1) != 0x8b || flags >= 0x20 {
        return None;
    }
    let file_flags = GzipFlags {
        fcomment: (flags / 16) % 2 == 1,
        fname: (flags / 8) % 2 == 1,
        fextra: (flags / 4) % 2 == 1,
        fhcrc: (flags / 2) % 2 == 1,
        ftext: flags % 2 == 1,
    };
    let h = GzipHeader {
        method: get_u8(s, pos + 2),
        file_flags,
        timestamp: get_u32le(s, pos + 4),
        compression_flags: get_u8(s, pos + 8),
        os_id: get_u8(s, pos + 9),
    };
    Some((h, pos + 10))
}

/// Parses the subfields that fill `start..end` exactly.
fn subfields(s: &[u8], start: usize, end: usize) -> (r: Option<Vec<FextraSubfield>>)
    requires
        start <= end <= s@.len(),
    ensures
        match r {
            Some(v) => spec_subfields(s@, start as int, end as int) == Some(subfields_view(v@)),
            None => spec_subfields(s@, start as int, end as int) is None,
        },
{
    let mut v: Vec<FextraSubfield> = Vec::new();
    let mut p = start;
    assert(subfields_view(v@) =~= Seq::<SpecFextraSubfield>::empty());
    while p < end
        invariant
            start <= p <= end <= s@.len(),
            match spec_subfields(s@, p as int, end as int) {
                Some(rest) => spec_subfields(s@, start as int, end as int) == Some(
                    subfields_view(v@) + rest,
                ),
                None => spec_subfields(s@, start as int, end as int) is None,
            },
        decreases end - p,
    {
        if end - p < 4 || get_u8(s, p) >= 0x80 || get_u8(s, p + 1) >= 0x80 {
            return None;
        }
        let len = get_u16le(s, p + 2);
        if (len as usize) > end - p - 4 {
            return None;
        }
        let q = p + 4 + len as usize;
        let data = slice_to_vec(slice_subrange(s, p + 4, q));
        let f = FextraSubfield { si1: get_u8(s, p), si2: get_u8(s, p + 1), len, data };
        let ghost old_v = v@;
        proof {
            match spec_subfields(s@, q as int, end as int) {
                Some(rest) => {
                    assert(spec_subfields(s@, p as int, end as int) == Some(seq![f@] + rest));
                    assert(subfields_view(old_v) + (seq![f@] + rest) =~= subfields_view(
                        old_v.push(f),
                    ) + rest);
                },
                None => {},
            }
        }
        v.push(f);
        p = q;
    }
    assert(spec_subfields(s@, p as int, end as int) == Some(Seq::<SpecFextraSubfield>::empty()));
    assert(subfields_view(v@) + Seq::<SpecFextraSubfield>::empty() =~= subfields_view(v@));
    Some(v)
}

/// Parses the extra field at `pos`.
pub fn fextra(s: &[u8], pos: usize) -> (r: Option<(Fextra, usize)>)
    ensures
        agrees(r, spec_fextra(s@, pos as int)),
{
    if !has_bytes(s, pos, 2) {
        return None;
    }
    let xlen = get_u16le(s, pos);
    if (xlen as usize) > s.len() - pos - 2 {
        proof {
            let end = pos + 2 + xlen;
            // A subfield list never reaches beyond the end of the buffer.
            assert(spec_subfields(s@, pos + 2, end) is None) by {
                reveal_with_fuel(spec_subfields, 1);
            }
        }
        return None;
    }
    let end = pos + 2 + xlen as usize;
    match subfields(s, pos + 2, end) {
        Some(v) => Some((Fextra { xlen, subfields: v }, end)),
        None => None,
    }
}

/// Parses a zero-terminated string at `p`.
pub fn asciiz(s: &[u8], p: usize) -> (r: Option<(Vec<u8>, usize)>)
    ensures
        agrees(r, spec_asciiz(s@, p as int)),
{
    let mut k = p;
    while k < s.len()
        invariant
            p <= k,
            first_zero(s@, p as int) == first_zero(s@, k as int),
        decreases s@.len() - k,
    {
        if get_u8(s, k) == 0 {
            let v = slice_to_vec(slice_subrange(s, p, k));
            return Some((v, k + 1));
        }
        k = k + 1;
    }
    None
}

/// Parses everything of a member that precedes its compressed data, and
/// yields the position where that data begins.
pub fn member_head(s: &[u8], pos: usize) -> (r: Option<(GzipMemberHead, usize)>)
    ensures
        agrees(r, spec_member_head(s@, pos as int)),
{
    let (header, p0) = match gzip_header(s, pos) {
        Some(r) => r,
        None => return None,
    };
    let (fx, p1) = if header.file_flags.fextra {
        match fextra(s, p0) {
            Some((f, e)) => (Some(f), e),
            None => return None,
        }
    } else {
        (None, p0)
    };
    let (fname, p2) = if header.file_flags.fname {
        match asciiz(s, p1) {
            Some((n, e)) => (Some(n), e),
            None => return None,
        }
    } else {
        (None, p1)
    };
    let (fcomment, p3) = if header.file_flags.fcomment {
        match asciiz(s, p2) {
            Some((c, e)) => (Some(c), e),
            None => return None,
        }
    } else {
        (None, p2)
    };
    let (fhcrc, p4) = if header.file_flags.fhcrc {
        if !has_bytes(s, p3, 2) {
            return None;
        }
        (Some(get_u16le(s, p3)), p3 + 2)
    } else {
        (None, p3)
    };
    Some((GzipMemberHead { header, fextra: fx, fname, fcomment, fhcrc }, p4))
}

/// Parses the footer of a member at `pos`.
pub fn gzip_footer(s: &[u8], pos: usize) -> (r: Option<(GzipFooter, usize)>)
    ensures
        agrees(r, spec_gzip_footer(s@, pos as int)),
{
    if !has_bytes(s, pos, 8) {
        return None;
    }
    Some((GzipFooter { crc: get_u32le(s, pos), length: get_u32le(s, pos + 4) }, pos + 8))
}


/// A whole member: what precedes the compressed data, the compressed data
/// itself (a deflate stream, kept as its bytes) and the footer.
#[derive(Clone, Debug, PartialEq, Eq)]
pub struct GzipMember {
    pub head: GzipMemberHead,
    pub data: Vec<u8>,
    pub footer: GzipFooter,
}

/// Mathematical form of `GzipMember`.
pub struct SpecGzipMember {
    pub head: SpecGzipMemberHead,
    pub data: Seq<u8>,
    pub footer: GzipFooter,
}

impl View for GzipMember {
    type V = SpecGzipMember;

    open spec fn view(&self) -> SpecGzipMember {
        SpecGzipMember { head: self.head@, data: self.data@, footer: self.footer }
    }
}

/// The member at `pos` whose compressed data, as the deflate stream that
/// starts after the head has measured it, takes `data_len` bytes: the head,
/// those bytes, and the footer after them.
pub open spec fn spec_gzip_member(s: Seq<u8>, pos: int, data_len: int) -> Option<(SpecGzipMember, int)> {
    match spec_member_head(s, pos) {
        None => None,
        Some((head, d)) => if data_len < 0 || !avail(s, d, data_len) {
            None
        } else {
            match spec_gzip_footer(s, d + data_len) {
                None => None,
                Some((footer, e)) => Some((
                    SpecGzipMember { head, data: s.subrange(d, d + data_len), footer },
                    e,
                )),
            }
        },
    }
}

/// Parses the member at `pos`, given the byte length of its compressed
/// data.
pub fn gzip_member(s: &[u8], pos: usize, data_len: usize) -> (r: Option<(GzipMember, usize)>)
    ensures
        agrees(r, spec_gzip_member(s@, pos as int, data_len as int)),
{
    let (head, d) = match member_head(s, pos) {
        Some(r) => r,
        None => return None,
    };
    if !has_bytes(s, d, data_len) {
        return None;
    }
    let data = slice_to_vec(slice_subrange(s, d, d + data_len));
    match gzip_footer(s, d + data_len) {
        None => None,
        Some((footer, e)) => Some((GzipMember { head, data, footer }, e)),
    }
}

/// A member ends eight bytes (the footer) after its compressed data, which
/// follows its head directly and holds exactly the bytes it was measured
/// to take.
pub proof fn lemma_member_layout(s: Seq<u8>, pos: int, data_len: int)
    requires
        spec_gzip_member(s, pos, data_len) is Some,
    ensures
        ({
            let (m, e) = spec_gzip_member(s, pos, data_len).unwrap();
            let d = spec_member_head(s, pos).unwrap().1;
            &&& m.data.len() == data_len
            &&& m.data == s.subrange(d, d + data_len)
            &&& e == d + data_len + 8
            &&& pos + 10 <= d <= e <= s.len()
        }),
{
    let (h, p0) = spec_gzip_header(s, pos).unwrap();
    let p1 = if h.file_flags.fextra {
        spec_fextra(s, p0).unwrap().1
    } else {
        p0
    };
    lemma_first_zero_bound(s, p1);
    let p2 = if h.file_flags.fname {
        spec_asciiz(s, p1).unwrap().1
    } else {
        p1
    };
    lemma_first_zero_bound(s, p2);
}


/// Members one after another from `pos`, the `i`-th and later of them with
/// compressed data of `lens[i]` bytes.
pub open spec fn spec_members_from(s: Seq<u8>, pos: int, lens: Seq<usize>, i: int) -> Option<
    (Seq<SpecGzipMember>, int),
>
    decreases lens.len() - i,
{
    if i < 0 || i >= lens.len() {
        Some((Seq::empty(), pos))
    } else {
        match spec_gzip_member(s, pos, lens[i] as int) {
            None => None,
            Some((m, e)) => match spec_members_from(s, e, lens, i + 1) {
                None => None,
                Some((rest, e2)) => Some((seq![m] + rest, e2)),
            },
        }
    }
}

/// The members of a gzip file, back to back from its start: one or more,
/// the compressed data of each taking the bytes that `lens` gives for it.
pub open spec fn spec_gzip_members(s: Seq<u8>, lens: Seq<usize>) -> Option<(Seq<SpecGzipMember>, int)> {
    if lens.len() == 0 {
        None
    } else {
        spec_members_from(s, 0, lens, 0)
    }
}

/// The views of a sequence of members.
pub open spec fn members_view(v: Seq<GzipMember>) -> Seq<SpecGzipMember> {
    v.map_values(|m: GzipMember| m@)
}

/// Parses the members of a gzip file from its start, one per entry of
/// `data_lens`, the byte length of that member's compressed data.
pub fn gzip_members(s: &[u8], data_lens: &[usize]) -> (r: Option<(Vec<GzipMember>, usize)>)
    ensures
        match r {
            Some((v, e)) => spec_gzip_members(s@, data_lens@) == Some((members_view(v@), e as int)),
            None => spec_gzip_members(s@, data_lens@) is None,
        },
{
    if data_lens.len() == 0 {
        return None;
    }
    let mut v: Vec<GzipMember> = Vec::new();
    let mut i: usize = 0;
    let mut p: usize = 0;
    assert(members_view(v@) =~= Seq::<SpecGzipMember>::empty());
    proof {
        if let Some((rest, _)) = spec_members_from(s@, 0, data_lens@, 0) {
            assert(Seq::<SpecGzipMember>::empty() + rest =~= rest);
        }
    }
    while i < data_lens.len()
        invariant
            0 <= i <= data_lens@.len(),
            spec_members_from(s@, 0, data_lens@, 0) == prepend_parsed(
                members_view(v@),
                spec_members_from(s@, p as int, data_lens@, i as int),
            ),
        decreases data_lens@.len() - i,
    {
        let (m, e) = match gzip_member(s, p, data_lens[i]) {
            Some(r) => r,
            None => return None,
        };
        let ghost old_v = members_view(v@);
        let ghost tail = spec_members_from(s@, e as int, data_lens@, i + 1);
        v.push(m);
        assert(members_view(v@) =~= old_v + seq![m@]);
        proof {
            if let Some((rest, _)) = tail {
                assert(old_v + (seq![m@] + rest) =~= (old_v + seq![m@]) + rest);
            }
        }
        i = i + 1;
        p = e;
    }
    assert(members_view(v@) + Seq::<SpecGzipMember>::empty() =~= members_view(v@));
    Some((v, p))
}


proof fn lemma_members_from(s: Seq<u8>, pos: int, lens: Seq<usize>, i: int)
    requires
        0 <= i <= lens.len(),
    ensures
        spec_members_from(s, pos, lens, i) matches Some((ms, _)) ==> ms.len() == lens.len() - i && forall|j: int|
            0 <= j < ms.len() ==> (#[trigger] ms[j]).data.len() == lens[i + j],
    decreases lens.len() - i,
{
    if i < lens.len() {
        if let Some((m, e)) = spec_gzip_member(s, pos, lens[i] as int) {
            lemma_member_layout(s, pos, lens[i] as int);
            lemma_members_from(s, e, lens, i + 1);
            if let Some((rest, _)) = spec_members_from(s, e, lens, i + 1) {
                let ms = seq![m] + rest;
                assert forall|j: int| 0 <= j < ms.len() implies (#[trigger] ms[j]).data.len() == lens[i + j] by {
                    if j > 0 {
                        assert(ms[j] == rest[j - 1]);
                    }
                }
            }
        }
    }
}

/// A gzip file holds one member per given data length, at least one, and
/// each member's compressed data is exactly as long as given for it.
pub proof fn lemma_members_count(s: Seq<u8>, lens: Seq<usize>)
    ensures
        spec_gzip_members(s, lens) matches Some((ms, _)) ==> ms.len() == lens.len() && ms.len() >= 1
            && forall|j: int| 0 <= j < ms.len() ==> (#[trigger] ms[j]).data.len() == lens[j],
{
    lemma_members_from(s, 0, lens, 0);
}


/// Each flag of a gzip header is set exactly when its bit of the flag byte
/// is: bit 0 text, 1 header CRC, 2 extra field, 3 name, 4 comment; and the
/// header's fields are its own bytes: method at 2, flags at 3, the
/// little-endian time at 4 to 7 (low byte first), extra flags at 8 and the
/// system at 9, after the magic `1f 8b`.
pub proof fn lemma_gzip_header_fields(s: Seq<u8>, pos: int)
    ensures
        ({
            let f = gzip_flags(s[pos + 3]);
            let b = s[pos + 3];
            &&& f.ftext == (b & 0x01 != 0)
            &&& f.fhcrc == (b & 0x02 != 0)
            &&& f.fextra == (b & 0x04 != 0)
            &&& f.fname == (b & 0x08 != 0)
            &&& f.fcomment == (b & 0x10 != 0)
        }),
        spec_gzip_header(s, pos) matches Some((h, e)) ==> {
            &&& e == pos + 10
            &&& s[pos] == 0x1f && s[pos + 1] == 0x8b
            &&& s[pos + 3] & 0xe0 == 0
            &&& h.method == s[pos + 2]
            &&& h.file_flags == gzip_flags(s[pos + 3])
            &&& h.timestamp == s[pos + 4] + 256 * s[pos + 5] + 65536 * s[pos + 6] + 16777216 * s[pos + 7]
            &&& h.compression_flags == s[pos + 8]
            &&& h.os_id == s[pos + 9]
        },
{
    let b = s[pos + 3];
    assert({
        &&& (b % 2 == 1) == (b & 0x01 != 0)
        &&& ((b / 2) % 2 == 1) == (b & 0x02 != 0)
        &&& ((b / 4) % 2 == 1) == (b & 0x04 != 0)
        &&& ((b / 8) % 2 == 1) == (b & 0x08 != 0)
        &&& ((b / 16) % 2 == 1) == (b & 0x10 != 0)
        &&& (b < 0x20) == (b & 0xe0 == 0)
    }) by (bit_vector);
}

/// A footer holds the CRC-32 and the length, each four bytes low byte
/// first.
pub proof fn lemma_gzip_footer_fields(s: Seq<u8>, pos: int)
    ensures
        spec_gzip_footer(s, pos) matches Some((f, e)) ==> {
            &&& e == pos + 8
            &&& f.crc == s[pos] + 256 * s[pos + 1] + 65536 * s[pos + 2] + 16777216 * s[pos + 3]
            &&& f.length == s[pos + 4] + 256 * s[pos + 5] + 65536 * s[pos + 6] + 16777216 * s[pos + 7]
        },
{
}


/// Each extra-field subfield holds its two identifier bytes, its length
/// (two bytes, low byte first) and that many data bytes, in that order.
pub proof fn lemma_subfield_fields(s: Seq<u8>, p: int, end: int)
    ensures
        spec_subfields(s, p, end) matches Some(subs) ==> (subs.len() > 0 ==> {
            let f = subs[0];
            &&& f.si1 == s[p]
            &&& f.si2 == s[p + 1]
            &&& f.len == s[p + 2] + 256 * s[p + 3]
            &&& f.data == s.subrange(p + 4, p + 4 + f.len)
        }),
{
}

} // verus!
