//! The font directory: table records, the lookup of a table by tag, the
//! bytes of a table, and the collection (`ttcf`) header.
use vstd::prelude::*;
use vstd::slice::slice_subrange;
use crate::bytes::{agrees, avail, be32, get_u16be, get_u32be, has_bytes, u16_at, u32_at};
use crate::opentype::links::{Link32, linked_offset32, offset32, spec_offset32};
use crate::opentype::tables::{spec_table_links, table_links, SpecTableLinks, TableLinks};

verus! {

/// One entry of the table directory.
#[derive(Clone, Copy, Debug, PartialEq, Eq)]
pub struct TableRecord {
    pub table_id: u32,
    pub checksum: u32,
    pub offset: u32,
    pub length: u32,
}

/// The table directory of a font: its version tag, the binary-search hints,
/// the table records and the tables they locate.
#[derive(Clone, Debug, PartialEq, Eq)]
pub struct TableDirectory {
    pub sfnt_version: u32,
    pub num_tables: u16,
    pub search_range: u16,
    pub entry_selector: u16,
    pub range_shift: u16,
    pub table_records: Vec<TableRecord>,
    pub table_links: TableLinks,
}

/// Mathematical form of `TableDirectory`.
pub struct SpecTableDirectory {
    pub sfnt_version: u32,
    pub num_tables: u16,
    pub search_range: u16,
    pub entry_selector: u16,
    pub range_shift: u16,
    pub table_records: Seq<TableRecord>,
    pub table_links: SpecTableLinks,
}

impl View for TableDirectory {
    type V = SpecTableDirectory;

    open spec fn view(&self) -> SpecTableDirectory {
        SpecTableDirectory {
            sfnt_version: self.sfnt_version,
            num_tables: self.num_tables,
            search_range: self.search_range,
            entry_selector: self.entry_selector,
            range_shift: self.range_shift,
            table_records: self.table_records@,
            table_links: self.table_links@,
        }
    }
}

/// The `u32` spelled by the four characters of a tag.
pub open spec fn tag(a: char, b: char, c: char, d: char) -> u32 {
    be32(a as u8, b as u8, c as u8, d as u8)
}

/// The accepted font versions: TrueType outlines (`0x00010000`), CFF
/// outlines (`OTTO`) and Apple's `true`.
pub open spec fn is_sfnt_version(v: u32) -> bool {
    v == 0x0001_0000 || v == tag('O', 'T', 'T', 'O') || v == tag('t', 'r', 'u', 'e')
}

/// The table record stored at `p`.
pub open spec fn table_record_at(s: Seq<u8>, p: int) -> TableRecord {
    TableRecord {
        table_id: u32_at(s, p),
        checksum: u32_at(s, p + 4),
        offset: u32_at(s, p + 8),
        length: u32_at(s, p + 12),
    }
}

/// The table directory at `pos` of a font whose table offsets are relative
/// to `font_start`: a twelve-byte header with an accepted version, then
/// `num_tables` sixteen-byte table records, then the tables they locate,
/// none of which may start before the end of the records; the rest of `s`
/// is then skipped, so the reading ends at the end of `s`.
pub open spec fn spec_table_directory(s: Seq<u8>, pos: int, font_start: int) -> Option<
    (SpecTableDirectory, int),
> {
    if !avail(s, pos, 12) || !is_sfnt_version(u32_at(s, pos)) {
        None
    } else {
        let n = u16_at(s, pos + 4);
        if !avail(s, pos + 12, 16 * n) {
            None
        } else {
            let recs = Seq::new(n as nat, |i: int| table_record_at(s, pos + 12 + 16 * i));
            let end = pos + 12 + 16 * n;
            match spec_table_links(s, font_start, end, recs) {
                None => None,
                Some(links) => Some((SpecTableDirectory {
                    sfnt_version: u32_at(s, pos),
                    num_tables: n,
                    search_range: u16_at(s, pos + 6),
                    entry_selector: u16_at(s, pos + 8),
                    range_shift: u16_at(s, pos + 10),
                    table_records: recs,
                    table_links: links,
                }, s.len() as int)),
            }
        }
    }
}

pub fn is_sfnt_version_exec(v: u32) -> (b: bool)
    ensures
        b == is_sfnt_version(v),
{
    let otto: [u8; 4] = [0x4f, 0x54, 0x54, 0x4f];
    let tru: [u8; 4] = [0x74, 0x72, 0x75, 0x65];
    v == 0x0001_0000 || v == crate::bytes::magic(&otto) || v == crate::bytes::magic(&tru)
}

/// The `n` table records at `start`.
pub fn table_records(s: &[u8], start: usize, n: u16) -> (recs: Vec<TableRecord>)
    requires
        avail(s@, start as int, 16 * n),
    ensures
        recs@ == Seq::new(n as nat, |j: int| table_record_at(s@, start + 16 * j)),
{
    let _len = s.len();
    let mut recs: Vec<TableRecord> = Vec::new();
    let mut i: usize = 0;
    while i < n as usize
        invariant
            0 <= i <= n,
            avail(s@, start as int, 16 * n),
            s@.len() <= usize::MAX,
            recs@ =~= Seq::new(i as nat, |j: int| table_record_at(s@, start + 16 * j)),
        decreases n - i,
    {
        let q = start + 16 * i;
        recs.push(
            TableRecord {
                table_id: get_u32be(s, q),
                checksum: get_u32be(s, q + 4),
                offset: get_u32be(s, q + 8),
                length: get_u32be(s, q + 12),
            },
        );
        i = i + 1;
        assert(recs@ =~= Seq::new(i as nat, |j: int| table_record_at(s@, start + 16 * j)));
    }
    recs
}

/// Parses a table directory at `pos`, and the tables it locates relative to
/// `font_start`.
pub fn table_directory(s: &[u8], pos: usize, font_start: usize) -> (r: Option<
    (TableDirectory, usize),
>)
    ensures
        agrees(r, spec_table_directory(s@, pos as int, font_start as int)),
{
    if !has_bytes(s, pos, 12) {
        return None;
    }
    let version = get_u32be(s, pos);
    if !is_sfnt_version_exec(version) {
        return None;
    }
    let n = get_u16be(s, pos + 4);
    let start = pos + 12;
    if !has_bytes(s, start, 16 * (n as usize)) {
        return None;
    }
    let recs = table_records(s, start, n);
    let end = start + 16 * (n as usize);
    let links = match table_links(s, font_start, end, recs.as_slice()) {
        Some(l) => l,
        None => return None,
    };
    let dir = TableDirectory {
        sfnt_version: version,
        num_tables: n,
        search_range: get_u16be(s, pos + 6),
        entry_selector: get_u16be(s, pos + 8),
        range_shift: get_u16be(s, pos + 10),
        table_records: recs,
        table_links: links,
    };
    Some((dir, s.len()))
}

/// The first record of `recs` whose table id is `id`.
pub open spec fn find_table(recs: Seq<TableRecord>, id: u32) -> Option<TableRecord>
    decreases recs.len(),
{
    if recs.len() == 0 {
        None
    } else if recs[0].table_id == id {
        Some(recs[0])
    } else {
        find_table(recs.drop_first(), id)
    }
}

/// Looks up the record of the table with id `query_table_id`, scanning the
/// records in order (fonts do not always keep them sorted).
pub fn with_table(table_records: &[TableRecord], query_table_id: u32) -> (r: Option<TableRecord>)
    ensures
        r == find_table(table_records@, query_table_id),
{
    let mut i: usize = 0;
    assert(table_records@.skip(0) =~= table_records@);
    while i < table_records.len()
        invariant
            0 <= i <= table_records@.len(),
            find_table(table_records@, query_table_id) == find_table(
                table_records@.skip(i as int),
                query_table_id,
            ),
        decreases table_records@.len() - i,
    {
        let rec = table_records[i];
        assert(table_records@.skip(i as int)[0] == rec);
        assert(table_records@.skip(i as int).drop_first() =~= table_records@.skip(i + 1));
        if rec.table_id == query_table_id {
            return Some(rec);
        }
        i = i + 1;
    }
    assert(table_records@.skip(i as int).len() == 0);
    None
}

/// `find_table` yields the first record with the queried id, and yields
/// nothing exactly when no record has that id.
pub proof fn lemma_find_table_first(recs: Seq<TableRecord>, id: u32)
    ensures
        find_table(recs, id) matches Some(r) ==> exists|k: int|
            0 <= k < recs.len() && recs[k] == r && r.table_id == id && forall|j: int|
                0 <= j < k ==> #[trigger] recs[j].table_id != id,
        find_table(recs, id) is None <==> forall|j: int|
            0 <= j < recs.len() ==> #[trigger] recs[j].table_id != id,
    decreases recs.len(),
{
    if recs.len() > 0 {
        let rest = recs.drop_first();
        lemma_find_table_first(rest, id);
        if recs[0].table_id != id {
            if let Some(r) = find_table(rest, id) {
                let k = choose|k: int|
                    0 <= k < rest.len() && rest[k] == r && r.table_id == id && forall|j: int|
                        0 <= j < k ==> #[trigger] rest[j].table_id != id;
                assert(recs[k + 1] == r);
                assert forall|j: int| 0 <= j < k + 1 implies #[trigger] recs[j].table_id != id by {
                    if j > 0 {
                        assert(recs[j] == rest[j - 1]);
                    }
                }
            }
            assert((forall|j: int| 0 <= j < recs.len() ==> #[trigger] recs[j].table_id != id)
                <==> (forall|j: int| 0 <= j < rest.len() ==> #[trigger] rest[j].table_id != id))
                by {
                if forall|j: int| 0 <= j < rest.len() ==> #[trigger] rest[j].table_id != id {
                    assert forall|j: int| 0 <= j < recs.len() implies #[trigger] recs[j].table_id
                        != id by {
                        if j > 0 {
                            assert(recs[j] == rest[j - 1]);
                        }
                    }
                }
                if forall|j: int| 0 <= j < recs.len() ==> #[trigger] recs[j].table_id != id {
                    assert forall|j: int| 0 <= j < rest.len() implies #[trigger] rest[j].table_id
                        != id by {
                        assert(rest[j] == recs[j + 1]);
                    }
                }
            }
        }
    }
}

/// The bytes of the table that `rec` describes, in the file `s` whose font
/// starts at `font_start`, read once the directory has been read up to
/// `here`: the table must start at or after `here` and lie within `s`.
pub open spec fn spec_table_data(s: Seq<u8>, font_start: int, here: int, rec: TableRecord) -> Option<
    Seq<u8>,
> {
    let start = font_start + rec.offset;
    if 0 <= start && here <= start && start + rec.length <= s.len() {
        Some(s.subrange(start, start + rec.length))
    } else {
        None
    }
}

/// A directory holds one record per declared table and is read to the end
/// of the file, and the bytes of a
/// table are exactly `length` bytes of the file at `font_start + offset`,
/// never before the point the directory was read up to.
pub proof fn lemma_directory_extent(s: Seq<u8>, pos: int, font_start: int, here: int, rec: TableRecord)
    ensures
        spec_table_directory(s, pos, font_start) matches Some((d, e)) ==> d.table_records.len() == d.num_tables
            && e == s.len() && is_sfnt_version(d.sfnt_version),
        spec_table_data(s, font_start, here, rec) matches Some(b) ==> b.len() == rec.length && b
            == s.subrange(font_start + rec.offset, font_start + rec.offset + rec.length) && here
            <= font_start + rec.offset,
{
}

/// Slices out the bytes of the table that `rec` describes.
pub fn table_data<'a>(s: &'a [u8], font_start: usize, here: usize, rec: TableRecord) -> (r: Option<
    &'a [u8],
>)
    ensures
        match r {
            Some(t) => spec_table_data(s@, font_start as int, here as int, rec) == Some(t@),
            None => spec_table_data(s@, font_start as int, here as int, rec) is None,
        },
{
    match linked_offset32(font_start, rec.offset, here, s.len()) {
        None => None,
        Some(start) => {
            if (rec.length as usize) <= s.len() - start {
                Some(slice_subrange(s, start, start + rec.length as usize))
            } else {
                None
            }
        },
    }
}

/// A table that the font must have: the bytes of the first table with id
/// `id`; `None` when there is no such table or its bytes cannot be had.
pub fn required_table<'a>(
    s: &'a [u8],
    font_start: usize,
    here: usize,
    table_records: &[TableRecord],
    id: u32,
) -> (r: Option<&'a [u8]>)
    ensures
        match r {
            Some(t) => find_table(table_records@, id) matches Some(rec) && spec_table_data(
                s@,
                font_start as int,
                here as int,
                rec,
            ) == Some(t@),
            None => match find_table(table_records@, id) {
                None => true,
                Some(rec) => spec_table_data(s@, font_start as int, here as int, rec) is None,
            },
        },
{
    match with_table(table_records, id) {
        None => None,
        Some(rec) => table_data(s, font_start, here, rec),
    }
}

/// A table that the font may have: `Some(None)` when there is no table with
/// id `id`, `Some(Some(bytes))` with its bytes, and `None` (failure) when a
/// record exists but its bytes cannot be had.
pub fn optional_table<'a>(
    s: &'a [u8],
    font_start: usize,
    here: usize,
    table_records: &[TableRecord],
    id: u32,
) -> (r: Option<Option<&'a [u8]>>)
    ensures
        match r {
            Some(None) => find_table(table_records@, id) is None,
            Some(Some(t)) => find_table(table_records@, id) matches Some(rec) && spec_table_data(
                s@,
                font_start as int,
                here as int,
                rec,
            ) == Some(t@),
            None => find_table(table_records@, id) matches Some(rec) && spec_table_data(
                s@,
                font_start as int,
                here as int,
                rec,
            ) is None,
        },
{
    match with_table(table_records, id) {
        None => Some(None),
        Some(rec) => match table_data(s, font_start, here, rec) {
            Some(t) => Some(Some(t)),
            None => None,
        },
    }
}

/// The version-dependent part of a collection header.
#[derive(Clone, Debug, PartialEq, Eq)]
pub enum TtcHeaderVersion {
    Version1 { num_fonts: u32, table_directories: Vec<Link32<TableDirectory>> },
    Version2 {
        num_fonts: u32,
        table_directories: Vec<Link32<TableDirectory>>,
        dsig_tag: u32,
        dsig_length: u32,
        dsig_offset: u32,
    },
    UnknownVersion(u16),
}

/// Mathematical form of `TtcHeaderVersion`.
pub enum SpecTtcHeaderVersion {
    Version1 { num_fonts: u32, table_directories: Seq<Link32<SpecTableDirectory>> },
    Version2 {
        num_fonts: u32,
        table_directories: Seq<Link32<SpecTableDirectory>>,
        dsig_tag: u32,
        dsig_length: u32,
        dsig_offset: u32,
    },
    UnknownVersion(u16),
}

/// The header of a font collection (`ttcf`).
#[derive(Clone, Debug, PartialEq, Eq)]
pub struct TtcHeader {
    pub ttc_tag: u32,
    pub major_version: u16,
    pub minor_version: u16,
    pub header: TtcHeaderVersion,
}

/// Mathematical form of `TtcHeader`.
pub struct SpecTtcHeader {
    pub ttc_tag: u32,
    pub major_version: u16,
    pub minor_version: u16,
    pub header: SpecTtcHeaderVersion,
}

/// The views of a sequence of linked table directories.
pub open spec fn dirs_view(v: Seq<Link32<TableDirectory>>) -> Seq<Link32<SpecTableDirectory>> {
    v.map_values(|l: Link32<TableDirectory>| l@)
}

impl View for TtcHeader {
    type V = SpecTtcHeader;

    open spec fn view(&self) -> SpecTtcHeader {
        SpecTtcHeader {
            ttc_tag: self.ttc_tag,
            major_version: self.major_version,
            minor_version: self.minor_version,
            header: match self.header {
                TtcHeaderVersion::Version1 { num_fonts, table_directories } => {
                    SpecTtcHeaderVersion::Version1 {
                        num_fonts,
                        table_directories: dirs_view(table_directories@),
                    }
                },
                TtcHeaderVersion::Version2 {
                    num_fonts,
                    table_directories,
                    dsig_tag,
                    dsig_length,
                    dsig_offset,
                } => SpecTtcHeaderVersion::Version2 {
                    num_fonts,
                    table_directories: dirs_view(table_directories@),
                    dsig_tag,
                    dsig_length,
                    dsig_offset,
                },
                TtcHeaderVersion::UnknownVersion(v) => SpecTtcHeaderVersion::UnknownVersion(v),
            },
        }
    }
}

/// Entry `i` of the array of font offsets at `p` of a collection starting at
/// `start`: a 32-bit offset relative to `start` and the table directory it
/// leads to.
pub open spec fn ttc_dir_link(s: Seq<u8>, start: int, p: int, i: int) -> Option<
    Link32<SpecTableDirectory>,
> {
    match spec_offset32(s, start, p + 4 * i) {
        None => None,
        Some(((off, None), _)) => Some(Link32 { offset: off, link: None }),
        Some(((off, Some(x)), _)) => match spec_table_directory(s, x, start) {
            Some((d, _)) => Some(Link32 { offset: off, link: Some(d) }),
            None => None,
        },
    }
}

/// The `n` font offsets at `p` and the table directories they lead to.
pub open spec fn spec_ttc_dirs(s: Seq<u8>, start: int, p: int, n: int) -> Option<
    (Seq<Link32<SpecTableDirectory>>, int),
> {
    if 0 <= n && avail(s, p, 4 * n) && forall|i: int|
        0 <= i < n ==> #[trigger] ttc_dir_link(s, start, p, i) is Some {
        Some((Seq::new(n as nat, |i: int| ttc_dir_link(s, start, p, i).unwrap()), p + 4 * n))
    } else {
        None
    }
}

/// A collection header at `start`: the `ttcf` tag, the version, then for
/// versions 1 and 2 the linked table directories (and for version 2 the
/// digital-signature fields); other versions carry no further fields. The
/// rest of `s` is then skipped, so the reading ends at the end of `s`.
pub open spec fn spec_ttc_header(s: Seq<u8>, start: int) -> Option<(SpecTtcHeader, int)> {
    if !avail(s, start, 8) || u32_at(s, start) != tag('t', 't', 'c', 'f') {
        None
    } else {
        let major = u16_at(s, start + 4);
        let minor = u16_at(s, start + 6);
        let p = start + 8;
        if major == 1 || major == 2 {
            if !avail(s, p, 4) {
                None
            } else {
                let n = u32_at(s, p);
                match spec_ttc_dirs(s, start, p + 4, n as int) {
                    None => None,
                    Some((dirs, e)) => {
                        if major == 1 {
                            Some((SpecTtcHeader {
                                ttc_tag: u32_at(s, start),
                                major_version: major,
                                minor_version: minor,
                                header: SpecTtcHeaderVersion::Version1 {
                                    num_fonts: n,
                                    table_directories: dirs,
                                },
                            }, s.len() as int))
                        } else if avail(s, e, 12) {
                            Some((SpecTtcHeader {
                                ttc_tag: u32_at(s, start),
                                major_version: major,
                                minor_version: minor,
                                header: SpecTtcHeaderVersion::Version2 {
                                    num_fonts: n,
                                    table_directories: dirs,
                                    dsig_tag: u32_at(s, e),
                                    dsig_length: u32_at(s, e + 4),
                                    dsig_offset: u32_at(s, e + 8),
                                },
                            }, s.len() as int))
                        } else {
                            None
                        }
                    },
                }
            }
        } else {
            Some((SpecTtcHeader {
                ttc_tag: u32_at(s, start),
                major_version: major,
                minor_version: minor,
                header: SpecTtcHeaderVersion::UnknownVersion(major),
            }, s.len() as int))
        }
    }
}

fn ttc_dirs(s: &[u8], start: usize, p: usize, n: u32) -> (r: Option<
    (Vec<Link32<TableDirectory>>, usize),
>)
    ensures
        match r {
            Some((v, e)) => spec_ttc_dirs(s@, start as int, p as int, n as int) == Some(
                (dirs_view(v@), e as int),
            ),
            None => spec_ttc_dirs(s@, start as int, p as int, n as int) is None,
        },
{
    if p > s.len() || (n as usize) > (s.len() - p) / 4 {
        return None;
    }
    assert(avail(s@, p as int, 4 * n));
    let mut v: Vec<Link32<TableDirectory>> = Vec::new();
    let mut i: usize = 0;
    while i < n as usize
        invariant
            0 <= i <= n,
            avail(s@, p as int, 4 * n),
            s@.len() <= usize::MAX,
            forall|j: int| 0 <= j < i ==> #[trigger] ttc_dir_link(s@, start as int, p as int, j) is Some,
            dirs_view(v@) =~= Seq::new(
                i as nat,
                |j: int| ttc_dir_link(s@, start as int, p as int, j).unwrap(),
            ),
        decreases n - i,
    {
        let (off, target, _) = match offset32(s, start, p + 4 * i) {
            Some(r) => r,
            None => {
                assert(ttc_dir_link(s@, start as int, p as int, i as int) is None);
                return None;
            },
        };
        let link = match target {
            None => None,
            Some(x) => match table_directory(s, x, start) {
                Some((d, _)) => Some(d),
                None => {
                    assert(ttc_dir_link(s@, start as int, p as int, i as int) is None);
                    return None;
                },
            },
        };
        let ghost old_v = v@;
        let entry = Link32 { offset: off, link };
        assert(ttc_dir_link(s@, start as int, p as int, i as int) == Some(entry@));
        v.push(entry);
        assert(dirs_view(v@) =~= dirs_view(old_v).push(entry@));
        i = i + 1;
        assert(dirs_view(v@) =~= Seq::new(
            i as nat,
            |j: int| ttc_dir_link(s@, start as int, p as int, j).unwrap(),
        ));
    }
    Some((v, p + 4 * (n as usize)))
}

/// Parses a collection header at `start`.
pub fn ttc_header(s: &[u8], start: usize) -> (r: Option<(TtcHeader, usize)>)
    ensures
        agrees(r, spec_ttc_header(s@, start as int)),
{
    if !has_bytes(s, start, 8) {
        return None;
    }
    let ttcf: [u8; 4] = [0x74, 0x74, 0x63, 0x66];
    let ttc_tag = get_u32be(s, start);
    if ttc_tag != crate::bytes::magic(&ttcf) {
        return None;
    }
    let major = get_u16be(s, start + 4);
    let minor = get_u16be(s, start + 6);
    let p = start + 8;
    if major == 1 || major == 2 {
        if !has_bytes(s, p, 4) {
            return None;
        }
        let n = get_u32be(s, p);
        let (dirs, e) = match ttc_dirs(s, start, p + 4, n) {
            Some(r) => r,
            None => return None,
        };
        if major == 1 {
            let header = TtcHeaderVersion::Version1 { num_fonts: n, table_directories: dirs };
            Some((TtcHeader { ttc_tag, major_version: major, minor_version: minor, header }, s.len()))
        } else if has_bytes(s, e, 12) {
            let header = TtcHeaderVersion::Version2 {
                num_fonts: n,
                table_directories: dirs,
                dsig_tag: get_u32be(s, e),
                dsig_length: get_u32be(s, e + 4),
                dsig_offset: get_u32be(s, e + 8),
            };
            Some((TtcHeader { ttc_tag, major_version: major, minor_version: minor, header }, s.len()))
        } else {
            None
        }
    } else {
        let header = TtcHeaderVersion::UnknownVersion(major);
        Some((TtcHeader { ttc_tag, major_version: major, minor_version: minor, header }, s.len()))
    }
}

/// What an OpenType file starts with.
#[derive(Clone, Debug, PartialEq, Eq)]
pub enum FontDirectory {
    TableDirectory(TableDirectory),
    TtcHeader(TtcHeader),
}

/// Mathematical form of `FontDirectory`.
pub enum SpecFontDirectory {
    TableDirectory(SpecTableDirectory),
    TtcHeader(SpecTtcHeader),
}

impl View for FontDirectory {
    type V = SpecFontDirectory;

    open spec fn view(&self) -> SpecFontDirectory {
        match self {
            FontDirectory::TableDirectory(d) => SpecFontDirectory::TableDirectory(d@),
            FontDirectory::TtcHeader(h) => SpecFontDirectory::TtcHeader(h@),
        }
    }
}

/// The directory of an OpenType file: the leading `u32` is peeked; a font
/// version (`0x00010000`, `OTTO`, `true`) leads to a table directory,
/// `ttcf` to a collection header, and anything else is not OpenType.
pub open spec fn spec_font_directory(s: Seq<u8>) -> Option<(SpecFontDirectory, int)> {
    if !avail(s, 0, 4) {
        None
    } else {
        let magic = u32_at(s, 0);
        if is_sfnt_version(magic) {
            match spec_table_directory(s, 0, 0) {
                Some((d, e)) => Some((SpecFontDirectory::TableDirectory(d), e)),
                None => None,
            }
        } else if magic == tag('t', 't', 'c', 'f') {
            match spec_ttc_header(s, 0) {
                Some((h, e)) => Some((SpecFontDirectory::TtcHeader(h), e)),
                None => None,
            }
        } else {
            None
        }
    }
}

/// Parses the directory at the start of an OpenType file `s`.
pub fn font_directory(s: &[u8]) -> (r: Option<(FontDirectory, usize)>)
    ensures
        agrees(r, spec_font_directory(s@)),
{
    if !has_bytes(s, 0, 4) {
        return None;
    }
    let magic = get_u32be(s, 0);
    let ttcf: [u8; 4] = [0x74, 0x74, 0x63, 0x66];
    if is_sfnt_version_exec(magic) {
        match table_directory(s, 0, 0) {
            Some((d, e)) => Some((FontDirectory::TableDirectory(d), e)),
            None => None,
        }
    } else if magic == crate::bytes::magic(&ttcf) {
        match ttc_header(s, 0) {
            Some((h, e)) => Some((FontDirectory::TtcHeader(h), e)),
            None => None,
        }
    } else {
        None
    }
}


/// A table directory's header and records are its own bytes: the version
/// double word at `pos`, the table count and the three search words at
/// `pos + 4` to `pos + 10`, and record `i` at `pos + 12 + 16 * i` with the
/// tag, checksum, offset and length double words in that order.
pub proof fn lemma_directory_fields(s: Seq<u8>, pos: int, font_start: int)
    ensures
        spec_table_directory(s, pos, font_start) matches Some((d, _)) ==> {
            &&& d.sfnt_version == crate::bytes::dword_at(s, pos)
            &&& d.num_tables == crate::bytes::word_at(s, pos + 4)
            &&& d.search_range == crate::bytes::word_at(s, pos + 6)
            &&& d.entry_selector == crate::bytes::word_at(s, pos + 8)
            &&& d.range_shift == crate::bytes::word_at(s, pos + 10)
            &&& forall|i: int|
                0 <= i < d.num_tables ==> {
                    let r = #[trigger] d.table_records[i];
                    let q = pos + 12 + 16 * i;
                    &&& r.table_id == crate::bytes::dword_at(s, q)
                    &&& r.checksum == crate::bytes::dword_at(s, q + 4)
                    &&& r.offset == crate::bytes::dword_at(s, q + 8)
                    &&& r.length == crate::bytes::dword_at(s, q + 12)
                }
        },
{
    if let Some((d, _)) = spec_table_directory(s, pos, font_start) {
        crate::bytes::lemma_dword_spells(s, pos);
        crate::bytes::lemma_readers_spell(s, pos + 4);
        crate::bytes::lemma_readers_spell(s, pos + 6);
        crate::bytes::lemma_readers_spell(s, pos + 8);
        crate::bytes::lemma_readers_spell(s, pos + 10);
        assert forall|i: int| 0 <= i < d.num_tables implies {
            let r = #[trigger] d.table_records[i];
            let q = pos + 12 + 16 * i;
            &&& r.table_id == crate::bytes::dword_at(s, q)
            &&& r.checksum == crate::bytes::dword_at(s, q + 4)
            &&& r.offset == crate::bytes::dword_at(s, q + 8)
            &&& r.length == crate::bytes::dword_at(s, q + 12)
        } by {
            let q = pos + 12 + 16 * i;
            crate::bytes::lemma_dword_spells(s, q);
            crate::bytes::lemma_dword_spells(s, q + 4);
            crate::bytes::lemma_dword_spells(s, q + 8);
            crate::bytes::lemma_dword_spells(s, q + 12);
        }
    }
}


/// A collection header holds the `ttcf` tag double word, the major and
/// minor version words at `start + 4` and `start + 6`, and for versions 1
/// and 2 the font count at `start + 8` and font offsets (double words)
/// from `start + 12`; version 2 adds the signature tag, length and offset
/// double words after them.
pub proof fn lemma_ttc_fields(s: Seq<u8>, start: int)
    ensures
        spec_ttc_header(s, start) matches Some((h, _)) ==> {
            &&& h.ttc_tag == crate::bytes::dword_at(s, start)
            &&& h.major_version == crate::bytes::word_at(s, start + 4)
            &&& h.minor_version == crate::bytes::word_at(s, start + 6)
            &&& (h.header matches SpecTtcHeaderVersion::Version1 { num_fonts, table_directories } ==> num_fonts
                == crate::bytes::dword_at(s, start + 8) && forall|i: int|
                0 <= i < num_fonts ==> (#[trigger] table_directories[i]).offset == crate::bytes::dword_at(s, start + 12 + 4 * i))
            &&& (h.header matches SpecTtcHeaderVersion::Version2 {
                num_fonts,
                table_directories,
                dsig_tag,
                dsig_length,
                dsig_offset,
            } ==> num_fonts == crate::bytes::dword_at(s, start + 8) && (forall|i: int|
                0 <= i < num_fonts ==> (#[trigger] table_directories[i]).offset == crate::bytes::dword_at(s, start + 12 + 4 * i))
                && dsig_tag == crate::bytes::dword_at(s, start + 12 + 4 * num_fonts) && dsig_length == crate::bytes::dword_at(
                s,
                start + 16 + 4 * num_fonts,
            ) && dsig_offset == crate::bytes::dword_at(s, start + 20 + 4 * num_fonts))
        },
{
    if let Some((h, _)) = spec_ttc_header(s, start) {
        crate::bytes::lemma_dword_spells(s, start);
        crate::bytes::lemma_readers_spell(s, start + 4);
        crate::bytes::lemma_readers_spell(s, start + 6);
        if h.major_version == 1 || h.major_version == 2 {
            crate::bytes::lemma_dword_spells(s, start + 8);
            let n = u32_at(s, start + 8) as int;
            assert forall|i: int| 0 <= i < n implies #[trigger] ttc_dir_link(s, start, start + 12, i) is Some && (
            ttc_dir_link(s, start, start + 12, i).unwrap()).offset == crate::bytes::dword_at(s, start + 12 + 4 * i) by {
                crate::bytes::lemma_dword_spells(s, start + 12 + 4 * i);
            }
            if h.major_version == 2 {
                crate::bytes::lemma_dword_spells(s, start + 12 + 4 * n);
                crate::bytes::lemma_dword_spells(s, start + 16 + 4 * n);
                crate::bytes::lemma_dword_spells(s, start + 20 + 4 * n);
            }
        }
    }
}

} // verus!
