//! The naming table (`name`). Positions are relative to the table's start;
//! the strings lie in a storage area whose start the header gives.
use vstd::prelude::*;
use vstd::slice::{slice_subrange, slice_to_vec};
use crate::bytes::{agrees, avail, get_u16be, has_bytes, u16_at};
use crate::opentype::links::{Link16, offset16_mandatory, spec_offset16};
use crate::opentype::values::pos_add_u16;

verus! {

/// The bytes of a string of `len` bytes at `x`.
pub open spec fn spec_string(s: Seq<u8>, x: int, len: int) -> Option<Seq<u8>> {
    if avail(s, x, len) {
        Some(s.subrange(x, x + len))
    } else {
        None
    }
}

/// The string offset at `q`, relative to the storage start `st`, with the
/// `len` bytes it leads to.
pub open spec fn string_link(s: Seq<u8>, st: int, q: int, len: int) -> Option<Link16<Seq<u8>>> {
    match spec_offset16(s, st, q) {
        None => None,
        Some(((off, None), _)) => Some(Link16 { offset: off, link: None }),
        Some(((off, Some(x)), _)) => match spec_string(s, x, len) {
            Some(b) => Some(Link16 { offset: off, link: Some(b) }),
            None => None,
        },
    }
}

fn read_string_link(s: &[u8], st: usize, q: usize, len: u16) -> (r: Option<Link16<Vec<u8>>>)
    ensures
        match r {
            Some(l) => string_link(s@, st as int, q as int, len as int) == Some(l@),
            None => string_link(s@, st as int, q as int, len as int) is None,
        },
{
    let (off, target, _) = match offset16_mandatory(s, st, q) {
        Some(x) => x,
        None => return None,
    };
    match target {
        None => Some(Link16 { offset: off, link: None }),
        Some(x) => {
            if !has_bytes(s, x, len as usize) {
                return None;
            }
            let b = slice_to_vec(slice_subrange(s, x, x + len as usize));
            Some(Link16 { offset: off, link: Some(b) })
        },
    }
}

/// A name record: which name, for which platform, encoding and language,
/// and where its string lies.
#[derive(Clone, Debug, PartialEq, Eq)]
pub struct NameRecord {
    pub platform: u16,
    pub encoding: u16,
    pub language: u16,
    pub name_id: u16,
    pub length: u16,
    pub offset: Link16<Vec<u8>>,
}

/// Mathematical form of `NameRecord`.
pub struct SpecNameRecord {
    pub platform: u16,
    pub encoding: u16,
    pub language: u16,
    pub name_id: u16,
    pub length: u16,
    pub offset: Link16<Seq<u8>>,
}

impl View for NameRecord {
    type V = SpecNameRecord;

    open spec fn view(&self) -> SpecNameRecord {
        SpecNameRecord {
            platform: self.platform,
            encoding: self.encoding,
            language: self.language,
            name_id: self.name_id,
            length: self.length,
            offset: self.offset@,
        }
    }
}

/// The twelve-byte name record at `q`, with its string in the storage
/// starting at `st`.
pub open spec fn spec_name_record(s: Seq<u8>, st: int, q: int) -> Option<SpecNameRecord> {
    if !avail(s, q, 10) {
        None
    } else {
        match string_link(s, st, q + 10, u16_at(s, q + 8) as int) {
            Some(l) => Some(SpecNameRecord {
                platform: u16_at(s, q),
                encoding: u16_at(s, q + 2),
                language: u16_at(s, q + 4),
                name_id: u16_at(s, q + 6),
                length: u16_at(s, q + 8),
                offset: l,
            }),
            None => None,
        }
    }
}

/// A language-tag record of a version 1 naming table.
#[derive(Clone, Debug, PartialEq, Eq)]
pub struct LangTagRecord {
    pub length: u16,
    pub offset: Link16<Vec<u8>>,
}

/// Mathematical form of `LangTagRecord`.
pub struct SpecLangTagRecord {
    pub length: u16,
    pub offset: Link16<Seq<u8>>,
}

impl View for LangTagRecord {
    type V = SpecLangTagRecord;

    open spec fn view(&self) -> SpecLangTagRecord {
        SpecLangTagRecord { length: self.length, offset: self.offset@ }
    }
}

/// The four-byte language-tag record at `q`, with its string.
pub open spec fn spec_lang_tag_record(s: Seq<u8>, st: int, q: int) -> Option<SpecLangTagRecord> {
    if !avail(s, q, 2) {
        None
    } else {
        match string_link(s, st, q + 2, u16_at(s, q) as int) {
            Some(l) => Some(SpecLangTagRecord { length: u16_at(s, q), offset: l }),
            None => None,
        }
    }
}

/// The views of a sequence of name records.
pub open spec fn name_records_view(v: Seq<NameRecord>) -> Seq<SpecNameRecord> {
    v.map_values(|r: NameRecord| r@)
}

/// The views of a sequence of language-tag records.
pub open spec fn lang_tags_view(v: Seq<LangTagRecord>) -> Seq<SpecLangTagRecord> {
    v.map_values(|r: LangTagRecord| r@)
}

/// `n` name records at `q`.
pub open spec fn spec_name_records(s: Seq<u8>, st: int, q: int, n: int) -> Option<
    Seq<SpecNameRecord>,
> {
    if 0 <= n && avail(s, q, 12 * n) && forall|i: int|
        0 <= i < n ==> #[trigger] spec_name_record(s, st, q + 12 * i) is Some {
        Some(Seq::new(n as nat, |i: int| spec_name_record(s, st, q + 12 * i).unwrap()))
    } else {
        None
    }
}

/// `n` language-tag records at `q`.
pub open spec fn spec_lang_tags(s: Seq<u8>, st: int, q: int, n: int) -> Option<
    Seq<SpecLangTagRecord>,
> {
    if 0 <= n && avail(s, q, 4 * n) && forall|i: int|
        0 <= i < n ==> #[trigger] spec_lang_tag_record(s, st, q + 4 * i) is Some {
        Some(Seq::new(n as nat, |i: int| spec_lang_tag_record(s, st, q + 4 * i).unwrap()))
    } else {
        None
    }
}

fn name_records(s: &[u8], st: usize, q: usize, n: u16) -> (r: Option<Vec<NameRecord>>)
    ensures
        match r {
            Some(v) => spec_name_records(s@, st as int, q as int, n as int) == Some(
                name_records_view(v@),
            ),
            None => spec_name_records(s@, st as int, q as int, n as int) is None,
        },
{
    if !has_bytes(s, q, 12 * (n as usize)) {
        return None;
    }
    let mut v: Vec<NameRecord> = Vec::new();
    let mut i: usize = 0;
    while i < n as usize
        invariant
            0 <= i <= n,
            avail(s@, q as int, 12 * n),
            s@.len() <= usize::MAX,
            forall|j: int|
                0 <= j < i ==> #[trigger] spec_name_record(s@, st as int, q + 12 * j) is Some,
            name_records_view(v@) =~= Seq::new(
                i as nat,
                |j: int| spec_name_record(s@, st as int, q + 12 * j).unwrap(),
            ),
        decreases n - i,
    {
        let r = q + 12 * i;
        let length = get_u16be(s, r + 8);
        let link = match read_string_link(s, st, r + 10, length) {
            Some(l) => l,
            None => {
                assert(spec_name_record(s@, st as int, q + 12 * i) is None);
                return None;
            },
        };
        let rec = NameRecord {
            platform: get_u16be(s, r),
            encoding: get_u16be(s, r + 2),
            language: get_u16be(s, r + 4),
            name_id: get_u16be(s, r + 6),
            length,
            offset: link,
        };
        assert(spec_name_record(s@, st as int, q + 12 * i) == Some(rec@));
        let ghost old_v = v@;
        v.push(rec);
        assert(name_records_view(v@) =~= name_records_view(old_v).push(rec@));
        i = i + 1;
        assert(name_records_view(v@) =~= Seq::new(
            i as nat,
            |j: int| spec_name_record(s@, st as int, q + 12 * j).unwrap(),
        ));
    }
    Some(v)
}

fn lang_tags(s: &[u8], st: usize, q: usize, n: u16) -> (r: Option<Vec<LangTagRecord>>)
    ensures
        match r {
            Some(v) => spec_lang_tags(s@, st as int, q as int, n as int) == Some(lang_tags_view(v@)),
            None => spec_lang_tags(s@, st as int, q as int, n as int) is None,
        },
{
    if !has_bytes(s, q, 4 * (n as usize)) {
        return None;
    }
    let mut v: Vec<LangTagRecord> = Vec::new();
    let mut i: usize = 0;
    while i < n as usize
        invariant
            0 <= i <= n,
            avail(s@, q as int, 4 * n),
            s@.len() <= usize::MAX,
            forall|j: int|
                0 <= j < i ==> #[trigger] spec_lang_tag_record(s@, st as int, q + 4 * j) is Some,
            lang_tags_view(v@) =~= Seq::new(
                i as nat,
                |j: int| spec_lang_tag_record(s@, st as int, q + 4 * j).unwrap(),
            ),
        decreases n - i,
    {
        let r = q + 4 * i;
        let length = get_u16be(s, r);
        let link = match read_string_link(s, st, r + 2, length) {
            Some(l) => l,
            None => {
                assert(spec_lang_tag_record(s@, st as int, q + 4 * i) is None);
                return None;
            },
        };
        let rec = LangTagRecord { length, offset: link };
        assert(spec_lang_tag_record(s@, st as int, q + 4 * i) == Some(rec@));
        let ghost old_v = v@;
        v.push(rec);
        assert(lang_tags_view(v@) =~= lang_tags_view(old_v).push(rec@));
        i = i + 1;
        assert(lang_tags_view(v@) =~= Seq::new(
            i as nat,
            |j: int| spec_lang_tag_record(s@, st as int, q + 4 * j).unwrap(),
        ));
    }
    Some(v)
}

/// The version-dependent tail of the naming table.
#[derive(Clone, Debug, PartialEq, Eq)]
pub enum NameData {
    NameVersion0,
    NameVersion1 { lang_tag_count: u16, lang_tag_records: Vec<LangTagRecord> },
    NameVersionUnknown(u16),
}

/// Mathematical form of `NameData`.
pub enum SpecNameData {
    NameVersion0,
    NameVersion1 { lang_tag_count: u16, lang_tag_records: Seq<SpecLangTagRecord> },
    NameVersionUnknown(u16),
}

/// The naming table.
#[derive(Clone, Debug, PartialEq, Eq)]
pub struct NameTable {
    pub version: u16,
    pub name_count: u16,
    pub storage_offset: u16,
    pub name_records: Vec<NameRecord>,
    pub data: NameData,
}

/// Mathematical form of `NameTable`.
pub struct SpecNameTable {
    pub version: u16,
    pub name_count: u16,
    pub storage_offset: u16,
    pub name_records: Seq<SpecNameRecord>,
    pub data: SpecNameData,
}

impl View for NameTable {
    type V = SpecNameTable;

    open spec fn view(&self) -> SpecNameTable {
        SpecNameTable {
            version: self.version,
            name_count: self.name_count,
            storage_offset: self.storage_offset,
            name_records: name_records_view(self.name_records@),
            data: match &self.data {
                NameData::NameVersion0 => SpecNameData::NameVersion0,
                NameData::NameVersion1 { lang_tag_count, lang_tag_records } => {
                    SpecNameData::NameVersion1 {
                        lang_tag_count: *lang_tag_count,
                        lang_tag_records: lang_tags_view(lang_tag_records@),
                    }
                },
                NameData::NameVersionUnknown(v) => SpecNameData::NameVersionUnknown(*v),
            },
        }
    }
}

/// The naming table held in `t`: version, record count and storage offset,
/// the name records (their strings relative to the storage start), then for
/// version 1 the language-tag records; other versions than 0 and 1 carry
/// nothing more.
pub open spec fn spec_name_table(t: Seq<u8>) -> Option<(SpecNameTable, int)> {
    if !avail(t, 0, 6) {
        None
    } else {
        let version = u16_at(t, 0);
        let n = u16_at(t, 2);
        let st = u16_at(t, 4) as int;
        match spec_name_records(t, st, 6, n as int) {
            None => None,
            Some(recs) => {
                let q = 6 + 12 * n;
                let data = if version == 0 {
                    Some((SpecNameData::NameVersion0, q))
                } else if version == 1 {
                    if avail(t, q, 2) {
                        let m = u16_at(t, q);
                        match spec_lang_tags(t, st, q + 2, m as int) {
                            Some(tags) => Some(
                                (
                                    SpecNameData::NameVersion1 {
                                        lang_tag_count: m,
                                        lang_tag_records: tags,
                                    },
                                    q + 2 + 4 * m,
                                ),
                            ),
                            None => None,
                        }
                    } else {
                        None
                    }
                } else {
                    Some((SpecNameData::NameVersionUnknown(version), q))
                };
                match data {
                    Some((d, e)) => Some((SpecNameTable {
                        version,
                        name_count: n,
                        storage_offset: st as u16,
                        name_records: recs,
                        data: d,
                    }, e)),
                    None => None,
                }
            },
        }
    }
}

/// Parses the naming table held in `t`.
pub fn name_table(t: &[u8]) -> (r: Option<(NameTable, usize)>)
    ensures
        agrees(r, spec_name_table(t@)),
{
    if !has_bytes(t, 0, 6) {
        return None;
    }
    let version = get_u16be(t, 0);
    let n = get_u16be(t, 2);
    let storage_offset = get_u16be(t, 4);
    let st = match pos_add_u16(0, storage_offset) {
        Some(x) => x as usize,
        None => return None,
    };
    let recs = match name_records(t, st, 6, n) {
        Some(v) => v,
        None => return None,
    };
    let q = 6 + 12 * (n as usize);
    let (data, e) = if version == 0 {
        (NameData::NameVersion0, q)
    } else if version == 1 {
        if !has_bytes(t, q, 2) {
            return None;
        }
        let m = get_u16be(t, q);
        match lang_tags(t, st, q + 2, m) {
            Some(tags) => (
                NameData::NameVersion1 { lang_tag_count: m, lang_tag_records: tags },
                q + 2 + 4 * (m as usize),
            ),
            None => return None,
        }
    } else {
        (NameData::NameVersionUnknown(version), q)
    };
    let table = NameTable {
        version,
        name_count: n,
        storage_offset,
        name_records: recs,
        data,
    };
    Some((table, e))
}


/// A `name` table holds `name_count` name records and, in version 1,
/// `lang_tag_count` language tag records.
pub proof fn lemma_name_counts(t: Seq<u8>)
    ensures
        spec_name_table(t) matches Some((n, _)) ==> n.name_records.len() == n.name_count && (
        n.data matches SpecNameData::NameVersion1 { lang_tag_count, lang_tag_records }
            ==> lang_tag_records.len() == lang_tag_count),
{
}


/// A `name` table's fields are its own bytes: version, count and storage
/// offset words at 0, 2 and 4, and record `i` at `6 + 12 * i` with the
/// platform, encoding, language, name id, length and string offset words in
/// that order; a linked string is the `length` bytes at the storage offset
/// plus the string offset.
pub proof fn lemma_name_fields(t: Seq<u8>)
    ensures
        spec_name_table(t) matches Some((n, _)) ==> {
            &&& n.version == crate::bytes::word_at(t, 0)
            &&& n.name_count == crate::bytes::word_at(t, 2)
            &&& n.storage_offset == crate::bytes::word_at(t, 4)
            &&& forall|i: int|
                0 <= i < n.name_count ==> {
                    let r = #[trigger] n.name_records[i];
                    let q = 6 + 12 * i;
                    &&& r.platform == crate::bytes::word_at(t, q)
                    &&& r.encoding == crate::bytes::word_at(t, q + 2)
                    &&& r.language == crate::bytes::word_at(t, q + 4)
                    &&& r.name_id == crate::bytes::word_at(t, q + 6)
                    &&& r.length == crate::bytes::word_at(t, q + 8)
                    &&& r.offset.offset == crate::bytes::word_at(t, q + 10)
                    &&& (r.offset.link matches Some(b) ==> b == t.subrange(
                        n.storage_offset + r.offset.offset,
                        n.storage_offset + r.offset.offset + r.length,
                    ))
                }
        },
{
    if let Some((n, _)) = spec_name_table(t) {
        crate::bytes::lemma_readers_spell(t, 0);
        crate::bytes::lemma_readers_spell(t, 2);
        crate::bytes::lemma_readers_spell(t, 4);
        assert forall|i: int| 0 <= i < n.name_count implies {
            let r = #[trigger] n.name_records[i];
            let q = 6 + 12 * i;
            &&& r.platform == crate::bytes::word_at(t, q)
            &&& r.encoding == crate::bytes::word_at(t, q + 2)
            &&& r.language == crate::bytes::word_at(t, q + 4)
            &&& r.name_id == crate::bytes::word_at(t, q + 6)
            &&& r.length == crate::bytes::word_at(t, q + 8)
            &&& r.offset.offset == crate::bytes::word_at(t, q + 10)
            &&& (r.offset.link matches Some(b) ==> b == t.subrange(
                n.storage_offset + r.offset.offset,
                n.storage_offset + r.offset.offset + r.length,
            ))
        } by {
            let q = 6 + 12 * i;
            assert(spec_name_record(t, n.storage_offset as int, q) is Some);
            crate::bytes::lemma_readers_spell(t, q);
            crate::bytes::lemma_readers_spell(t, q + 2);
            crate::bytes::lemma_readers_spell(t, q + 4);
            crate::bytes::lemma_readers_spell(t, q + 6);
            crate::bytes::lemma_readers_spell(t, q + 8);
            crate::bytes::lemma_readers_spell(t, q + 10);
        }
    }
}

/// A version 1 naming table holds its language-tag count word right after
/// the name records; each four-byte language-tag record holds its string
/// length word at `q` and its string offset word at `q + 2`, and its string
/// is that many bytes from the storage start plus the offset.
pub proof fn lemma_lang_tag_fields(t: Seq<u8>, st: int, q: int)
    ensures
        spec_name_table(t) matches Some((n, _)) ==> (n.data matches SpecNameData::NameVersion1 {
            lang_tag_count,
            ..
        } ==> n.version == 1 && lang_tag_count == crate::bytes::word_at(t, 6 + 12 * n.name_count)),
        spec_lang_tag_record(t, st, q) matches Some(r) ==> {
            &&& r.length == crate::bytes::word_at(t, q)
            &&& r.offset.offset == crate::bytes::word_at(t, q + 2)
            &&& (r.offset.link matches Some(b) ==> b == t.subrange(st + r.offset.offset, st + r.offset.offset + r.length))
        },
{
    if let Some((n, _)) = spec_name_table(t) {
        if n.version == 1 {
            crate::bytes::lemma_readers_spell(t, 6 + 12 * n.name_count);
        }
    }
    if let Some(r) = spec_lang_tag_record(t, st, q) {
        crate::bytes::lemma_readers_spell(t, q);
        crate::bytes::lemma_readers_spell(t, q + 2);
    }
}

} // verus!
