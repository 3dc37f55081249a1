//! Tables shared by the glyph substitution and positioning tables: the
//! script list, the feature list, and the contextual lookup subtables.
//! Offsets are relative to the start of the table that holds them.
use vstd::prelude::*;
use crate::bytes::{avail, fits, get_u16be, get_u32be, has_bytes, u16_at, u32_at};
use crate::opentype::cmap::{read_u16s, u16s_at};
use crate::opentype::links::{
    Link16, Link32, offset16_mandatory, offset16_nullable, offset32, spec_offset16, spec_offset32,
};
use crate::opentype::values::F2Dot14;

verus! {

/// A language system: a reserved null offset, the index of the feature it
/// requires (`0xffff` for none) and the indices of its features.
#[derive(Clone, Debug, PartialEq, Eq)]
pub struct LangSys {
    pub lookup_order_offset: u16,
    pub required_feature_index: u16,
    pub feature_index_count: u16,
    pub feature_indices: Vec<u16>,
}

/// Mathematical form of `LangSys`.
pub struct SpecLangSys {
    pub lookup_order_offset: u16,
    pub required_feature_index: u16,
    pub feature_index_count: u16,
    pub feature_indices: Seq<u16>,
}

impl View for LangSys {
    type V = SpecLangSys;

    open spec fn view(&self) -> SpecLangSys {
        SpecLangSys {
            lookup_order_offset: self.lookup_order_offset,
            required_feature_index: self.required_feature_index,
            feature_index_count: self.feature_index_count,
            feature_indices: self.feature_indices@,
        }
    }
}

/// The language system at `x`; its first field must be zero.
pub open spec fn spec_lang_sys(t: Seq<u8>, x: int) -> Option<SpecLangSys> {
    if avail(t, x, 6) && u16_at(t, x) == 0 && avail(t, x + 6, 2 * u16_at(t, x + 4)) {
        Some(
            SpecLangSys {
                lookup_order_offset: 0,
                required_feature_index: u16_at(t, x + 2),
                feature_index_count: u16_at(t, x + 4),
                feature_indices: u16s_at(t, x + 6, u16_at(t, x + 4) as int),
            },
        )
    } else {
        None
    }
}

/// The language-system offset at `q`, relative to `base`, with the
/// language system it leads to.
pub open spec fn spec_lang_sys_link(t: Seq<u8>, base: int, q: int) -> Option<Link16<SpecLangSys>> {
    match spec_offset16(t, base, q) {
        None => None,
        Some(((off, None), _)) => Some(Link16 { offset: off, link: None }),
        Some(((off, Some(x)), _)) => match spec_lang_sys(t, x) {
            Some(l) => Some(Link16 { offset: off, link: Some(l) }),
            None => None,
        },
    }
}

/// A language-system record: a tag and its language system.
#[derive(Clone, Debug, PartialEq, Eq)]
pub struct LangSysRecord {
    pub lang_sys_tag: u32,
    pub lang_sys: Link16<LangSys>,
}

/// Mathematical form of `LangSysRecord`.
pub struct SpecLangSysRecord {
    pub lang_sys_tag: u32,
    pub lang_sys: Link16<SpecLangSys>,
}

impl View for LangSysRecord {
    type V = SpecLangSysRecord;

    open spec fn view(&self) -> SpecLangSysRecord {
        SpecLangSysRecord { lang_sys_tag: self.lang_sys_tag, lang_sys: self.lang_sys@ }
    }
}

/// The six-byte language-system record at `q` of a script table at `base`.
pub open spec fn spec_lang_sys_record(t: Seq<u8>, base: int, q: int) -> Option<SpecLangSysRecord> {
    if !avail(t, q, 6) {
        None
    } else {
        match spec_lang_sys_link(t, base, q + 4) {
            None => None,
            Some(l) => Some(SpecLangSysRecord { lang_sys_tag: u32_at(t, q), lang_sys: l }),
        }
    }
}

/// The views of a sequence of language-system records.
pub open spec fn lang_sys_records_view(v: Seq<LangSysRecord>) -> Seq<SpecLangSysRecord> {
    v.map_values(|r: LangSysRecord| r@)
}

/// A script table: its default language system and its other language
/// systems by tag.
#[derive(Clone, Debug, PartialEq, Eq)]
pub struct ScriptTable {
    pub default_lang_sys: Link16<LangSys>,
    pub lang_sys_count: u16,
    pub lang_sys_records: Vec<LangSysRecord>,
}

/// Mathematical form of `ScriptTable`.
pub struct SpecScriptTable {
    pub default_lang_sys: Link16<SpecLangSys>,
    pub lang_sys_count: u16,
    pub lang_sys_records: Seq<SpecLangSysRecord>,
}

impl View for ScriptTable {
    type V = SpecScriptTable;

    open spec fn view(&self) -> SpecScriptTable {
        SpecScriptTable {
            default_lang_sys: self.default_lang_sys@,
            lang_sys_count: self.lang_sys_count,
            lang_sys_records: lang_sys_records_view(self.lang_sys_records@),
        }
    }
}

/// The script table at `x`: the default language-system offset, the
/// record count and the records, all offsets relative to `x`.
pub open spec fn spec_script_table(t: Seq<u8>, x: int) -> Option<SpecScriptTable> {
    if !avail(t, x, 4) {
        None
    } else {
        let n = u16_at(t, x + 2);
        match spec_lang_sys_link(t, x, x) {
            None => None,
            Some(d) => if avail(t, x + 4, 6 * n) && forall|i: int|
                0 <= i < n ==> #[trigger] spec_lang_sys_record(t, x, x + 4 + 6 * i) is Some {
                Some(
                    SpecScriptTable {
                        default_lang_sys: d,
                        lang_sys_count: n,
                        lang_sys_records: Seq::new(
                            n as nat,
                            |i: int| spec_lang_sys_record(t, x, x + 4 + 6 * i).unwrap(),
                        ),
                    },
                )
            } else {
                None
            },
        }
    }
}

/// A script record: a tag and its script table.
#[derive(Clone, Debug, PartialEq, Eq)]
pub struct ScriptRecord {
    pub script_tag: u32,
    pub script: Link16<ScriptTable>,
}

/// Mathematical form of `ScriptRecord`.
pub struct SpecScriptRecord {
    pub script_tag: u32,
    pub script: Link16<SpecScriptTable>,
}

impl View for ScriptRecord {
    type V = SpecScriptRecord;

    open spec fn view(&self) -> SpecScriptRecord {
        SpecScriptRecord { script_tag: self.script_tag, script: self.script@ }
    }
}

/// The six-byte script record at `q` of a script list at `base`.
pub open spec fn spec_script_record(t: Seq<u8>, base: int, q: int) -> Option<SpecScriptRecord> {
    if !avail(t, q, 6) {
        None
    } else {
        match spec_offset16(t, base, q + 4) {
            None => None,
            Some(((off, None), _)) => Some(
                SpecScriptRecord { script_tag: u32_at(t, q), script: Link16 { offset: off, link: None } },
            ),
            Some(((off, Some(x)), _)) => match spec_script_table(t, x) {
                Some(s) => Some(
                    SpecScriptRecord {
                        script_tag: u32_at(t, q),
                        script: Link16 { offset: off, link: Some(s) },
                    },
                ),
                None => None,
            },
        }
    }
}

/// The views of a sequence of script records.
pub open spec fn script_records_view(v: Seq<ScriptRecord>) -> Seq<SpecScriptRecord> {
    v.map_values(|r: ScriptRecord| r@)
}

/// The script list: the scripts of the font by tag.
#[derive(Clone, Debug, PartialEq, Eq)]
pub struct ScriptList {
    pub script_count: u16,
    pub script_records: Vec<ScriptRecord>,
}

/// Mathematical form of `ScriptList`.
pub struct SpecScriptList {
    pub script_count: u16,
    pub script_records: Seq<SpecScriptRecord>,
}

impl View for ScriptList {
    type V = SpecScriptList;

    open spec fn view(&self) -> SpecScriptList {
        SpecScriptList {
            script_count: self.script_count,
            script_records: script_records_view(self.script_records@),
        }
    }
}

/// The script list at `x`: a count and that many script records, whose
/// offsets are relative to `x`.
pub open spec fn spec_script_list(t: Seq<u8>, x: int) -> Option<SpecScriptList> {
    if !avail(t, x, 2) {
        None
    } else {
        let n = u16_at(t, x);
        if avail(t, x + 2, 6 * n) && forall|i: int|
            0 <= i < n ==> #[trigger] spec_script_record(t, x, x + 2 + 6 * i) is Some {
            Some(
                SpecScriptList {
                    script_count: n,
                    script_records: Seq::new(
                        n as nat,
                        |i: int| spec_script_record(t, x, x + 2 + 6 * i).unwrap(),
                    ),
                },
            )
        } else {
            None
        }
    }
}

fn lang_sys(t: &[u8], x: usize) -> (r: Option<LangSys>)
    ensures
        match r {
            Some(l) => spec_lang_sys(t@, x as int) == Some(l@),
            None => spec_lang_sys(t@, x as int) is None,
        },
{
    if !has_bytes(t, x, 6) || get_u16be(t, x) != 0 {
        return None;
    }
    let n = get_u16be(t, x + 4);
    if !has_bytes(t, x + 6, 2 * (n as usize)) {
        return None;
    }
    Some(
        LangSys {
            lookup_order_offset: 0,
            required_feature_index: get_u16be(t, x + 2),
            feature_index_count: n,
            feature_indices: read_u16s(t, x + 6, n as usize),
        },
    )
}

fn lang_sys_link(t: &[u8], base: usize, q: usize) -> (r: Option<Link16<LangSys>>)
    ensures
        match r {
            Some(l) => spec_lang_sys_link(t@, base as int, q as int) == Some(l@),
            None => spec_lang_sys_link(t@, base as int, q as int) is None,
        },
{
    let (off, target, _) = match offset16_nullable(t, base, q) {
        Some(x) => x,
        None => return None,
    };
    match target {
        None => Some(Link16 { offset: off, link: None }),
        Some(x) => match lang_sys(t, x) {
            Some(l) => Some(Link16 { offset: off, link: Some(l) }),
            None => None,
        },
    }
}

fn lang_sys_record(t: &[u8], base: usize, q: usize) -> (r: Option<LangSysRecord>)
    ensures
        match r {
            Some(l) => spec_lang_sys_record(t@, base as int, q as int) == Some(l@),
            None => spec_lang_sys_record(t@, base as int, q as int) is None,
        },
{
    if !has_bytes(t, q, 6) {
        return None;
    }
    match lang_sys_link(t, base, q + 4) {
        None => None,
        Some(l) => Some(LangSysRecord { lang_sys_tag: get_u32be(t, q), lang_sys: l }),
    }
}

/// Parses the script table at `x`.
pub fn script_table(t: &[u8], x: usize) -> (r: Option<ScriptTable>)
    ensures
        match r {
            Some(s) => spec_script_table(t@, x as int) == Some(s@),
            None => spec_script_table(t@, x as int) is None,
        },
{
    if !has_bytes(t, x, 4) {
        return None;
    }
    let n = get_u16be(t, x + 2);
    let d = match lang_sys_link(t, x, x) {
        Some(d) => d,
        None => return None,
    };
    if !has_bytes(t, x + 4, 6 * (n as usize)) {
        return None;
    }
    let mut v: Vec<LangSysRecord> = Vec::new();
    let mut i: usize = 0;
    while i < n as usize
        invariant
            0 <= i <= n,
            avail(t@, x as int, 4) && n == u16_at(t@, x + 2),
            spec_lang_sys_link(t@, x as int, x as int) == Some(d@),
            avail(t@, x + 4, 6 * n),
            t@.len() <= usize::MAX,
            forall|j: int|
                0 <= j < i ==> #[trigger] spec_lang_sys_record(t@, x as int, x + 4 + 6 * j) is Some,
            lang_sys_records_view(v@) =~= Seq::new(
                i as nat,
                |j: int| spec_lang_sys_record(t@, x as int, x + 4 + 6 * j).unwrap(),
            ),
        decreases n - i,
    {
        let rec = match lang_sys_record(t, x, x + 4 + 6 * i) {
            Some(r) => r,
            None => {
                assert(spec_lang_sys_record(t@, x as int, x + 4 + 6 * i) is None);
                return None;
            },
        };
        let ghost old_v = v@;
        v.push(rec);
        assert(lang_sys_records_view(v@) =~= lang_sys_records_view(old_v).push(rec@));
        i = i + 1;
        assert(lang_sys_records_view(v@) =~= Seq::new(
            i as nat,
            |j: int| spec_lang_sys_record(t@, x as int, x + 4 + 6 * j).unwrap(),
        ));
    }
    Some(ScriptTable { default_lang_sys: d, lang_sys_count: n, lang_sys_records: v })
}

fn script_record(t: &[u8], base: usize, q: usize) -> (r: Option<ScriptRecord>)
    ensures
        match r {
            Some(s) => spec_script_record(t@, base as int, q as int) == Some(s@),
            None => spec_script_record(t@, base as int, q as int) is None,
        },
{
    if !has_bytes(t, q, 6) {
        return None;
    }
    let tag = get_u32be(t, q);
    let (off, target, _) = match offset16_mandatory(t, base, q + 4) {
        Some(x) => x,
        None => return None,
    };
    match target {
        None => Some(ScriptRecord { script_tag: tag, script: Link16 { offset: off, link: None } }),
        Some(x) => match script_table(t, x) {
            Some(s) => Some(ScriptRecord { script_tag: tag, script: Link16 { offset: off, link: Some(s) } }),
            None => None,
        },
    }
}

/// Parses the script list at `x`.
pub fn script_list(t: &[u8], x: usize) -> (r: Option<ScriptList>)
    ensures
        match r {
            Some(s) => spec_script_list(t@, x as int) == Some(s@),
            None => spec_script_list(t@, x as int) is None,
        },
{
    if !has_bytes(t, x, 2) {
        return None;
    }
    let n = get_u16be(t, x);
    if !has_bytes(t, x + 2, 6 * (n as usize)) {
        return None;
    }
    let mut v: Vec<ScriptRecord> = Vec::new();
    let mut i: usize = 0;
    while i < n as usize
        invariant
            0 <= i <= n,
            avail(t@, x as int, 2) && n == u16_at(t@, x as int),
            avail(t@, x + 2, 6 * n),
            t@.len() <= usize::MAX,
            forall|j: int|
                0 <= j < i ==> #[trigger] spec_script_record(t@, x as int, x + 2 + 6 * j) is Some,
            script_records_view(v@) =~= Seq::new(
                i as nat,
                |j: int| spec_script_record(t@, x as int, x + 2 + 6 * j).unwrap(),
            ),
        decreases n - i,
    {
        let rec = match script_record(t, x, x + 2 + 6 * i) {
            Some(r) => r,
            None => {
                assert(spec_script_record(t@, x as int, x + 2 + 6 * i) is None);
                return None;
            },
        };
        let ghost old_v = v@;
        v.push(rec);
        assert(script_records_view(v@) =~= script_records_view(old_v).push(rec@));
        i = i + 1;
        assert(script_records_view(v@) =~= Seq::new(
            i as nat,
            |j: int| spec_script_record(t@, x as int, x + 2 + 6 * j).unwrap(),
        ));
    }
    Some(ScriptList { script_count: n, script_records: v })
}

/// A feature table: a parameters offset, kept as it is, and the indices of
/// the lookups of the feature.
#[derive(Clone, Debug, PartialEq, Eq)]
pub struct FeatureTable {
    pub feature_params: u16,
    pub lookup_index_count: u16,
    pub lookup_list_indices: Vec<u16>,
}

/// Mathematical form of `FeatureTable`.
pub struct SpecFeatureTable {
    pub feature_params: u16,
    pub lookup_index_count: u16,
    pub lookup_list_indices: Seq<u16>,
}

impl View for FeatureTable {
    type V = SpecFeatureTable;

    open spec fn view(&self) -> SpecFeatureTable {
        SpecFeatureTable {
            feature_params: self.feature_params,
            lookup_index_count: self.lookup_index_count,
            lookup_list_indices: self.lookup_list_indices@,
        }
    }
}

/// The feature table at `x`.
pub open spec fn spec_feature_table(t: Seq<u8>, x: int) -> Option<SpecFeatureTable> {
    if avail(t, x, 4) && avail(t, x + 4, 2 * u16_at(t, x + 2)) {
        Some(
            SpecFeatureTable {
                feature_params: u16_at(t, x),
                lookup_index_count: u16_at(t, x + 2),
                lookup_list_indices: u16s_at(t, x + 4, u16_at(t, x + 2) as int),
            },
        )
    } else {
        None
    }
}

/// A feature record: a tag and its feature table.
#[derive(Clone, Debug, PartialEq, Eq)]
pub struct FeatureRecord {
    pub feature_tag: u32,
    pub feature: Link16<FeatureTable>,
}

/// Mathematical form of `FeatureRecord`.
pub struct SpecFeatureRecord {
    pub feature_tag: u32,
    pub feature: Link16<SpecFeatureTable>,
}

impl View for FeatureRecord {
    type V = SpecFeatureRecord;

    open spec fn view(&self) -> SpecFeatureRecord {
        SpecFeatureRecord { feature_tag: self.feature_tag, feature: self.feature@ }
    }
}

/// The six-byte feature record at `q` of a feature list at `base`.
pub open spec fn spec_feature_record(t: Seq<u8>, base: int, q: int) -> Option<SpecFeatureRecord> {
    if !avail(t, q, 6) {
        None
    } else {
        match spec_offset16(t, base, q + 4) {
            None => None,
            Some(((off, None), _)) => Some(
                SpecFeatureRecord {
                    feature_tag: u32_at(t, q),
                    feature: Link16 { offset: off, link: None },
                },
            ),
            Some(((off, Some(x)), _)) => match spec_feature_table(t, x) {
                Some(f) => Some(
                    SpecFeatureRecord {
                        feature_tag: u32_at(t, q),
                        feature: Link16 { offset: off, link: Some(f) },
                    },
                ),
                None => None,
            },
        }
    }
}

/// The views of a sequence of feature records.
pub open spec fn feature_records_view(v: Seq<FeatureRecord>) -> Seq<SpecFeatureRecord> {
    v.map_values(|r: FeatureRecord| r@)
}

/// The feature list: the features of the font by tag.
#[derive(Clone, Debug, PartialEq, Eq)]
pub struct FeatureList {
    pub feature_count: u16,
    pub feature_records: Vec<FeatureRecord>,
}

/// Mathematical form of `FeatureList`.
pub struct SpecFeatureList {
    pub feature_count: u16,
    pub feature_records: Seq<SpecFeatureRecord>,
}

impl View for FeatureList {
    type V = SpecFeatureList;

    open spec fn view(&self) -> SpecFeatureList {
        SpecFeatureList {
            feature_count: self.feature_count,
            feature_records: feature_records_view(self.feature_records@),
        }
    }
}

/// The feature list at `x`: a count and that many feature records, whose
/// offsets are relative to `x`.
pub open spec fn spec_feature_list(t: Seq<u8>, x: int) -> Option<SpecFeatureList> {
    if !avail(t, x, 2) {
        None
    } else {
        let n = u16_at(t, x);
        if avail(t, x + 2, 6 * n) && forall|i: int|
            0 <= i < n ==> #[trigger] spec_feature_record(t, x, x + 2 + 6 * i) is Some {
            Some(
                SpecFeatureList {
                    feature_count: n,
                    feature_records: Seq::new(
                        n as nat,
                        |i: int| spec_feature_record(t, x, x + 2 + 6 * i).unwrap(),
                    ),
                },
            )
        } else {
            None
        }
    }
}

/// Parses the feature table at `x`.
pub fn feature_table(t: &[u8], x: usize) -> (r: Option<FeatureTable>)
    ensures
        match r {
            Some(f) => spec_feature_table(t@, x as int) == Some(f@),
            None => spec_feature_table(t@, x as int) is None,
        },
{
    if !has_bytes(t, x, 4) {
        return None;
    }
    let n = get_u16be(t, x + 2);
    if !has_bytes(t, x + 4, 2 * (n as usize)) {
        return None;
    }
    Some(
        FeatureTable {
            feature_params: get_u16be(t, x),
            lookup_index_count: n,
            lookup_list_indices: read_u16s(t, x + 4, n as usize),
        },
    )
}

fn feature_record(t: &[u8], base: usize, q: usize) -> (r: Option<FeatureRecord>)
    ensures
        match r {
            Some(f) => spec_feature_record(t@, base as int, q as int) == Some(f@),
            None => spec_feature_record(t@, base as int, q as int) is None,
        },
{
    if !has_bytes(t, q, 6) {
        return None;
    }
    let tag = get_u32be(t, q);
    let (off, target, _) = match offset16_mandatory(t, base, q + 4) {
        Some(x) => x,
        None => return None,
    };
    match target {
        None => Some(FeatureRecord { feature_tag: tag, feature: Link16 { offset: off, link: None } }),
        Some(x) => match feature_table(t, x) {
            Some(f) => Some(
                FeatureRecord { feature_tag: tag, feature: Link16 { offset: off, link: Some(f) } },
            ),
            None => None,
        },
    }
}

/// Parses the feature list at `x`.
pub fn feature_list(t: &[u8], x: usize) -> (r: Option<FeatureList>)
    ensures
        match r {
            Some(f) => spec_feature_list(t@, x as int) == Some(f@),
            None => spec_feature_list(t@, x as int) is None,
        },
{
    if !has_bytes(t, x, 2) {
        return None;
    }
    let n = get_u16be(t, x);
    if !has_bytes(t, x + 2, 6 * (n as usize)) {
        return None;
    }
    let mut v: Vec<FeatureRecord> = Vec::new();
    let mut i: usize = 0;
    while i < n as usize
        invariant
            0 <= i <= n,
            avail(t@, x as int, 2) && n == u16_at(t@, x as int),
            avail(t@, x + 2, 6 * n),
            t@.len() <= usize::MAX,
            forall|j: int|
                0 <= j < i ==> #[trigger] spec_feature_record(t@, x as int, x + 2 + 6 * j) is Some,
            feature_records_view(v@) =~= Seq::new(
                i as nat,
                |j: int| spec_feature_record(t@, x as int, x + 2 + 6 * j).unwrap(),
            ),
        decreases n - i,
    {
        let rec = match feature_record(t, x, x + 2 + 6 * i) {
            Some(r) => r,
            None => {
                assert(spec_feature_record(t@, x as int, x + 2 + 6 * i) is None);
                return None;
            },
        };
        let ghost old_v = v@;
        v.push(rec);
        assert(feature_records_view(v@) =~= feature_records_view(old_v).push(rec@));
        i = i + 1;
        assert(feature_records_view(v@) =~= Seq::new(
            i as nat,
            |j: int| spec_feature_record(t@, x as int, x + 2 + 6 * j).unwrap(),
        ));
    }
    Some(FeatureList { feature_count: n, feature_records: v })
}

/// The flags of a lookup: the mark attachment class to filter by (high
/// byte), whether a mark filtering set follows the subtables (bit 4), and
/// whether marks, ligatures or base glyphs are skipped and the cursive
/// direction is right to left (bits 3 to 0). Bits 7 to 5 are reserved and
/// ignored.
#[derive(Clone, Copy, Debug, PartialEq, Eq)]
pub struct LookupFlag {
    pub mark_attachment_class_filter: u8,
    pub use_mark_filtering_set: bool,
    pub ignore_marks: bool,
    pub ignore_ligatures: bool,
    pub ignore_base_glyphs: bool,
    pub right_to_left: bool,
}

/// The flag word `raw`, split into its fields.
pub open spec fn spec_lookup_flag(raw: u16) -> LookupFlag {
    LookupFlag {
        mark_attachment_class_filter: (raw / 256) as u8,
        use_mark_filtering_set: (raw / 16) % 2 == 1,
        ignore_marks: (raw / 8) % 2 == 1,
        ignore_ligatures: (raw / 4) % 2 == 1,
        ignore_base_glyphs: (raw / 2) % 2 == 1,
        right_to_left: raw % 2 == 1,
    }
}

/// Splits a lookup flag word into its fields.
pub fn lookup_flag(raw: u16) -> (f: LookupFlag)
    ensures
        f == spec_lookup_flag(raw),
{
    LookupFlag {
        mark_attachment_class_filter: (raw / 256) as u8,
        use_mark_filtering_set: (raw / 16) % 2 == 1,
        ignore_marks: (raw / 8) % 2 == 1,
        ignore_ligatures: (raw / 4) % 2 == 1,
        ignore_base_glyphs: (raw / 2) % 2 == 1,
        right_to_left: raw % 2 == 1,
    }
}

/// A condition: the axis it bears on and the range of normalised
/// coordinates, in 2.14 fixed point, within which it holds (format 1).
#[derive(Clone, Copy, Debug, PartialEq, Eq)]
pub struct ConditionTable {
    pub format: u16,
    pub axis_index: u16,
    pub filter_range_min_value: F2Dot14,
    pub filter_range_max_value: F2Dot14,
}

/// The condition at `x`; only format 1 is defined.
pub open spec fn spec_condition(t: Seq<u8>, x: int) -> Option<ConditionTable> {
    if avail(t, x, 8) && u16_at(t, x) == 1 {
        Some(
            ConditionTable {
                format: 1,
                axis_index: u16_at(t, x + 2),
                filter_range_min_value: F2Dot14(u16_at(t, x + 4)),
                filter_range_max_value: F2Dot14(u16_at(t, x + 6)),
            },
        )
    } else {
        None
    }
}

/// Entry `i` of the condition offsets of the condition set at `y`.
pub open spec fn spec_condition_link(t: Seq<u8>, y: int, i: int) -> Option<Link32<ConditionTable>> {
    match spec_offset32(t, y, y + 2 + 4 * i) {
        None => None,
        Some(((off, None), _)) => Some(Link32 { offset: off, link: None }),
        Some(((off, Some(x)), _)) => match spec_condition(t, x) {
            Some(c) => Some(Link32 { offset: off, link: Some(c) }),
            None => None,
        },
    }
}

/// A set of conditions, all of which must hold.
#[derive(Clone, Debug, PartialEq, Eq)]
pub struct ConditionSet {
    pub condition_count: u16,
    pub condition_offsets: Vec<Link32<ConditionTable>>,
}

/// Mathematical form of `ConditionSet`.
pub struct SpecConditionSet {
    pub condition_count: u16,
    pub condition_offsets: Seq<Link32<ConditionTable>>,
}

impl View for ConditionSet {
    type V = SpecConditionSet;

    open spec fn view(&self) -> SpecConditionSet {
        SpecConditionSet {
            condition_count: self.condition_count,
            condition_offsets: self.condition_offsets@,
        }
    }
}

/// The condition set at `y`: a count and that many 32-bit offsets
/// relative to `y`.
pub open spec fn spec_condition_set(t: Seq<u8>, y: int) -> Option<SpecConditionSet> {
    if !avail(t, y, 2) {
        None
    } else {
        let n = u16_at(t, y);
        if avail(t, y + 2, 4 * n) && forall|i: int|
            0 <= i < n ==> #[trigger] spec_condition_link(t, y, i) is Some {
            Some(
                SpecConditionSet {
                    condition_count: n,
                    condition_offsets: Seq::new(n as nat, |i: int| spec_condition_link(t, y, i).unwrap()),
                },
            )
        } else {
            None
        }
    }
}

/// An alternate feature table for the feature of the given index.
#[derive(Clone, Debug, PartialEq, Eq)]
pub struct FeatureTableSubstitutionRecord {
    pub feature_index: u16,
    pub alternate_feature_offset: Link32<FeatureTable>,
}

/// Mathematical form of `FeatureTableSubstitutionRecord`.
pub struct SpecFeatureTableSubstitutionRecord {
    pub feature_index: u16,
    pub alternate_feature_offset: Link32<SpecFeatureTable>,
}

impl View for FeatureTableSubstitutionRecord {
    type V = SpecFeatureTableSubstitutionRecord;

    open spec fn view(&self) -> SpecFeatureTableSubstitutionRecord {
        SpecFeatureTableSubstitutionRecord {
            feature_index: self.feature_index,
            alternate_feature_offset: self.alternate_feature_offset@,
        }
    }
}

/// The six-byte substitution record at `q` of a substitution table at `z`.
pub open spec fn spec_substitution_record(t: Seq<u8>, z: int, q: int) -> Option<
    SpecFeatureTableSubstitutionRecord,
> {
    if !avail(t, q, 2) {
        None
    } else {
        match spec_offset32(t, z, q + 2) {
            None => None,
            Some(((off, None), _)) => Some(
                SpecFeatureTableSubstitutionRecord {
                    feature_index: u16_at(t, q),
                    alternate_feature_offset: Link32 { offset: off, link: None },
                },
            ),
            Some(((off, Some(x)), _)) => match spec_feature_table(t, x) {
                Some(f) => Some(
                    SpecFeatureTableSubstitutionRecord {
                        feature_index: u16_at(t, q),
                        alternate_feature_offset: Link32 { offset: off, link: Some(f) },
                    },
                ),
                None => None,
            },
        }
    }
}

/// The views of a sequence of substitution records.
pub open spec fn substitutions_view(v: Seq<FeatureTableSubstitutionRecord>) -> Seq<
    SpecFeatureTableSubstitutionRecord,
> {
    v.map_values(|r: FeatureTableSubstitutionRecord| r@)
}

/// A feature table substitution: version 1.0 and its records.
#[derive(Clone, Debug, PartialEq, Eq)]
pub struct FeatureTableSubstitution {
    pub major_version: u16,
    pub minor_version: u16,
    pub substitution_count: u16,
    pub substitutions: Vec<FeatureTableSubstitutionRecord>,
}

/// Mathematical form of `FeatureTableSubstitution`.
pub struct SpecFeatureTableSubstitution {
    pub major_version: u16,
    pub minor_version: u16,
    pub substitution_count: u16,
    pub substitutions: Seq<SpecFeatureTableSubstitutionRecord>,
}

impl View for FeatureTableSubstitution {
    type V = SpecFeatureTableSubstitution;

    open spec fn view(&self) -> SpecFeatureTableSubstitution {
        SpecFeatureTableSubstitution {
            major_version: self.major_version,
            minor_version: self.minor_version,
            substitution_count: self.substitution_count,
            substitutions: substitutions_view(self.substitutions@),
        }
    }
}

/// The feature table substitution at `z`.
pub open spec fn spec_feature_substitution(t: Seq<u8>, z: int) -> Option<
    SpecFeatureTableSubstitution,
> {
    if !avail(t, z, 6) || u16_at(t, z) != 1 || u16_at(t, z + 2) != 0 {
        None
    } else {
        let n = u16_at(t, z + 4);
        if avail(t, z + 6, 6 * n) && forall|i: int|
            0 <= i < n ==> #[trigger] spec_substitution_record(t, z, z + 6 + 6 * i) is Some {
            Some(
                SpecFeatureTableSubstitution {
                    major_version: 1,
                    minor_version: 0,
                    substitution_count: n,
                    substitutions: Seq::new(
                        n as nat,
                        |i: int| spec_substitution_record(t, z, z + 6 + 6 * i).unwrap(),
                    ),
                },
            )
        } else {
            None
        }
    }
}

/// A feature variation: the conditions under which it applies and the
/// feature tables it substitutes.
#[derive(Clone, Debug, PartialEq, Eq)]
pub struct FeatureVariationRecord {
    pub condition_set_offset: Link32<ConditionSet>,
    pub feature_table_substitution_offset: Link32<FeatureTableSubstitution>,
}

/// Mathematical form of `FeatureVariationRecord`.
pub struct SpecFeatureVariationRecord {
    pub condition_set_offset: Link32<SpecConditionSet>,
    pub feature_table_substitution_offset: Link32<SpecFeatureTableSubstitution>,
}

impl View for FeatureVariationRecord {
    type V = SpecFeatureVariationRecord;

    open spec fn view(&self) -> SpecFeatureVariationRecord {
        SpecFeatureVariationRecord {
            condition_set_offset: self.condition_set_offset@,
            feature_table_substitution_offset: self.feature_table_substitution_offset@,
        }
    }
}

/// The eight-byte feature variation record at `q` of the feature variations
/// table at `x`.
pub open spec fn spec_variation_record(t: Seq<u8>, x: int, q: int) -> Option<
    SpecFeatureVariationRecord,
> {
    let cs = match spec_offset32(t, x, q) {
        None => None,
        Some(((off, None), _)) => Some(Link32 { offset: off, link: None }),
        Some(((off, Some(y)), _)) => match spec_condition_set(t, y) {
            Some(c) => Some(Link32 { offset: off, link: Some(c) }),
            None => None,
        },
    };
    let fs = match spec_offset32(t, x, q + 4) {
        None => None,
        Some(((off, None), _)) => Some(Link32 { offset: off, link: None }),
        Some(((off, Some(z)), _)) => match spec_feature_substitution(t, z) {
            Some(f) => Some(Link32 { offset: off, link: Some(f) }),
            None => None,
        },
    };
    match (cs, fs) {
        (Some(c), Some(f)) => Some(
            SpecFeatureVariationRecord {
                condition_set_offset: c,
                feature_table_substitution_offset: f,
            },
        ),
        _ => None,
    }
}

/// The views of a sequence of feature variation records.
pub open spec fn variation_records_view(v: Seq<FeatureVariationRecord>) -> Seq<
    SpecFeatureVariationRecord,
> {
    v.map_values(|r: FeatureVariationRecord| r@)
}

/// The feature variations table: version 1.0 and its records.
#[derive(Clone, Debug, PartialEq, Eq)]
pub struct FeatureVariations {
    pub major_version: u16,
    pub minor_version: u16,
    pub feature_variation_record_count: u32,
    pub feature_variation_records: Vec<FeatureVariationRecord>,
}

/// Mathematical form of `FeatureVariations`.
pub struct SpecFeatureVariations {
    pub major_version: u16,
    pub minor_version: u16,
    pub feature_variation_record_count: u32,
    pub feature_variation_records: Seq<SpecFeatureVariationRecord>,
}

impl View for FeatureVariations {
    type V = SpecFeatureVariations;

    open spec fn view(&self) -> SpecFeatureVariations {
        SpecFeatureVariations {
            major_version: self.major_version,
            minor_version: self.minor_version,
            feature_variation_record_count: self.feature_variation_record_count,
            feature_variation_records: variation_records_view(self.feature_variation_records@),
        }
    }
}

/// The feature variations table at `x`: version 1.0, a 32-bit count and
/// that many records whose offsets are relative to `x`.
pub open spec fn spec_feature_variations(t: Seq<u8>, x: int) -> Option<SpecFeatureVariations> {
    if !avail(t, x, 8) || u16_at(t, x) != 1 || u16_at(t, x + 2) != 0 {
        None
    } else {
        let n = u32_at(t, x + 4);
        if avail(t, x + 8, 8 * n) && forall|i: int|
            0 <= i < n ==> #[trigger] spec_variation_record(t, x, x + 8 + 8 * i) is Some {
            Some(
                SpecFeatureVariations {
                    major_version: 1,
                    minor_version: 0,
                    feature_variation_record_count: n,
                    feature_variation_records: Seq::new(
                        n as nat,
                        |i: int| spec_variation_record(t, x, x + 8 + 8 * i).unwrap(),
                    ),
                },
            )
        } else {
            None
        }
    }
}

fn condition(t: &[u8], x: usize) -> (r: Option<ConditionTable>)
    ensures
        r == spec_condition(t@, x as int),
{
    if has_bytes(t, x, 8) && get_u16be(t, x) == 1 {
        Some(
            ConditionTable {
                format: 1,
                axis_index: get_u16be(t, x + 2),
                filter_range_min_value: F2Dot14(get_u16be(t, x + 4)),
                filter_range_max_value: F2Dot14(get_u16be(t, x + 6)),
            },
        )
    } else {
        None
    }
}

fn condition_set(t: &[u8], y: usize) -> (r: Option<ConditionSet>)
    ensures
        match r {
            Some(c) => spec_condition_set(t@, y as int) == Some(c@),
            None => spec_condition_set(t@, y as int) is None,
        },
{
    if !has_bytes(t, y, 2) {
        return None;
    }
    let n = get_u16be(t, y);
    if !has_bytes(t, y + 2, 4 * (n as usize)) {
        return None;
    }
    let mut v: Vec<Link32<ConditionTable>> = Vec::new();
    let mut i: usize = 0;
    while i < n as usize
        invariant
            0 <= i <= n,
            avail(t@, y as int, 2) && n == u16_at(t@, y as int),
            avail(t@, y + 2, 4 * n),
            t@.len() <= usize::MAX,
            forall|j: int| 0 <= j < i ==> #[trigger] spec_condition_link(t@, y as int, j) is Some,
            v@ =~= Seq::new(i as nat, |j: int| spec_condition_link(t@, y as int, j).unwrap()),
        decreases n - i,
    {
        let (off, target, _) = match offset32(t, y, y + 2 + 4 * i) {
            Some(o) => o,
            None => {
                assert(spec_condition_link(t@, y as int, i as int) is None);
                return None;
            },
        };
        let link = match target {
            None => None,
            Some(x) => match condition(t, x) {
                Some(c) => Some(c),
                None => {
                    assert(spec_condition_link(t@, y as int, i as int) is None);
                    return None;
                },
            },
        };
        let entry = Link32 { offset: off, link };
        assert(spec_condition_link(t@, y as int, i as int) == Some(entry));
        v.push(entry);
        i = i + 1;
        assert(v@ =~= Seq::new(i as nat, |j: int| spec_condition_link(t@, y as int, j).unwrap()));
    }
    Some(ConditionSet { condition_count: n, condition_offsets: v })
}

fn substitution_record(t: &[u8], z: usize, q: usize) -> (r: Option<FeatureTableSubstitutionRecord>)
    ensures
        match r {
            Some(f) => spec_substitution_record(t@, z as int, q as int) == Some(f@),
            None => spec_substitution_record(t@, z as int, q as int) is None,
        },
{
    if !has_bytes(t, q, 2) {
        return None;
    }
    let idx = get_u16be(t, q);
    let (off, target, _) = match offset32(t, z, q + 2) {
        Some(o) => o,
        None => return None,
    };
    let link = match target {
        None => None,
        Some(x) => match feature_table(t, x) {
            Some(f) => Some(f),
            None => return None,
        },
    };
    Some(
        FeatureTableSubstitutionRecord {
            feature_index: idx,
            alternate_feature_offset: Link32 { offset: off, link },
        },
    )
}

fn feature_substitution(t: &[u8], z: usize) -> (r: Option<FeatureTableSubstitution>)
    ensures
        match r {
            Some(f) => spec_feature_substitution(t@, z as int) == Some(f@),
            None => spec_feature_substitution(t@, z as int) is None,
        },
{
    if !has_bytes(t, z, 6) || get_u16be(t, z) != 1 || get_u16be(t, z + 2) != 0 {
        return None;
    }
    let n = get_u16be(t, z + 4);
    if !has_bytes(t, z + 6, 6 * (n as usize)) {
        return None;
    }
    let mut v: Vec<FeatureTableSubstitutionRecord> = Vec::new();
    let mut i: usize = 0;
    while i < n as usize
        invariant
            0 <= i <= n,
            avail(t@, z as int, 6) && u16_at(t@, z as int) == 1 && u16_at(t@, z + 2) == 0,
            n == u16_at(t@, z + 4),
            avail(t@, z + 6, 6 * n),
            t@.len() <= usize::MAX,
            forall|j: int|
                0 <= j < i ==> #[trigger] spec_substitution_record(t@, z as int, z + 6 + 6 * j) is Some,
            substitutions_view(v@) =~= Seq::new(
                i as nat,
                |j: int| spec_substitution_record(t@, z as int, z + 6 + 6 * j).unwrap(),
            ),
        decreases n - i,
    {
        let rec = match substitution_record(t, z, z + 6 + 6 * i) {
            Some(r) => r,
            None => {
                assert(spec_substitution_record(t@, z as int, z + 6 + 6 * i) is None);
                return None;
            },
        };
        let ghost old_v = v@;
        v.push(rec);
        assert(substitutions_view(v@) =~= substitutions_view(old_v).push(rec@));
        i = i + 1;
        assert(substitutions_view(v@) =~= Seq::new(
            i as nat,
            |j: int| spec_substitution_record(t@, z as int, z + 6 + 6 * j).unwrap(),
        ));
    }
    Some(
        FeatureTableSubstitution {
            major_version: 1,
            minor_version: 0,
            substitution_count: n,
            substitutions: v,
        },
    )
}

fn variation_record(t: &[u8], x: usize, q: usize) -> (r: Option<FeatureVariationRecord>)
    ensures
        match r {
            Some(f) => spec_variation_record(t@, x as int, q as int) == Some(f@),
            None => spec_variation_record(t@, x as int, q as int) is None,
        },
{
    let (off, target, _) = match offset32(t, x, q) {
        Some(o) => o,
        None => return None,
    };
    let cs = match target {
        None => None,
        Some(y) => match condition_set(t, y) {
            Some(c) => Some(c),
            None => return None,
        },
    };
    let (off2, target2, _) = match offset32(t, x, q + 4) {
        Some(o) => o,
        None => return None,
    };
    let fs = match target2 {
        None => None,
        Some(z) => match feature_substitution(t, z) {
            Some(f) => Some(f),
            None => return None,
        },
    };
    Some(
        FeatureVariationRecord {
            condition_set_offset: Link32 { offset: off, link: cs },
            feature_table_substitution_offset: Link32 { offset: off2, link: fs },
        },
    )
}

/// Parses the feature variations table at `x`.
pub fn feature_variations(t: &[u8], x: usize) -> (r: Option<FeatureVariations>)
    ensures
        match r {
            Some(f) => spec_feature_variations(t@, x as int) == Some(f@),
            None => spec_feature_variations(t@, x as int) is None,
        },
{
    if !has_bytes(t, x, 8) || get_u16be(t, x) != 1 || get_u16be(t, x + 2) != 0 {
        return None;
    }
    let n = get_u32be(t, x + 4);
    if !fits(t, x + 8, n, 8) {
        return None;
    }
    let mut v: Vec<FeatureVariationRecord> = Vec::new();
    let mut i: usize = 0;
    while i < n as usize
        invariant
            0 <= i <= n,
            avail(t@, x as int, 8) && u16_at(t@, x as int) == 1 && u16_at(t@, x + 2) == 0,
            n == u32_at(t@, x + 4),
            avail(t@, x + 8, 8 * n),
            t@.len() <= usize::MAX,
            forall|j: int|
                0 <= j < i ==> #[trigger] spec_variation_record(t@, x as int, x + 8 + 8 * j) is Some,
            variation_records_view(v@) =~= Seq::new(
                i as nat,
                |j: int| spec_variation_record(t@, x as int, x + 8 + 8 * j).unwrap(),
            ),
        decreases n - i,
    {
        let rec = match variation_record(t, x, x + 8 + 8 * i) {
            Some(r) => r,
            None => {
                assert(spec_variation_record(t@, x as int, x + 8 + 8 * i) is None);
                return None;
            },
        };
        let ghost old_v = v@;
        v.push(rec);
        assert(variation_records_view(v@) =~= variation_records_view(old_v).push(rec@));
        i = i + 1;
        assert(variation_records_view(v@) =~= Seq::new(
            i as nat,
            |j: int| spec_variation_record(t@, x as int, x + 8 + 8 * j).unwrap(),
        ));
    }
    Some(
        FeatureVariations {
            major_version: 1,
            minor_version: 0,
            feature_variation_record_count: n,
            feature_variation_records: v,
        },
    )
}


/// Every list of the common layout tables holds exactly as many entries as
/// its count field says: the language systems of a script, the feature
/// indices of a language system, the scripts of a script list, the features
/// of a feature list, the lookup indices of a feature, the conditions of a
/// condition set, the substitutions of a feature table substitution and the
/// records of a feature variations table.
pub proof fn lemma_layout_counts(t: Seq<u8>, x: int)
    ensures
        spec_lang_sys(t, x) matches Some(l) ==> l.feature_indices.len() == l.feature_index_count,
        spec_script_table(t, x) matches Some(s) ==> s.lang_sys_records.len() == s.lang_sys_count,
        spec_script_list(t, x) matches Some(s) ==> s.script_records.len() == s.script_count,
        spec_feature_table(t, x) matches Some(f) ==> f.lookup_list_indices.len() == f.lookup_index_count,
        spec_feature_list(t, x) matches Some(f) ==> f.feature_records.len() == f.feature_count,
        spec_condition_set(t, x) matches Some(c) ==> c.condition_offsets.len() == c.condition_count,
        spec_feature_substitution(t, x) matches Some(f) ==> f.substitutions.len() == f.substitution_count,
        spec_feature_variations(t, x) matches Some(f) ==> f.feature_variation_records.len()
            == f.feature_variation_record_count,
{
}


/// Each flag of a lookup flag word is set exactly when its bit is: bit 0
/// right to left, 1 ignore base glyphs, 2 ignore ligatures, 3 ignore marks,
/// 4 use a mark filtering set; the high byte is the mark attachment class
/// filter.
pub proof fn lemma_lookup_flag_bits(raw: u16)
    ensures
        ({
            let f = spec_lookup_flag(raw);
            &&& f.right_to_left == (raw & 0x0001 != 0)
            &&& f.ignore_base_glyphs == (raw & 0x0002 != 0)
            &&& f.ignore_ligatures == (raw & 0x0004 != 0)
            &&& f.ignore_marks == (raw & 0x0008 != 0)
            &&& f.use_mark_filtering_set == (raw & 0x0010 != 0)
            &&& f.mark_attachment_class_filter == raw >> 8
        }),
{
    assert({
        &&& (raw % 2 == 1) == (raw & 0x0001 != 0)
        &&& ((raw / 2) % 2 == 1) == (raw & 0x0002 != 0)
        &&& ((raw / 4) % 2 == 1) == (raw & 0x0004 != 0)
        &&& ((raw / 8) % 2 == 1) == (raw & 0x0008 != 0)
        &&& ((raw / 16) % 2 == 1) == (raw & 0x0010 != 0)
        &&& raw / 256 == raw >> 8
    }) by (bit_vector);
}


/// The common layout records read their own bytes: a language system has a
/// zero lookup-order word, the required feature index at `x + 2`, a count
/// at `x + 4` and feature index words from `x + 6`; a script, feature or
/// language-system record has a tag double word then an offset word; a
/// feature table has its parameters word, a count and lookup index words;
/// a condition has format 1, an axis index and two F2Dot14 limits.
pub proof fn lemma_common_fields(t: Seq<u8>, base: int, x: int)
    ensures
        spec_lang_sys(t, x) matches Some(l) ==> crate::bytes::word_at(t, x) == 0 && l.required_feature_index == crate::bytes::word_at(t, x + 2)
            && l.feature_index_count == crate::bytes::word_at(t, x + 4) && forall|i: int|
            0 <= i < l.feature_index_count ==> #[trigger] l.feature_indices[i] == crate::bytes::word_at(t, x + 6 + 2 * i),
        spec_lang_sys_record(t, base, x) matches Some(r) ==> r.lang_sys_tag == crate::bytes::dword_at(t, x)
            && r.lang_sys.offset == crate::bytes::word_at(t, x + 4),
        spec_script_record(t, base, x) matches Some(r) ==> r.script_tag == crate::bytes::dword_at(t, x) && r.script.offset
            == crate::bytes::word_at(t, x + 4),
        spec_feature_record(t, base, x) matches Some(r) ==> r.feature_tag == crate::bytes::dword_at(t, x) && r.feature.offset
            == crate::bytes::word_at(t, x + 4),
        spec_feature_table(t, x) matches Some(f) ==> f.feature_params == crate::bytes::word_at(t, x) && f.lookup_index_count
            == crate::bytes::word_at(t, x + 2) && forall|i: int|
            0 <= i < f.lookup_index_count ==> #[trigger] f.lookup_list_indices[i] == crate::bytes::word_at(t, x + 4 + 2 * i),
        spec_condition(t, x) matches Some(c) ==> crate::bytes::word_at(t, x) == 1 && c.axis_index == crate::bytes::word_at(t, x + 2)
            && c.filter_range_min_value.0 == crate::bytes::word_at(t, x + 4) && c.filter_range_max_value.0 == crate::bytes::word_at(t, x + 6),
{
    if avail(t, x, 6) {
        crate::bytes::lemma_readers_spell(t, x);
        crate::bytes::lemma_readers_spell(t, x + 2);
        crate::bytes::lemma_readers_spell(t, x + 4);
        crate::bytes::lemma_dword_spells(t, x);
    }
    if avail(t, x, 8) {
        crate::bytes::lemma_readers_spell(t, x + 6);
    }
    if let Some(l) = spec_lang_sys(t, x) {
        assert forall|i: int| 0 <= i < l.feature_index_count implies #[trigger] l.feature_indices[i] == crate::bytes::word_at(t, x + 6 + 2 * i) by {
            crate::bytes::lemma_readers_spell(t, x + 6 + 2 * i);
        }
    }
    if let Some(f) = spec_feature_table(t, x) {
        crate::bytes::lemma_readers_spell(t, x);
        crate::bytes::lemma_readers_spell(t, x + 2);
        assert forall|i: int| 0 <= i < f.lookup_index_count implies #[trigger] f.lookup_list_indices[i] == crate::bytes::word_at(t, x + 4 + 2 * i) by {
            crate::bytes::lemma_readers_spell(t, x + 4 + 2 * i);
        }
    }
}

} // verus!
