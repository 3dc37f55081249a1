//! The tables of a font, each parsed from its own bytes as the table
//! directory locates them; some take values from tables read before them.
use vstd::prelude::*;
use crate::opentype::cmap::{cmap_table, spec_cmap_table, CmapTable, SpecCmapTable};
use crate::opentype::directory::{
    find_table, optional_table, required_table, spec_table_data, with_table, TableRecord,
};
use crate::opentype::fvar::{fvar_table, spec_fvar_table, FvarTable, SpecFvarTable};
use crate::opentype::glyf::{
    entries_view, glyf_table, loca_offsets, loca_table, spec_glyf_table, spec_loca_table,
    GlyfEntry, LocaOffsets, LocaTable, SpecGlyfEntry, SpecLocaOffsets,
};
use crate::opentype::base::{base_table, spec_base_table, BaseTable, SpecBaseTable};
use crate::opentype::gdef::{gdef_table, spec_gdef_table, GdefTable, SpecGdefTable};
use crate::opentype::gpos_table::{gpos_table, spec_gpos_table, GposTable, SpecGposTable};
use crate::opentype::gsub::{gsub_table, spec_gsub_table, GsubTable, SpecGsubTable};
use crate::opentype::gvar::{gvar_table, spec_gvar_table, GvarTable, SpecGvarTable};
use crate::opentype::kern::{kern_table, spec_kern_table, KernTable, SpecKernTable};
use crate::opentype::metrics::{
    head_table, hhea_table, hmtx_table, maxp_table, spec_head_table, spec_hhea_table,
    spec_hmtx_table, spec_maxp_table, vhea_long_metrics, HeadTable, HheaTable, HmtxTable,
    MaxpTable, SpecHmtxTable,
};
use crate::opentype::name::{name_table, spec_name_table, NameTable, SpecNameTable};
use crate::opentype::os2::{
    byte_table, cvt_table, gasp_table, os2_table, post_table, spec_cvt_table, spec_gasp_table,
    spec_os2_table, spec_post_table, GaspTable, Os2Table, PostTable, SpecGaspTable, SpecOs2Table,
    SpecPostTable,
};
use crate::opentype::stat::{spec_stat_table, stat_table, SpecStatTable, StatTable};

verus! {

/// `cmap`
pub const TAG_CMAP: u32 = 0x636d_6170;

/// `head`
pub const TAG_HEAD: u32 = 0x6865_6164;

/// `hhea`
pub const TAG_HHEA: u32 = 0x6868_6561;

/// `maxp`
pub const TAG_MAXP: u32 = 0x6d61_7870;

/// `hmtx`
pub const TAG_HMTX: u32 = 0x686d_7478;

/// `name`
pub const TAG_NAME: u32 = 0x6e61_6d65;

/// `OS/2`
pub const TAG_OS2: u32 = 0x4f53_2f32;

/// `post`
pub const TAG_POST: u32 = 0x706f_7374;

/// `cvt `
pub const TAG_CVT: u32 = 0x6376_7420;

/// `fpgm`
pub const TAG_FPGM: u32 = 0x6670_676d;

/// `loca`
pub const TAG_LOCA: u32 = 0x6c6f_6361;

/// `glyf`
pub const TAG_GLYF: u32 = 0x676c_7966;

/// `prep`
pub const TAG_PREP: u32 = 0x7072_6570;

/// `gasp`
pub const TAG_GASP: u32 = 0x6761_7370;

/// `BASE`
pub const TAG_BASE: u32 = 0x4241_5345;

/// `GDEF`
pub const TAG_GDEF: u32 = 0x4744_4546;

/// `GPOS`
pub const TAG_GPOS: u32 = 0x4750_4f53;

/// `GSUB`
pub const TAG_GSUB: u32 = 0x4753_5542;

/// `fvar`
pub const TAG_FVAR: u32 = 0x6676_6172;

/// `gvar`
pub const TAG_GVAR: u32 = 0x6776_6172;

/// `kern`
pub const TAG_KERN: u32 = 0x6b65_726e;

/// `STAT`
pub const TAG_STAT: u32 = 0x5354_4154;

/// `vhea`
pub const TAG_VHEA: u32 = 0x7668_6561;

/// `vmtx`
pub const TAG_VMTX: u32 = 0x766d_7478;

/// The tables of a font: those every font has, and those it may have.
#[derive(Clone, Debug, PartialEq, Eq)]
pub struct TableLinks {
    pub cmap: CmapTable,
    pub head: HeadTable,
    pub hhea: HheaTable,
    pub maxp: MaxpTable,
    pub hmtx: HmtxTable,
    pub name: NameTable,
    pub os2: Os2Table,
    pub post: PostTable,
    pub cvt: Option<Vec<i16>>,
    pub fpgm: Option<Vec<u8>>,
    pub loca: Option<LocaTable>,
    pub glyf: Option<Vec<GlyfEntry>>,
    pub prep: Option<Vec<u8>>,
    pub gasp: Option<GaspTable>,
    pub base: Option<BaseTable>,
    pub gdef: Option<GdefTable>,
    pub gpos: Option<GposTable>,
    pub gsub: Option<GsubTable>,
    pub fvar: Option<FvarTable>,
    pub gvar: Option<GvarTable>,
    pub kern: Option<KernTable>,
    pub stat: Option<StatTable>,
    pub vhea: Option<HheaTable>,
    pub vmtx: Option<HmtxTable>,
}

/// Mathematical form of `TableLinks`.
pub struct SpecTableLinks {
    pub cmap: SpecCmapTable,
    pub head: HeadTable,
    pub hhea: HheaTable,
    pub maxp: MaxpTable,
    pub hmtx: SpecHmtxTable,
    pub name: SpecNameTable,
    pub os2: SpecOs2Table,
    pub post: SpecPostTable,
    pub cvt: Option<Seq<i16>>,
    pub fpgm: Option<Seq<u8>>,
    pub loca: Option<SpecLocaOffsets>,
    pub glyf: Option<Seq<SpecGlyfEntry>>,
    pub prep: Option<Seq<u8>>,
    pub gasp: Option<SpecGaspTable>,
    pub base: Option<SpecBaseTable>,
    pub gdef: Option<SpecGdefTable>,
    pub gpos: Option<SpecGposTable>,
    pub gsub: Option<SpecGsubTable>,
    pub fvar: Option<SpecFvarTable>,
    pub gvar: Option<SpecGvarTable>,
    pub kern: Option<SpecKernTable>,
    pub stat: Option<SpecStatTable>,
    pub vhea: Option<HheaTable>,
    pub vmtx: Option<SpecHmtxTable>,
}

/// The view of an optional value.
pub open spec fn opt_view<T: View>(o: Option<T>) -> Option<T::V> {
    match o {
        Some(v) => Some(v@),
        None => None,
    }
}

impl View for TableLinks {
    type V = SpecTableLinks;

    open spec fn view(&self) -> SpecTableLinks {
        SpecTableLinks {
            cmap: self.cmap@,
            head: self.head,
            hhea: self.hhea,
            maxp: self.maxp,
            hmtx: self.hmtx@,
            name: self.name@,
            os2: self.os2@,
            post: self.post@,
            cvt: opt_view(self.cvt),
            fpgm: opt_view(self.fpgm),
            loca: opt_view(self.loca),
            glyf: match self.glyf {
                Some(v) => Some(entries_view(v@)),
                None => None,
            },
            prep: opt_view(self.prep),
            gasp: opt_view(self.gasp),
            base: opt_view(self.base),
            gdef: opt_view(self.gdef),
            gpos: opt_view(self.gpos),
            gsub: opt_view(self.gsub),
            fvar: opt_view(self.fvar),
            gvar: opt_view(self.gvar),
            kern: opt_view(self.kern),
            stat: opt_view(self.stat),
            vhea: self.vhea,
            vmtx: opt_view(self.vmtx),
        }
    }
}

/// The bytes of the table with id `id`, which the font must have: `None`
/// when it has no such table or its bytes cannot be had.
pub open spec fn spec_required_bytes(
    s: Seq<u8>,
    font_start: int,
    here: int,
    recs: Seq<TableRecord>,
    id: u32,
) -> Option<Seq<u8>> {
    match find_table(recs, id) {
        None => None,
        Some(rec) => spec_table_data(s, font_start, here, rec),
    }
}

/// The bytes of the table with id `id`, which the font may have:
/// `Some(None)` when it has none, `None` when its bytes cannot be had.
pub open spec fn spec_optional_bytes(
    s: Seq<u8>,
    font_start: int,
    here: int,
    recs: Seq<TableRecord>,
    id: u32,
) -> Option<Option<Seq<u8>>> {
    match find_table(recs, id) {
        None => Some(None),
        Some(rec) => match spec_table_data(s, font_start, here, rec) {
            None => None,
            Some(b) => Some(Some(b)),
        },
    }
}

/// Where in the file the table with id `id` lies: `font_start` plus the
/// offset of its first record (0 when there is none).
pub open spec fn table_origin(font_start: int, recs: Seq<TableRecord>, id: u32) -> int {
    match find_table(recs, id) {
        Some(rec) => font_start + rec.offset,
        None => 0,
    }
}

/// The value of a parse, without the position where it ended.
pub open spec fn parsed<T>(r: Option<(T, int)>) -> Option<T> {
    match r {
        Some((v, _)) => Some(v),
        None => None,
    }
}

/// The tables every font has, in the order they are read: `cmap`, `head`,
/// `hhea`, `maxp`, `hmtx` (with the long-metric count of `hhea` and the
/// glyph count of `maxp`), `name`, `OS/2` (with its length) and `post`.
/// Each is read from its own bytes; a missing or failing one fails.
pub open spec fn spec_required_tables(
    s: Seq<u8>,
    font_start: int,
    here: int,
    recs: Seq<TableRecord>,
) -> Option<
    (
        SpecCmapTable,
        HeadTable,
        HheaTable,
        MaxpTable,
        SpecHmtxTable,
        SpecNameTable,
        SpecOs2Table,
        SpecPostTable,
    ),
> {
    let b = |id: u32| spec_required_bytes(s, font_start, here, recs, id);
    match (
        b(TAG_CMAP),
        b(TAG_HEAD),
        b(TAG_HHEA),
        b(TAG_MAXP),
        b(TAG_HMTX),
        b(TAG_NAME),
        b(TAG_OS2),
        b(TAG_POST),
    ) {
        (Some(cm), Some(he), Some(hh), Some(mx), Some(hm), Some(nm), Some(os), Some(po)) => {
            match (
                parsed(spec_cmap_table(cm)),
                parsed(spec_head_table(he)),
                parsed(spec_hhea_table(hh)),
                parsed(spec_maxp_table(mx)),
            ) {
                (Some(cmap), Some(head), Some(hhea), Some(maxp)) => match (
                    parsed(spec_hmtx_table(hm, hhea.number_of_long_metrics, maxp.num_glyphs)),
                    parsed(spec_name_table(nm)),
                    parsed(spec_os2_table(os, os.len() as u32)),
                    parsed(spec_post_table(po, table_origin(font_start, recs, TAG_POST))),
                ) {
                    (Some(hmtx), Some(name), Some(os2), Some(post)) => Some(
                        (cmap, head, hhea, maxp, hmtx, name, os2, post),
                    ),
                    _ => None,
                },
                _ => None,
            }
        },
        _ => None,
    }
}

/// An optional table whose reading cannot fail once its bytes are had.
pub open spec fn total_opt<T>(b: Option<Option<Seq<u8>>>, f: spec_fn(Seq<u8>) -> T) -> Option<
    Option<T>,
> {
    match b {
        None => None,
        Some(None) => Some(None),
        Some(Some(x)) => Some(Some(f(x))),
    }
}

/// An optional table read by `f`, which may fail.
pub open spec fn partial_opt<T>(
    b: Option<Option<Seq<u8>>>,
    f: spec_fn(Seq<u8>) -> Option<T>,
) -> Option<Option<T>> {
    match b {
        None => None,
        Some(None) => Some(None),
        Some(Some(x)) => match f(x) {
            None => None,
            Some(v) => Some(Some(v)),
        },
    }
}

/// The TrueType outline tables a font may have: `cvt `, `fpgm`, `loca`
/// (with the glyph count of `maxp` and the location format of `head`),
/// `glyf` (with the offsets of `loca`, an empty list where there is no
/// `loca`), `prep` and `gasp`.
pub open spec fn spec_outline_tables(
    s: Seq<u8>,
    font_start: int,
    here: int,
    recs: Seq<TableRecord>,
    head: HeadTable,
    maxp: MaxpTable,
) -> Option<
    (
        Option<Seq<i16>>,
        Option<Seq<u8>>,
        Option<SpecLocaOffsets>,
        Option<Seq<SpecGlyfEntry>>,
        Option<Seq<u8>>,
        Option<SpecGaspTable>,
    ),
> {
    let b = |id: u32| spec_optional_bytes(s, font_start, here, recs, id);
    let loca = partial_opt(
        b(TAG_LOCA),
        |x: Seq<u8>| parsed(spec_loca_table(x, maxp.num_glyphs, head.index_to_loc_format)),
    );
    match loca {
        None => None,
        Some(l) => {
            let offsets = match l {
                Some(o) => o,
                None => SpecLocaOffsets::Offsets32(Seq::empty()),
            };
            match (
                total_opt(b(TAG_CVT), |x: Seq<u8>| spec_cvt_table(x)),
                total_opt(b(TAG_FPGM), |x: Seq<u8>| x),
                partial_opt(b(TAG_GLYF), |x: Seq<u8>| spec_glyf_table(x, offsets)),
                total_opt(b(TAG_PREP), |x: Seq<u8>| x),
                partial_opt(b(TAG_GASP), |x: Seq<u8>| parsed(spec_gasp_table(x))),
            ) {
                (Some(cvt), Some(fpgm), Some(glyf), Some(prep), Some(gasp)) => Some(
                    (cvt, fpgm, l, glyf, prep, gasp),
                ),
                _ => None,
            }
        },
    }
}

/// The vertical metrics a font may have: read with the long-metric count
/// of `vhea`, which must then be present, and the glyph count of `maxp`.
pub open spec fn spec_vmtx(
    s: Seq<u8>,
    font_start: int,
    here: int,
    recs: Seq<TableRecord>,
    vhea: Option<HheaTable>,
    maxp: MaxpTable,
) -> Option<Option<SpecHmtxTable>> {
    match spec_optional_bytes(s, font_start, here, recs, TAG_VMTX) {
        None => None,
        Some(None) => Some(None),
        Some(Some(x)) => match vhea {
            None => None,
            Some(v) => match parsed(spec_hmtx_table(x, v.number_of_long_metrics, maxp.num_glyphs)) {
                None => None,
                Some(m) => Some(Some(m)),
            },
        },
    }
}

/// The other tables a font may have: `fvar`, `kern`, `STAT`, `vhea` and
/// `vmtx` (with the long-metric count of `vhea`, which it needs, and the
/// glyph count of `maxp`).
pub open spec fn spec_other_tables(
    s: Seq<u8>,
    font_start: int,
    here: int,
    recs: Seq<TableRecord>,
    maxp: MaxpTable,
) -> Option<
    (
        Option<SpecFvarTable>,
        Option<SpecKernTable>,
        Option<SpecStatTable>,
        Option<HheaTable>,
        Option<SpecHmtxTable>,
    ),
> {
    let b = |id: u32| spec_optional_bytes(s, font_start, here, recs, id);
    match (
        partial_opt(b(TAG_FVAR), |x: Seq<u8>| parsed(spec_fvar_table(x))),
        partial_opt(
            b(TAG_KERN),
            |x: Seq<u8>| parsed(spec_kern_table(x, table_origin(font_start, recs, TAG_KERN))),
        ),
        partial_opt(
            b(TAG_STAT),
            |x: Seq<u8>| parsed(spec_stat_table(x, table_origin(font_start, recs, TAG_STAT))),
        ),
        partial_opt(b(TAG_VHEA), |x: Seq<u8>| parsed(spec_hhea_table(x))),
    ) {
        (Some(fvar), Some(kern), Some(stat), Some(vhea)) => {
            let vmtx = spec_vmtx(s, font_start, here, recs, vhea, maxp);
            match vmtx {
                None => None,
                Some(vmtx) => Some((fvar, kern, stat, vhea, vmtx)),
            }
        },
        _ => None,
    }
}

/// The advanced typography tables a font may have: `BASE`, `GDEF`, `GPOS`
/// and `GSUB`.
pub open spec fn spec_layout_tables(
    s: Seq<u8>,
    font_start: int,
    here: int,
    recs: Seq<TableRecord>,
) -> Option<
    (
        Option<SpecBaseTable>,
        Option<SpecGdefTable>,
        Option<SpecGposTable>,
        Option<SpecGsubTable>,
    ),
> {
    match (
        partial_opt(
            spec_optional_bytes(s, font_start, here, recs, TAG_BASE),
            |x: Seq<u8>| parsed(spec_base_table(x)),
        ),
        partial_opt(
            spec_optional_bytes(s, font_start, here, recs, TAG_GDEF),
            |x: Seq<u8>| parsed(spec_gdef_table(x)),
        ),
        partial_opt(
            spec_optional_bytes(s, font_start, here, recs, TAG_GPOS),
            |x: Seq<u8>| parsed(spec_gpos_table(x)),
        ),
        partial_opt(
            spec_optional_bytes(s, font_start, here, recs, TAG_GSUB),
            |x: Seq<u8>| parsed(spec_gsub_table(x)),
        ),
    ) {
        (Some(base), Some(gdef), Some(gpos), Some(gsub)) => Some((base, gdef, gpos, gsub)),
        _ => None,
    }
}

/// The glyph variations a font may have: `gvar`.
pub open spec fn spec_gvar_opt(s: Seq<u8>, font_start: int, here: int, recs: Seq<TableRecord>) -> Option<
    Option<SpecGvarTable>,
> {
    partial_opt(
        spec_optional_bytes(s, font_start, here, recs, TAG_GVAR),
        |x: Seq<u8>| parsed(spec_gvar_table(x)),
    )
}

/// The tables of the font whose directory, read up to `here`, holds the
/// records `recs`, offsets being relative to `font_start`: all the tables
/// above; any failure fails the whole.
#[verifier::opaque]
pub open spec fn spec_table_links(
    s: Seq<u8>,
    font_start: int,
    here: int,
    recs: Seq<TableRecord>,
) -> Option<SpecTableLinks> {
    match spec_required_tables(s, font_start, here, recs) {
        None => None,
        Some((cmap, head, hhea, maxp, hmtx, name, os2, post)) => match (
            spec_outline_tables(s, font_start, here, recs, head, maxp),
            spec_layout_tables(s, font_start, here, recs),
            spec_other_tables(s, font_start, here, recs, maxp),
            spec_gvar_opt(s, font_start, here, recs),
        ) {
            (
                Some((cvt, fpgm, loca, glyf, prep, gasp)),
                Some((base, gdef, gpos, gsub)),
                Some((fvar, kern, stat, vhea, vmtx)),
                Some(gvar),
            ) => {
                Some(
                    SpecTableLinks {
                        cmap,
                        head,
                        hhea,
                        maxp,
                        hmtx,
                        name,
                        os2,
                        post,
                        cvt,
                        fpgm,
                        loca,
                        glyf,
                        prep,
                        gasp,
                        base,
                        gdef,
                        gpos,
                        gsub,
                        fvar,
                        gvar,
                        kern,
                        stat,
                        vhea,
                        vmtx,
                    },
                )
            },
            _ => None,
        },
    }
}

fn req<'a>(s: &'a [u8], font_start: usize, here: usize, recs: &[TableRecord], id: u32) -> (r: Option<
    &'a [u8],
>)
    ensures
        match r {
            Some(t) => spec_required_bytes(s@, font_start as int, here as int, recs@, id) == Some(
                t@,
            ),
            None => spec_required_bytes(s@, font_start as int, here as int, recs@, id) is None,
        },
{
    required_table(s, font_start, here, recs, id)
}

/// The position in the file of the table with id `id`, once its bytes `t`
/// have been had.
fn origin_of(s: &[u8], font_start: usize, here: usize, recs: &[TableRecord], id: u32, t: &[u8]) -> (o: usize)
    requires
        find_table(recs@, id) matches Some(rec) && spec_table_data(
            s@,
            font_start as int,
            here as int,
            rec,
        ) == Some(t@),
    ensures
        o == table_origin(font_start as int, recs@, id),
        o + t@.len() <= s@.len(),
{
    let _len = s.len();
    let rec = with_table(recs, id).unwrap();
    font_start + rec.offset as usize
}

fn opt<'a>(s: &'a [u8], font_start: usize, here: usize, recs: &[TableRecord], id: u32) -> (r: Option<
    Option<&'a [u8]>,
>)
    ensures
        match r {
            Some(Some(t)) => spec_optional_bytes(s@, font_start as int, here as int, recs@, id)
                == Some(Some(t@)),
            Some(None) => spec_optional_bytes(s@, font_start as int, here as int, recs@, id)
                == Some(None::<Seq<u8>>),
            None => spec_optional_bytes(s@, font_start as int, here as int, recs@, id) is None,
        },
{
    optional_table(s, font_start, here, recs, id)
}

#[verifier::rlimit(40)]
fn required_tables(s: &[u8], font_start: usize, here: usize, recs: &[TableRecord]) -> (r: Option<
    (CmapTable, HeadTable, HheaTable, MaxpTable, HmtxTable, NameTable, Os2Table, PostTable),
>)
    ensures
        match r {
            Some((cmap, head, hhea, maxp, hmtx, name, os2, post)) => spec_required_tables(
                s@,
                font_start as int,
                here as int,
                recs@,
            ) == Some((cmap@, head, hhea, maxp, hmtx@, name@, os2@, post@)),
            None => spec_required_tables(s@, font_start as int, here as int, recs@) is None,
        },
{
    let cm = match req(s, font_start, here, recs, TAG_CMAP) {
        Some(b) => b,
        None => return None,
    };
    let he = match req(s, font_start, here, recs, TAG_HEAD) {
        Some(b) => b,
        None => return None,
    };
    let hh = match req(s, font_start, here, recs, TAG_HHEA) {
        Some(b) => b,
        None => return None,
    };
    let mx = match req(s, font_start, here, recs, TAG_MAXP) {
        Some(b) => b,
        None => return None,
    };
    let hm = match req(s, font_start, here, recs, TAG_HMTX) {
        Some(b) => b,
        None => return None,
    };
    let nm = match req(s, font_start, here, recs, TAG_NAME) {
        Some(b) => b,
        None => return None,
    };
    let os = match req(s, font_start, here, recs, TAG_OS2) {
        Some(b) => b,
        None => return None,
    };
    let po = match req(s, font_start, here, recs, TAG_POST) {
        Some(b) => b,
        None => return None,
    };
    let cmap = match cmap_table(cm) {
        Some((v, _)) => v,
        None => return None,
    };
    let head = match head_table(he) {
        Some((v, _)) => v,
        None => return None,
    };
    let hhea = match hhea_table(hh) {
        Some((v, _)) => v,
        None => return None,
    };
    let maxp = match maxp_table(mx) {
        Some((v, _)) => v,
        None => return None,
    };
    let hmtx = match hmtx_table(hm, hhea.number_of_long_metrics, maxp.num_glyphs) {
        Some((v, _)) => v,
        None => return None,
    };
    let name = match name_table(nm) {
        Some((v, _)) => v,
        None => return None,
    };
    proof {
        // The bytes of a table are as long as its record says, a `u32`.
        let rec = find_table(recs@, TAG_OS2).unwrap();
        assert(os@.len() == rec.length);
    }
    let os2 = match os2_table(os, os.len() as u32) {
        Some((v, _)) => v,
        None => return None,
    };
    let po_at = origin_of(s, font_start, here, recs, TAG_POST, po);
    let _len = s.len();
    let post = match post_table(po, po_at) {
        Some((v, _)) => v,
        None => return None,
    };
    Some((cmap, head, hhea, maxp, hmtx, name, os2, post))
}

/// A copy of an optional `loca` table.
fn copy_loca(loca: &Option<LocaTable>) -> (r: Option<LocaTable>)
    ensures
        opt_view(r) == opt_view(*loca),
{
    match loca {
        None => None,
        Some(l) => match &l.offsets {
            LocaOffsets::Offsets16(v) => {
                let w = v.clone();
                assert(w@ =~= v@);
                Some(LocaTable { offsets: LocaOffsets::Offsets16(w) })
            },
            LocaOffsets::Offsets32(v) => {
                let w = v.clone();
                assert(w@ =~= v@);
                Some(LocaTable { offsets: LocaOffsets::Offsets32(w) })
            },
        },
    }
}

fn outline_tables(
    s: &[u8],
    font_start: usize,
    here: usize,
    recs: &[TableRecord],
    head: &HeadTable,
    maxp: &MaxpTable,
) -> (r: Option<
    (
        Option<Vec<i16>>,
        Option<Vec<u8>>,
        Option<LocaTable>,
        Option<Vec<GlyfEntry>>,
        Option<Vec<u8>>,
        Option<GaspTable>,
    ),
>)
    ensures
        match r {
            Some((cvt, fpgm, loca, glyf, prep, gasp)) => spec_outline_tables(
                s@,
                font_start as int,
                here as int,
                recs@,
                *head,
                *maxp,
            ) == Some(
                (
                    opt_view(cvt),
                    opt_view(fpgm),
                    opt_view(loca),
                    match glyf {
                        Some(v) => Some(entries_view(v@)),
                        None => None,
                    },
                    opt_view(prep),
                    opt_view(gasp),
                ),
            ),
            None => spec_outline_tables(
                s@,
                font_start as int,
                here as int,
                recs@,
                *head,
                *maxp,
            ) is None,
        },
{
    let loca = match opt(s, font_start, here, recs, TAG_LOCA) {
        None => return None,
        Some(None) => None,
        Some(Some(b)) => match loca_table(b, maxp.num_glyphs, head.index_to_loc_format) {
            Some((l, _)) => Some(l),
            None => return None,
        },
    };
    let cvt = match opt(s, font_start, here, recs, TAG_CVT) {
        None => return None,
        Some(None) => None,
        Some(Some(b)) => Some(cvt_table(b)),
    };
    let fpgm = match opt(s, font_start, here, recs, TAG_FPGM) {
        None => return None,
        Some(None) => None,
        Some(Some(b)) => Some(byte_table(b)),
    };
    let glyf = match opt(s, font_start, here, recs, TAG_GLYF) {
        None => return None,
        Some(None) => None,
        Some(Some(b)) => {
            let offsets = loca_offsets(copy_loca(&loca));
            match glyf_table(b, &offsets) {
                Some(g) => Some(g),
                None => return None,
            }
        },
    };
    let prep = match opt(s, font_start, here, recs, TAG_PREP) {
        None => return None,
        Some(None) => None,
        Some(Some(b)) => Some(byte_table(b)),
    };
    let gasp = match opt(s, font_start, here, recs, TAG_GASP) {
        None => return None,
        Some(None) => None,
        Some(Some(b)) => match gasp_table(b) {
            Some((g, _)) => Some(g),
            None => return None,
        },
    };
    Some((cvt, fpgm, loca, glyf, prep, gasp))
}

fn vmtx_table(
    s: &[u8],
    font_start: usize,
    here: usize,
    recs: &[TableRecord],
    vhea: &Option<HheaTable>,
    maxp: &MaxpTable,
) -> (r: Option<Option<HmtxTable>>)
    ensures
        match r {
            Some(v) => spec_vmtx(s@, font_start as int, here as int, recs@, *vhea, *maxp) == Some(
                opt_view(v),
            ),
            None => spec_vmtx(s@, font_start as int, here as int, recs@, *vhea, *maxp) is None,
        },
{
    match opt(s, font_start, here, recs, TAG_VMTX) {
        None => None,
        Some(None) => Some(None),
        Some(Some(b)) => {
            if vhea.is_none() {
                return None;
            }
            match hmtx_table(b, vhea_long_metrics(*vhea), maxp.num_glyphs) {
                Some((v, _)) => Some(Some(v)),
                None => None,
            }
        },
    }
}

fn other_tables(
    s: &[u8],
    font_start: usize,
    here: usize,
    recs: &[TableRecord],
    maxp: &MaxpTable,
) -> (r: Option<
    (
        Option<FvarTable>,
        Option<KernTable>,
        Option<StatTable>,
        Option<HheaTable>,
        Option<HmtxTable>,
    ),
>)
    ensures
        match r {
            Some((fvar, kern, stat, vhea, vmtx)) => spec_other_tables(
                s@,
                font_start as int,
                here as int,
                recs@,
                *maxp,
            ) == Some((opt_view(fvar), opt_view(kern), opt_view(stat), vhea, opt_view(vmtx))),
            None => spec_other_tables(s@, font_start as int, here as int, recs@, *maxp) is None,
        },
{
    let fvar = match opt(s, font_start, here, recs, TAG_FVAR) {
        None => return None,
        Some(None) => None,
        Some(Some(b)) => match fvar_table(b) {
            Some((v, _)) => Some(v),
            None => return None,
        },
    };
    let kern = match opt(s, font_start, here, recs, TAG_KERN) {
        None => return None,
        Some(None) => None,
        Some(Some(b)) => {
            let at = origin_of(s, font_start, here, recs, TAG_KERN, b);
            let _len = s.len();
            match kern_table(b, at) {
                Some((v, _)) => Some(v),
                None => return None,
            }
        },
    };
    let stat = match opt(s, font_start, here, recs, TAG_STAT) {
        None => return None,
        Some(None) => None,
        Some(Some(b)) => {
            let at = origin_of(s, font_start, here, recs, TAG_STAT, b);
            let _len = s.len();
            match stat_table(b, at) {
                Some((v, _)) => Some(v),
                None => return None,
            }
        },
    };
    let vhea = match opt(s, font_start, here, recs, TAG_VHEA) {
        None => return None,
        Some(None) => None,
        Some(Some(b)) => match hhea_table(b) {
            Some((v, _)) => Some(v),
            None => return None,
        },
    };
    let vmtx = match vmtx_table(s, font_start, here, recs, &vhea, maxp) {
        Some(v) => v,
        None => return None,
    };
    Some((fvar, kern, stat, vhea, vmtx))
}

fn layout_tables(s: &[u8], font_start: usize, here: usize, recs: &[TableRecord]) -> (r: Option<
    (Option<BaseTable>, Option<GdefTable>, Option<GposTable>, Option<GsubTable>),
>)
    ensures
        match r {
            Some((b, d, p, g)) => spec_layout_tables(s@, font_start as int, here as int, recs@)
                == Some((opt_view(b), opt_view(d), opt_view(p), opt_view(g))),
            None => spec_layout_tables(s@, font_start as int, here as int, recs@) is None,
        },
{
    let base = match opt(s, font_start, here, recs, TAG_BASE) {
        None => return None,
        Some(None) => None,
        Some(Some(b)) => match base_table(b) {
            Some((g, _)) => Some(g),
            None => return None,
        },
    };
    let gdef = match opt(s, font_start, here, recs, TAG_GDEF) {
        None => return None,
        Some(None) => None,
        Some(Some(b)) => match gdef_table(b) {
            Some((g, _)) => Some(g),
            None => return None,
        },
    };
    let gpos = match opt(s, font_start, here, recs, TAG_GPOS) {
        None => return None,
        Some(None) => None,
        Some(Some(b)) => match gpos_table(b) {
            Some((g, _)) => Some(g),
            None => return None,
        },
    };
    let gsub = match opt(s, font_start, here, recs, TAG_GSUB) {
        None => return None,
        Some(None) => None,
        Some(Some(b)) => match gsub_table(b) {
            Some((g, _)) => Some(g),
            None => return None,
        },
    };
    Some((base, gdef, gpos, gsub))
}

fn gvar_opt(s: &[u8], font_start: usize, here: usize, recs: &[TableRecord]) -> (r: Option<
    Option<GvarTable>,
>)
    ensures
        match r {
            Some(g) => spec_gvar_opt(s@, font_start as int, here as int, recs@) == Some(opt_view(g)),
            None => spec_gvar_opt(s@, font_start as int, here as int, recs@) is None,
        },
{
    match opt(s, font_start, here, recs, TAG_GVAR) {
        None => None,
        Some(None) => Some(None),
        Some(Some(b)) => match gvar_table(b) {
            Some((g, _)) => Some(Some(g)),
            None => None,
        },
    }
}

/// Reads the tables of the font whose directory, read up to `here`, holds
/// the records `recs`, offsets being relative to `font_start`.
pub fn table_links(s: &[u8], font_start: usize, here: usize, recs: &[TableRecord]) -> (r: Option<
    TableLinks,
>)
    ensures
        match r {
            Some(l) => spec_table_links(s@, font_start as int, here as int, recs@) == Some(l@),
            None => spec_table_links(s@, font_start as int, here as int, recs@) is None,
        },
{
    reveal(spec_table_links);
    let (cmap, head, hhea, maxp, hmtx, name, os2, post) = match required_tables(
        s,
        font_start,
        here,
        recs,
    ) {
        Some(x) => x,
        None => return None,
    };
    let (cvt, fpgm, loca, glyf, prep, gasp) = match outline_tables(
        s,
        font_start,
        here,
        recs,
        &head,
        &maxp,
    ) {
        Some(x) => x,
        None => return None,
    };
    let (base, gdef, gpos, gsub) = match layout_tables(s, font_start, here, recs) {
        Some(x) => x,
        None => return None,
    };
    let (fvar, kern, stat, vhea, vmtx) = match other_tables(s, font_start, here, recs, &maxp) {
        Some(x) => x,
        None => return None,
    };
    let gvar = match gvar_opt(s, font_start, here, recs) {
        Some(x) => x,
        None => return None,
    };
    Some(
        TableLinks {
            cmap,
            head,
            hhea,
            maxp,
            hmtx,
            name,
            os2,
            post,
            cvt,
            fpgm,
            loca,
            glyf,
            prep,
            gasp,
            base,
            gdef,
            gpos,
            gsub,
            fvar,
            gvar,
            kern,
            stat,
            vhea,
            vmtx,
        },
    )
}


/// Whether the directory records `recs` list a table with id `id`.
pub open spec fn listed(recs: Seq<TableRecord>, id: u32) -> bool {
    find_table(recs, id) is Some
}

/// A font's tables are linked exactly as its directory lists them: the
/// tables are read only when every required table (`cmap`, `head`, `hhea`,
/// `maxp`, `hmtx`, `name`, `OS/2`, `post`) is listed, each optional table is
/// present exactly when it is listed, and `vmtx` is never read without
/// `vhea`.
pub proof fn lemma_tables_as_listed(s: Seq<u8>, font_start: int, here: int, recs: Seq<TableRecord>)
    requires
        spec_table_links(s, font_start, here, recs) is Some,
    ensures
        ({
            let l = spec_table_links(s, font_start, here, recs).unwrap();
            &&& listed(recs, TAG_CMAP) && listed(recs, TAG_HEAD) && listed(recs, TAG_HHEA)
            &&& listed(recs, TAG_MAXP) && listed(recs, TAG_HMTX) && listed(recs, TAG_NAME)
            &&& listed(recs, TAG_OS2) && listed(recs, TAG_POST)
            &&& (l.cvt is Some <==> listed(recs, TAG_CVT))
            &&& (l.fpgm is Some <==> listed(recs, TAG_FPGM))
            &&& (l.loca is Some <==> listed(recs, TAG_LOCA))
            &&& (l.glyf is Some <==> listed(recs, TAG_GLYF))
            &&& (l.prep is Some <==> listed(recs, TAG_PREP))
            &&& (l.gasp is Some <==> listed(recs, TAG_GASP))
            &&& (l.base is Some <==> listed(recs, TAG_BASE))
            &&& (l.gdef is Some <==> listed(recs, TAG_GDEF))
            &&& (l.gpos is Some <==> listed(recs, TAG_GPOS))
            &&& (l.gsub is Some <==> listed(recs, TAG_GSUB))
            &&& (l.fvar is Some <==> listed(recs, TAG_FVAR))
            &&& (l.gvar is Some <==> listed(recs, TAG_GVAR))
            &&& (l.kern is Some <==> listed(recs, TAG_KERN))
            &&& (l.stat is Some <==> listed(recs, TAG_STAT))
            &&& (l.vhea is Some <==> listed(recs, TAG_VHEA))
            &&& (l.vmtx is Some <==> listed(recs, TAG_VMTX))
            &&& (l.vmtx is Some ==> l.vhea is Some)
        }),
{
    reveal(spec_table_links);
}

/// The table id that a four-letter ASCII tag spells, first letter in the
/// high byte.
pub open spec fn tag_id(a: char, b: char, c: char, d: char) -> int {
    0x100_0000 * (a as int) + 0x1_0000 * (b as int) + 0x100 * (c as int) + (d as int)
}

/// Each table is looked up by the id that its four-letter tag spells.
pub proof fn lemma_tags_spell()
    ensures
        TAG_CMAP == tag_id('c', 'm', 'a', 'p'),
        TAG_HEAD == tag_id('h', 'e', 'a', 'd'),
        TAG_HHEA == tag_id('h', 'h', 'e', 'a'),
        TAG_MAXP == tag_id('m', 'a', 'x', 'p'),
        TAG_HMTX == tag_id('h', 'm', 't', 'x'),
        TAG_NAME == tag_id('n', 'a', 'm', 'e'),
        TAG_OS2 == tag_id('O', 'S', '/', '2'),
        TAG_POST == tag_id('p', 'o', 's', 't'),
        TAG_CVT == tag_id('c', 'v', 't', ' '),
        TAG_FPGM == tag_id('f', 'p', 'g', 'm'),
        TAG_LOCA == tag_id('l', 'o', 'c', 'a'),
        TAG_GLYF == tag_id('g', 'l', 'y', 'f'),
        TAG_PREP == tag_id('p', 'r', 'e', 'p'),
        TAG_GASP == tag_id('g', 'a', 's', 'p'),
        TAG_BASE == tag_id('B', 'A', 'S', 'E'),
        TAG_GDEF == tag_id('G', 'D', 'E', 'F'),
        TAG_GPOS == tag_id('G', 'P', 'O', 'S'),
        TAG_GSUB == tag_id('G', 'S', 'U', 'B'),
        TAG_FVAR == tag_id('f', 'v', 'a', 'r'),
        TAG_GVAR == tag_id('g', 'v', 'a', 'r'),
        TAG_KERN == tag_id('k', 'e', 'r', 'n'),
        TAG_STAT == tag_id('S', 'T', 'A', 'T'),
        TAG_VHEA == tag_id('v', 'h', 'e', 'a'),
        TAG_VMTX == tag_id('v', 'm', 't', 'x'),
{
}

/// Each table is read from the bytes of its own directory record, and the
/// metrics tables from the counts of the others: `hmtx` with the long-metric
/// count of `hhea` and the glyph count of `maxp`; `vhea` with the same
/// reader as `hhea`, from its own bytes; `vmtx` with the long-metric count
/// of `vhea` and the glyph count of `maxp`.
pub proof fn lemma_tables_from_own_bytes(s: Seq<u8>, font_start: int, here: int, recs: Seq<TableRecord>)
    requires
        spec_table_links(s, font_start, here, recs) is Some,
    ensures
        ({
            let l = spec_table_links(s, font_start, here, recs).unwrap();
            let b = |id: u32| spec_required_bytes(s, font_start, here, recs, id).unwrap();
            &&& parsed(spec_cmap_table(b(TAG_CMAP))) == Some(l.cmap)
            &&& parsed(spec_head_table(b(TAG_HEAD))) == Some(l.head)
            &&& parsed(spec_hhea_table(b(TAG_HHEA))) == Some(l.hhea)
            &&& parsed(spec_maxp_table(b(TAG_MAXP))) == Some(l.maxp)
            &&& parsed(spec_hmtx_table(b(TAG_HMTX), l.hhea.number_of_long_metrics, l.maxp.num_glyphs))
                == Some(l.hmtx)
            &&& parsed(spec_name_table(b(TAG_NAME))) == Some(l.name)
            &&& parsed(spec_os2_table(b(TAG_OS2), b(TAG_OS2).len() as u32)) == Some(l.os2)
            &&& parsed(spec_post_table(b(TAG_POST), table_origin(font_start, recs, TAG_POST))) == Some(l.post)
            &&& (l.vhea matches Some(v) ==> listed(recs, TAG_VHEA) && parsed(spec_hhea_table(b(TAG_VHEA))) == Some(v))
            &&& (l.vmtx matches Some(m) ==> listed(recs, TAG_VMTX) && parsed(
                spec_hmtx_table(b(TAG_VMTX), l.vhea.unwrap().number_of_long_metrics, l.maxp.num_glyphs),
            ) == Some(m))
        }),
{
    reveal(spec_table_links);
}

} // verus!
