use doodle_formats::bytes::magic;
use doodle_formats::opentype::directory::{
    font_directory, optional_table, required_table, table_data, table_directory, ttc_header,
    with_table, FontDirectory, TableRecord, TtcHeaderVersion,
};

fn dw16(v: &mut Vec<u8>, x: u16) {
    v.extend_from_slice(&x.to_be_bytes());
}

fn dw32(v: &mut Vec<u8>, x: u32) {
    v.extend_from_slice(&x.to_be_bytes());
}

/// A font with a `head` table of four bytes at 44 and a `name` table of two
/// bytes at 48.
fn small_font() -> Vec<u8> {
    let mut v = Vec::new();
    dw32(&mut v, 0x0001_0000);
    dw16(&mut v, 2);
    dw16(&mut v, 32);
    dw16(&mut v, 1);
    dw16(&mut v, 0);
    for (tag, off, len) in [(b"head", 44u32, 4u32), (b"name", 48, 2)] {
        dw32(&mut v, magic(tag));
        dw32(&mut v, 0xdead_beef);
        dw32(&mut v, off);
        dw32(&mut v, len);
    }
    v.extend_from_slice(&[1, 2, 3, 4, 5, 6]);
    v
}

/// The records of `small_font`.
struct Records {
    table_records: Vec<TableRecord>,
}

fn small_records() -> Records {
    Records {
        table_records: vec![
            TableRecord { table_id: magic(b"head"), checksum: 0xdead_beef, offset: 44, length: 4 },
            TableRecord { table_id: magic(b"name"), checksum: 0xdead_beef, offset: 48, length: 2 },
        ],
    }
}

fn head_bytes() -> Vec<u8> {
    let mut v = Vec::new();
    dw16(&mut v, 1);
    dw16(&mut v, 0);
    dw32(&mut v, 0x0001_0000);
    dw32(&mut v, 0);
    dw32(&mut v, 0x5f0f_3cf5);
    dw16(&mut v, 0);
    dw16(&mut v, 1000);
    v.extend_from_slice(&[0; 16]);
    v.extend_from_slice(&[0; 8]);
    dw16(&mut v, 0);
    dw16(&mut v, 3);
    dw16(&mut v, 2);
    dw16(&mut v, 0);
    dw16(&mut v, 0);
    assert_eq!(v.len(), 54);
    v
}

fn hhea_bytes() -> Vec<u8> {
    let mut v = Vec::new();
    dw16(&mut v, 1);
    dw16(&mut v, 0);
    v.extend_from_slice(&[0; 30]);
    dw16(&mut v, 1);
    v
}

/// The tables every font has, each as small as its format allows, for a
/// font of one glyph.
fn required_tables() -> Vec<([u8; 4], Vec<u8>)> {
    let mut maxp = Vec::new();
    dw32(&mut maxp, 0x0000_5000);
    dw16(&mut maxp, 1);
    let mut os2 = vec![0u8; 68];
    os2[4..6].copy_from_slice(&400u16.to_be_bytes());
    let mut post = Vec::new();
    dw32(&mut post, 0x0003_0000);
    post.extend_from_slice(&[0; 28]);
    vec![
        (*b"cmap", vec![0, 0, 0, 0]),
        (*b"head", head_bytes()),
        (*b"hhea", hhea_bytes()),
        (*b"maxp", maxp),
        (*b"hmtx", vec![0x01, 0xf4, 0, 0]),
        (*b"name", vec![0, 0, 0, 0, 0, 6]),
        (*b"OS/2", os2),
        (*b"post", post),
    ]
}

/// A font whose directory lies at `base` of the file, with `tables` after
/// it; offsets are from the start of the file.
fn font_at(base: u32, tables: &[([u8; 4], Vec<u8>)]) -> Vec<u8> {
    let n = tables.len() as u32;
    let mut v = Vec::new();
    dw32(&mut v, 0x0001_0000);
    dw16(&mut v, n as u16);
    dw16(&mut v, 0);
    dw16(&mut v, 0);
    dw16(&mut v, 0);
    let mut at = base + 12 + 16 * n;
    let mut data = Vec::new();
    for (tag, bytes) in tables {
        dw32(&mut v, magic(tag));
        dw32(&mut v, 0);
        dw32(&mut v, at + data.len() as u32);
        dw32(&mut v, bytes.len() as u32);
        data.extend_from_slice(bytes);
        while data.len() % 4 != 0 {
            data.push(0);
        }
    }
    at += data.len() as u32;
    assert!(at >= base);
    v.extend_from_slice(&data);
    v
}

#[test]
fn table_directory_reads_records_and_tables() {
    let font = font_at(0, &required_tables());
    let (d, end) = table_directory(&font, 0, 0).unwrap();
    // The rest of the file is skipped: the reading ends at its end.
    assert_eq!(end, font.len());
    assert_eq!(d.sfnt_version, 0x0001_0000);
    assert_eq!(d.num_tables, 8);
    assert_eq!(d.table_records[0].table_id, magic(b"cmap"));
    assert_eq!(d.table_records[0].offset, 140);
    let t = &d.table_links;
    assert_eq!(t.head.units_per_em, 1000);
    assert_eq!(t.maxp.num_glyphs, 1);
    assert_eq!(t.hmtx.long_metrics.len(), 1);
    assert_eq!(t.hmtx.long_metrics[0].advance_width, 500);
    assert_eq!(t.os2.us_weight_class, 400);
    assert!(t.os2.data.is_none());
    assert_eq!(t.post.version, 0x0003_0000);
    assert!(t.cvt.is_none() && t.glyf.is_none() && t.kern.is_none() && t.vmtx.is_none());
}

#[test]
fn table_directory_refuses_unknown_version() {
    let mut font = font_at(0, &required_tables());
    font[0] = 0x02;
    assert!(table_directory(&font, 0, 0).is_none());
    assert!(font_directory(&font).is_none());
    assert!(table_directory(&small_font()[..40], 0, 0).is_none());
}

#[test]
fn table_directory_needs_required_tables() {
    let mut tables = required_tables();
    tables.retain(|(tag, _)| tag != b"post");
    assert!(table_directory(&font_at(0, &tables), 0, 0).is_none());
    // A required table that does not parse fails the directory.
    let mut tables = required_tables();
    tables[1].1[12] = 0;
    assert!(table_directory(&font_at(0, &tables), 0, 0).is_none());
    // Records without the tables they describe.
    assert!(table_directory(&small_font(), 0, 0).is_none());
}

#[test]
fn table_directory_reads_optional_tables() {
    let mut tables = required_tables();
    tables.push((*b"cvt ", vec![0, 5, 0xff, 0xff]));
    tables.push((*b"fpgm", vec![0xb0, 0x01]));
    tables.push((*b"loca", vec![0, 0, 0, 0]));
    tables.push((*b"glyf", vec![]));
    tables.push((*b"kern", vec![0, 0, 0, 0]));
    let font = font_at(0, &tables);
    let (d, _) = table_directory(&font, 0, 0).unwrap();
    let t = &d.table_links;
    assert_eq!(t.cvt, Some(vec![5, -1]));
    assert_eq!(t.fpgm, Some(vec![0xb0, 0x01]));
    assert!(t.loca.is_some());
    assert_eq!(t.glyf.as_ref().map(|g| g.len()), Some(1));
    assert_eq!(t.kern.as_ref().map(|k| k.n_tables), Some(0));
    assert!(t.prep.is_none() && t.gasp.is_none() && t.fvar.is_none() && t.stat.is_none());
}

#[test]
fn table_directory_dependencies_between_tables() {
    // Glyph data without a location table fails.
    let mut tables = required_tables();
    tables.push((*b"glyf", vec![]));
    assert!(table_directory(&font_at(0, &tables), 0, 0).is_none());
    // Vertical metrics need the vertical header.
    let mut tables = required_tables();
    tables.push((*b"vmtx", vec![0x01, 0xf4, 0, 0]));
    assert!(table_directory(&font_at(0, &tables), 0, 0).is_none());
    tables.push((*b"vhea", hhea_bytes()));
    let (d, _) = table_directory(&font_at(0, &tables), 0, 0).unwrap();
    assert_eq!(d.table_links.vmtx.unwrap().long_metrics[0].advance_width, 500);
    // An `hmtx` shorter than the glyph count asks for fails.
    let mut tables = required_tables();
    tables[4].1.truncate(2);
    assert!(table_directory(&font_at(0, &tables), 0, 0).is_none());
}

#[test]
fn with_table_finds_first_match() {
    let recs = [
        TableRecord { table_id: 1, checksum: 0, offset: 10, length: 1 },
        TableRecord { table_id: 2, checksum: 0, offset: 20, length: 1 },
        TableRecord { table_id: 2, checksum: 0, offset: 30, length: 1 },
    ];
    assert_eq!(with_table(&recs, 2).unwrap().offset, 20);
    assert_eq!(with_table(&recs, 1).unwrap().offset, 10);
    assert!(with_table(&recs, 3).is_none());
    assert!(with_table(&[], 1).is_none());
}

#[test]
fn table_data_slices_table_bytes() {
    let font = small_font();
    let (d, here) = (small_records(), 44);
    let head = with_table(&d.table_records, magic(b"head")).unwrap();
    assert_eq!(table_data(&font, 0, here, head), Some(&[1u8, 2, 3, 4][..]));
    // A table that starts before the end of the directory is refused.
    assert!(table_data(&font, 0, 46, head).is_none());
    // A table running past the end of the file is refused.
    let long = TableRecord { table_id: 0, checksum: 0, offset: 48, length: 3 };
    assert!(table_data(&font, 0, here, long).is_none());
}

#[test]
fn required_and_optional_tables() {
    let font = small_font();
    let (d, here) = (small_records(), 44);
    assert_eq!(
        required_table(&font, 0, here, &d.table_records, magic(b"name")),
        Some(&[5u8, 6][..])
    );
    assert!(required_table(&font, 0, here, &d.table_records, magic(b"maxp")).is_none());
    assert_eq!(optional_table(&font, 0, here, &d.table_records, magic(b"STAT")), Some(None));
    assert_eq!(
        optional_table(&font, 0, here, &d.table_records, magic(b"head")),
        Some(Some(&[1u8, 2, 3, 4][..]))
    );
    // A present table whose bytes cannot be had fails even when optional.
    assert!(optional_table(&font, 0, 100, &d.table_records, magic(b"head")).is_none());
}

fn collection(major: u16) -> Vec<u8> {
    let mut v = Vec::new();
    dw32(&mut v, magic(b"ttcf"));
    dw16(&mut v, major);
    dw16(&mut v, 0);
    dw32(&mut v, 1);
    let dir_at: u32 = if major == 2 { 28 } else { 20 };
    dw32(&mut v, dir_at);
    if major == 2 {
        dw32(&mut v, magic(b"DSIG"));
        dw32(&mut v, 8);
        dw32(&mut v, 40);
    } else {
        // A directory right after the offset field would not be linked.
        dw32(&mut v, 0);
    }
    v.extend_from_slice(&font_at(dir_at, &required_tables()));
    v
}

#[test]
fn ttc_header_version1_links_directories() {
    let c = collection(1);
    let (h, end) = ttc_header(&c, 0).unwrap();
    assert_eq!(end, c.len());
    assert_eq!((h.major_version, h.minor_version), (1, 0));
    match h.header {
        TtcHeaderVersion::Version1 { num_fonts, table_directories } => {
            assert_eq!(num_fonts, 1);
            assert_eq!(table_directories[0].offset, 20);
            let d = table_directories[0].link.as_ref().unwrap();
            assert_eq!(d.sfnt_version, 0x0001_0000);
            assert_eq!(d.num_tables, 8);
            assert_eq!(d.table_links.maxp.num_glyphs, 1);
        }
        _ => panic!("expected version 1"),
    }
}

#[test]
fn ttc_header_version2_reads_signature_fields() {
    let c = collection(2);
    let (h, end) = ttc_header(&c, 0).unwrap();
    assert_eq!(end, c.len());
    match h.header {
        TtcHeaderVersion::Version2 { dsig_tag, dsig_length, dsig_offset, .. } => {
            assert_eq!((dsig_tag, dsig_length, dsig_offset), (magic(b"DSIG"), 8, 40));
        }
        _ => panic!("expected version 2"),
    }
}

#[test]
fn ttc_header_unknown_version_keeps_number() {
    let c = collection(3);
    let (h, end) = ttc_header(&c, 0).unwrap();
    assert_eq!(end, c.len());
    assert_eq!(h.header, TtcHeaderVersion::UnknownVersion(3));
}

#[test]
fn ttc_header_fails_on_bad_directory() {
    let mut c = collection(1);
    c[20] = b'X';
    assert!(ttc_header(&c, 0).is_none());
    // Table offsets are from the start of the file, not of the directory.
    let mut c = collection(1);
    c.truncate(20);
    c.extend_from_slice(&font_at(0, &required_tables()));
    assert!(ttc_header(&c, 0).is_none());
}

#[test]
fn font_directory_dispatches_on_magic() {
    match font_directory(&font_at(0, &required_tables())).unwrap().0 {
        FontDirectory::TableDirectory(d) => assert_eq!(d.num_tables, 8),
        _ => panic!("expected a table directory"),
    }
    match font_directory(&collection(1)).unwrap().0 {
        FontDirectory::TtcHeader(h) => assert_eq!(h.major_version, 1),
        _ => panic!("expected a collection"),
    }
    assert!(font_directory(b"wOFF0000").is_none());
    assert!(font_directory(b"tt").is_none());
}
