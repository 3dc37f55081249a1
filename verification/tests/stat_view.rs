use doodle_formats::bytes::magic;
use doodle_formats::opentype::stat_view::{
    stat_only_directory, stat_only_font, stat_only_ttc_header, stat_table_raw, StatOnlyFont,
    StatOnlyTtcVersion,
};

fn words(ws: &[u16]) -> Vec<u8> {
    ws.iter().flat_map(|w| w.to_be_bytes()).collect()
}

fn stat_raw() -> Vec<u8> {
    let mut t = words(&[1, 1, 8, 1, 0, 20, 1, 0, 28, 2]);
    t.extend_from_slice(b"wght");
    t.extend(words(&[0x0100, 0]));
    t.extend(words(&[2]));
    assert_eq!(t.len(), 30);
    t
}

fn font_with_stat(base: u32) -> Vec<u8> {
    let mut v = words(&[1, 0, 1, 16, 0, 0]);
    v.extend_from_slice(b"STAT");
    v.extend_from_slice(&0u32.to_be_bytes());
    v.extend_from_slice(&(base + 28).to_be_bytes());
    v.extend_from_slice(&30u32.to_be_bytes());
    v.extend(stat_raw());
    v
}

#[test]
fn raw_stat_table_arrays() {
    let (s, end) = stat_table_raw(&stat_raw()).unwrap();
    assert_eq!(end, 20);
    assert_eq!((s.major_version, s.minor_version), (1, 1));
    assert_eq!((s.design_axis_size, s.design_axis_count, s.design_axes_offset), (8, 1, 20));
    assert_eq!(&s.design_axes_array[..4], b"wght");
    assert_eq!(s.design_axes_array.len(), 8);
    assert_eq!(s.axis_value_offsets, vec![2]);
    assert_eq!(s.elided_fallback_name_id, 2);
    // Minor version 0 is refused, and the arrays must lie within the table.
    let mut t = stat_raw();
    t[3] = 0;
    assert!(stat_table_raw(&t).is_none());
    assert!(stat_table_raw(&stat_raw()[..29]).is_none());
}

#[test]
fn stat_only_font_reads_to_the_end() {
    let mut f = font_with_stat(0);
    f.extend_from_slice(&[0xee; 6]);
    let (r, end) = stat_only_font(&f).unwrap();
    assert_eq!(end, f.len());
    match r {
        StatOnlyFont::TableDirectory(d) => {
            assert_eq!(d.table_records[0].table_id, magic(b"STAT"));
            assert_eq!(d.table_links.stat.unwrap().axis_value_count, 1);
        }
        _ => panic!("table directory expected"),
    }
    // Without a STAT record there is nothing to resolve.
    let mut g = font_with_stat(0);
    g[12..16].copy_from_slice(b"XXXX");
    let (d, _) = stat_only_directory(&g, 0, 0).unwrap();
    assert!(d.table_links.stat.is_none());
    // A STAT record whose table does not read fails.
    let mut h = font_with_stat(0);
    h[28 + 3] = 7;
    assert!(stat_only_font(&h).is_none());
    assert!(stat_only_font(b"wOFF").is_none());
}

#[test]
fn stat_only_collection() {
    let mut c = b"ttcf".to_vec();
    c.extend(words(&[1, 0, 0, 1, 0, 20, 0, 0]));
    c.extend(font_with_stat(20));
    let (h, end) = stat_only_ttc_header(&c, 0).unwrap();
    assert_eq!(end, c.len());
    match h.header {
        StatOnlyTtcVersion::Version1 { num_fonts, table_directories } => {
            assert_eq!(num_fonts, 1);
            let d = table_directories[0].link.as_ref().unwrap();
            assert!(d.table_links.stat.is_some());
        }
        _ => panic!("version 1 expected"),
    }
    assert!(matches!(stat_only_font(&c).unwrap().0, StatOnlyFont::TtcHeader(_)));
}
