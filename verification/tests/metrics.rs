use doodle_formats::opentype::metrics::{
    head_table, hhea_table, hmtx_table, maxp_table, vhea_long_metrics, MaxpData,
};
use doodle_formats::opentype::values::Fixed32;

fn mw16(v: &mut Vec<u8>, x: u16) {
    v.extend_from_slice(&x.to_be_bytes());
}

fn head_bytes() -> Vec<u8> {
    let mut v = Vec::new();
    mw16(&mut v, 1);
    mw16(&mut v, 0);
    v.extend_from_slice(&0x0001_8000u32.to_be_bytes());
    v.extend_from_slice(&0x1234_5678u32.to_be_bytes());
    v.extend_from_slice(&[0x5f, 0x0f, 0x3c, 0xf5]);
    mw16(&mut v, 0x000b);
    mw16(&mut v, 2048);
    v.extend_from_slice(&(-1i64).to_be_bytes());
    v.extend_from_slice(&7i64.to_be_bytes());
    for x in [-10i16, -20, 1000, 900] {
        v.extend_from_slice(&x.to_be_bytes());
    }
    mw16(&mut v, 0b0000_0000_0100_0011);
    mw16(&mut v, 8);
    v.extend_from_slice(&(-2i16).to_be_bytes());
    mw16(&mut v, 1);
    mw16(&mut v, 0);
    v
}

#[test]
fn head_table_fields() {
    let t = head_bytes();
    assert_eq!(t.len(), 54);
    let (h, end) = head_table(&t).unwrap();
    assert_eq!(end, 54);
    assert_eq!(h.font_revision, Fixed32(0x0001_8000));
    assert_eq!(h.units_per_em, 2048);
    assert_eq!((h.created, h.modified), (-1, 7));
    assert_eq!((h.x_min, h.y_min, h.x_max, h.y_max), (-10, -20, 1000, 900));
    assert!(h.mac_style.bold && h.mac_style.italic && h.mac_style.extended);
    assert!(!h.mac_style.underline);
    assert_eq!(h.font_direction_hint, -2);
    assert_eq!(h.index_to_loc_format, 1);
}

#[test]
fn head_table_checks() {
    let mut bad_magic = head_bytes();
    bad_magic[15] = 0;
    assert!(head_table(&bad_magic).is_none());
    let mut bad_upem = head_bytes();
    bad_upem[18..20].copy_from_slice(&15u16.to_be_bytes());
    assert!(head_table(&bad_upem).is_none());
    let mut bad_loc = head_bytes();
    bad_loc[50..52].copy_from_slice(&2u16.to_be_bytes());
    assert!(head_table(&bad_loc).is_none());
    assert!(head_table(&head_bytes()[..53]).is_none());
}

fn hhea_bytes(minor: u16) -> Vec<u8> {
    let mut v = Vec::new();
    mw16(&mut v, 1);
    mw16(&mut v, minor);
    for x in [800i16, -200, 90] {
        v.extend_from_slice(&x.to_be_bytes());
    }
    mw16(&mut v, 1200);
    for x in [-50i16, -60, 1100, 1, 0, 0] {
        v.extend_from_slice(&x.to_be_bytes());
    }
    for _ in 0..5 {
        mw16(&mut v, 0);
    }
    mw16(&mut v, 3);
    v
}

#[test]
fn hhea_table_fields() {
    let (h, end) = hhea_table(&hhea_bytes(0)).unwrap();
    assert_eq!(end, 36);
    assert_eq!((h.ascent, h.descent, h.line_gap), (800, -200, 90));
    assert_eq!(h.advance_width_max, 1200);
    assert_eq!(h.min_left_side_bearing, -50);
    assert_eq!(h.number_of_long_metrics, 3);
    assert_eq!(hhea_table(&hhea_bytes(0x1000)).unwrap().0.minor_version, 0x1000);
    assert!(hhea_table(&hhea_bytes(1)).is_none());
    let mut reserved = hhea_bytes(0);
    reserved[27] = 1;
    assert!(hhea_table(&reserved).is_none());
}

#[test]
fn vhea_long_metrics_reads_count() {
    let (h, _) = hhea_table(&hhea_bytes(0x1000)).unwrap();
    assert_eq!(vhea_long_metrics(Some(h)), 3);
}

#[test]
fn maxp_versions() {
    let mut v1 = Vec::new();
    v1.extend_from_slice(&0x0001_0000u32.to_be_bytes());
    mw16(&mut v1, 5);
    for x in [10u16, 2, 0, 0, 2, 0, 0, 0, 0, 64, 100, 0, 16] {
        mw16(&mut v1, x);
    }
    let (m, end) = maxp_table(&v1).unwrap();
    assert_eq!((m.num_glyphs, end), (5, 32));
    match m.data {
        MaxpData::MaxpV1(d) => {
            assert_eq!(d.max_points, 10);
            assert_eq!(d.max_zones, 2);
            assert_eq!(d.max_component_depth, 16);
        }
        _ => panic!("expected version 1"),
    }
    let mut deep = v1.clone();
    deep[30..32].copy_from_slice(&17u16.to_be_bytes());
    assert!(maxp_table(&deep).is_none());
    let mut zones = v1.clone();
    zones[14..16].copy_from_slice(&0u16.to_be_bytes());
    assert!(maxp_table(&zones).is_none());
    let mut ps = Vec::new();
    ps.extend_from_slice(&0x0000_5000u32.to_be_bytes());
    mw16(&mut ps, 9);
    assert_eq!(maxp_table(&ps).unwrap().0.data, MaxpData::MaxpPostScript);
    let mut other = Vec::new();
    other.extend_from_slice(&0x0002_0000u32.to_be_bytes());
    mw16(&mut other, 9);
    let (m, end) = maxp_table(&other).unwrap();
    assert_eq!((m.data, end), (MaxpData::MaxpUnknown(0x0002_0000), 6));
}

#[test]
fn hmtx_table_long_and_short_metrics() {
    let mut v = Vec::new();
    mw16(&mut v, 500);
    v.extend_from_slice(&(-5i16).to_be_bytes());
    mw16(&mut v, 600);
    v.extend_from_slice(&7i16.to_be_bytes());
    v.extend_from_slice(&(-1i16).to_be_bytes());
    let (h, end) = hmtx_table(&v, 2, 3).unwrap();
    assert_eq!(end, 10);
    assert_eq!(h.long_metrics.len(), 2);
    assert_eq!(h.long_metrics[0].left_side_bearing, -5);
    assert_eq!(h.long_metrics[1].advance_width, 600);
    assert_eq!(h.left_side_bearings, vec![-1]);
    assert!(hmtx_table(&v, 3, 2).is_none());
    assert!(hmtx_table(&v, 2, 4).is_none());
}
