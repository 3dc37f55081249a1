use doodle_formats::opentype::os2::{
    byte_table, cvt_table, gasp_table, os2_table, post_table, GaspBehavior, PostNames,
};
use doodle_formats::opentype::values::Fixed32;

fn os2_bytes(version: u16, len: usize) -> Vec<u8> {
    let mut v: Vec<u8> = (0..len).map(|i| i as u8).collect();
    v[0..2].copy_from_slice(&version.to_be_bytes());
    v
}

#[test]
fn os2_version0_short_has_no_metrics() {
    let t = os2_bytes(0, 68);
    let (o, end) = os2_table(&t, 68).unwrap();
    assert_eq!(end, 68);
    assert_eq!(o.version, 0);
    assert_eq!(o.us_weight_class, 0x0405);
    assert_eq!(o.panose, (32u8..42).collect::<Vec<u8>>());
    assert_eq!(o.ach_vend_id, 0x3a3b_3c3d);
    assert!(o.data.is_none());
}

#[test]
fn os2_version0_long_has_metrics() {
    let t = os2_bytes(0, 78);
    let (o, end) = os2_table(&t, 78).unwrap();
    assert_eq!(end, 78);
    let m = o.data.unwrap();
    assert_eq!(m.s_typo_ascender, 0x4445);
    assert_eq!(m.us_win_descent, 0x4c4d);
    assert!(m.extra_fields_v1.is_none());
    // A length of 78 in the directory with fewer bytes present fails.
    assert!(os2_table(&t[..70], 78).is_none());
}

#[test]
fn os2_version5_reads_every_extension() {
    let t = os2_bytes(5, 100);
    let (o, end) = os2_table(&t, 100).unwrap();
    assert_eq!(end, 100);
    let v1 = o.data.unwrap().extra_fields_v1.unwrap();
    assert_eq!(v1.ul_code_page_range_1, 0x4e4f_5051);
    let v2 = v1.extra_fields_v2.unwrap();
    assert_eq!(v2.us_max_context, 0x5e5f);
    assert_eq!(v2.extra_fields_v5, Some((0x6061, 0x6263)));
    assert!(os2_table(&t[..99], 100).is_none());
}

#[test]
fn os2_signed_fields() {
    let mut t = os2_bytes(0, 68);
    t[2..4].copy_from_slice(&(-5i16).to_be_bytes());
    let (o, _) = os2_table(&t, 68).unwrap();
    assert_eq!(o.x_avg_char_width, -5);
    assert!(os2_table(&t[..67], 68).is_none());
}

fn post_header(version: u32) -> Vec<u8> {
    let mut v = Vec::new();
    v.extend_from_slice(&version.to_be_bytes());
    v.extend_from_slice(&0xfff4_0000u32.to_be_bytes());
    v.extend_from_slice(&(-100i16).to_be_bytes());
    v.extend_from_slice(&50i16.to_be_bytes());
    for x in [1u32, 2, 3, 4, 5] {
        v.extend_from_slice(&x.to_be_bytes());
    }
    v
}

#[test]
fn post_version3() {
    let t = post_header(0x0003_0000);
    let (p, end) = post_table(&t, 0).unwrap();
    assert_eq!(end, 32);
    assert_eq!(p.italic_angle, Fixed32(0xfff4_0000));
    assert_eq!((p.underline_position, p.underline_thickness), (-100, 50));
    assert_eq!(p.max_mem_type1, 5);
    assert_eq!(p.names, PostNames::Version3);
    assert!(post_table(&t[..31], 0).is_none());
}

#[test]
fn post_version2_name_indices() {
    let mut t = post_header(0x0002_0000);
    t.extend_from_slice(&2u16.to_be_bytes());
    t.extend_from_slice(&0u16.to_be_bytes());
    t.extend_from_slice(&258u16.to_be_bytes());
    t.extend_from_slice(b"\x01a");
    // The table lies at position 1000 of its file; the strings begin at
    // byte 38 of the table.
    let (p, end) = post_table(&t, 1000).unwrap();
    assert_eq!(end, 38);
    assert_eq!(
        p.names,
        PostNames::Version2 { num_glyphs: 2, glyph_name_index: vec![0, 258], string_data: 1038 }
    );
    assert!(post_table(&t[..37], 0).is_none());
}

#[test]
fn post_version2_5_offsets_and_unknown() {
    let mut t = post_header(0x0002_5000);
    t.extend_from_slice(&3u16.to_be_bytes());
    t.extend_from_slice(&[1, 0xff, 0x80]);
    let (p, end) = post_table(&t, 0).unwrap();
    assert_eq!(end, 37);
    assert_eq!(p.names, PostNames::Version2Dot5 { num_glyphs: 3, offset: vec![1, -1, -128] });
    let u = post_header(0x0004_0000);
    assert_eq!(post_table(&u, 0).unwrap().0.names, PostNames::VersionUnknown(0x0004_0000));
    assert_eq!(post_table(&post_header(0x0001_0000), 0).unwrap().0.names, PostNames::Version1);
}

#[test]
fn gasp_versions() {
    let t = [0u8, 1, 0, 2, 0, 8, 0, 0b1010, 0xff, 0xff, 0, 0b0101];
    let (g, end) = gasp_table(&t).unwrap();
    assert_eq!(end, 12);
    assert_eq!(g.num_ranges, 2);
    assert_eq!(g.gasp_ranges[0].range_max_ppem, 8);
    assert_eq!(
        g.gasp_ranges[0].range_gasp_behavior,
        GaspBehavior::Version1 {
            symmetric_smoothing: true,
            symmetric_gridfit: false,
            dogray: true,
            gridfit: false
        }
    );
    assert_eq!(g.gasp_ranges[1].range_max_ppem, 0xffff);
    let t0 = [0u8, 0, 0, 1, 0, 9, 0, 3];
    let (g0, _) = gasp_table(&t0).unwrap();
    assert_eq!(g0.gasp_ranges[0].range_gasp_behavior, GaspBehavior::Version0 { dogray: true, gridfit: true });
    // A version other than 0 and 1 with ranges fails; without ranges it is kept.
    assert!(gasp_table(&[0u8, 2, 0, 1, 0, 9, 0, 3]).is_none());
    assert_eq!(gasp_table(&[0u8, 2, 0, 0]).unwrap().0.version, 2);
    assert!(gasp_table(&t[..11]).is_none());
}

#[test]
fn cvt_and_raw_tables() {
    assert_eq!(cvt_table(&[0x00, 0x10, 0xff, 0xfe, 0x7f]), vec![16, -2]);
    assert_eq!(cvt_table(&[]), Vec::<i16>::new());
    assert_eq!(byte_table(&[1, 2, 3]), vec![1, 2, 3]);
}
