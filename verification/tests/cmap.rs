use doodle_formats::opentype::cmap::{
    cmap_format0, cmap_format10, cmap_format14, cmap_format2, cmap_format4, cmap_format6,
    cmap_format8, cmap_groups, cmap_subtable, cmap_table, slice_record, CmapSubtable, MapGroup,
};

fn cw16(v: &mut Vec<u8>, x: u16) {
    v.extend_from_slice(&x.to_be_bytes());
}

fn cw32(v: &mut Vec<u8>, x: u32) {
    v.extend_from_slice(&x.to_be_bytes());
}

#[test]
fn slice_record_bounds() {
    let s = [0u8; 10];
    assert_eq!(slice_record(&s, 2, 8), Some(10));
    assert_eq!(slice_record(&s, 2, 9), None);
}

fn format0(length: u16) -> Vec<u8> {
    let mut v = Vec::new();
    cw16(&mut v, 0);
    cw16(&mut v, length);
    cw16(&mut v, 0);
    for i in 0..256u32 {
        v.push(i as u8);
    }
    v.extend_from_slice(&[0xee; 4]);
    v
}

#[test]
fn format0_reads_byte_glyph_ids_within_length() {
    let t = format0(266);
    let (f, end) = cmap_format0(&t, 0).unwrap();
    assert_eq!(end, 266);
    assert_eq!(f.glyph_id_array.len(), 256);
    assert_eq!(f.glyph_id_array[65], 65);
    // The declared length must cover the fields.
    assert!(cmap_format0(&format0(261), 0).is_none());
    // The declared length must lie within the input.
    assert!(cmap_format0(&format0(267), 0).is_none());
}

#[test]
fn format2_uses_largest_key_for_subheaders() {
    let mut v = Vec::new();
    cw16(&mut v, 2);
    cw16(&mut v, 518 + 16 + 4);
    cw16(&mut v, 0);
    for i in 0..256u16 {
        cw16(&mut v, if i == 0x81 { 8 } else { 0 });
    }
    for sub in [[0u16, 256, 0, 0], [0x40, 2, 0xfffe, 2]] {
        for x in sub {
            cw16(&mut v, x);
        }
    }
    cw16(&mut v, 5);
    cw16(&mut v, 6);
    let (f, end) = cmap_format2(&v, 0).unwrap();
    assert_eq!(end, 538);
    assert_eq!(f.sub_headers.len(), 2);
    assert_eq!(f.sub_headers[1].id_delta, -2);
    assert_eq!(f.glyph_array, vec![5, 6]);
    // An odd length or one below 518 is refused.
    let mut odd = v.clone();
    odd[2..4].copy_from_slice(&519u16.to_be_bytes());
    assert!(cmap_format2(&odd, 0).is_none());
}

fn format4() -> Vec<u8> {
    let mut v = Vec::new();
    cw16(&mut v, 4);
    cw16(&mut v, 16 + 16 + 2);
    cw16(&mut v, 0);
    cw16(&mut v, 4); // seg_count_x2
    cw16(&mut v, 4);
    cw16(&mut v, 1);
    cw16(&mut v, 0);
    for x in [0x0041u16, 0xffff, 0, 0x0041, 0xffff, 0xffc3, 1, 0, 0, 0x1234] {
        cw16(&mut v, x);
    }
    v
}

#[test]
fn format4_reads_segments() {
    let t = format4();
    let (f, end) = cmap_format4(&t, 0).unwrap();
    assert_eq!(end, 34);
    assert_eq!(f.seg_count, 2);
    assert_eq!(f.end_code, vec![0x41, 0xffff]);
    assert_eq!(f.start_code, vec![0x41, 0xffff]);
    assert_eq!(f.id_delta, vec![0xffc3, 1]);
    assert_eq!(f.id_range_offset, vec![0, 0]);
    assert_eq!(f.glyph_array, vec![0x1234]);
    let mut pad = format4();
    pad[19] = 1;
    assert!(cmap_format4(&pad, 0).is_none());
}

#[test]
fn format6_is_not_sliced() {
    let mut v = Vec::new();
    cw16(&mut v, 6);
    cw16(&mut v, 0);
    cw16(&mut v, 0);
    cw16(&mut v, 0x20);
    cw16(&mut v, 2);
    cw16(&mut v, 3);
    cw16(&mut v, 4);
    let (f, end) = cmap_format6(&v, 0).unwrap();
    assert_eq!(end, 14);
    assert_eq!((f.first_code, f.glyph_id_array.clone()), (0x20, vec![3, 4]));
    assert!(cmap_format6(&v[..13], 0).is_none());
}

fn groups(format: u16, length: u32, n: u32) -> Vec<u8> {
    let mut v = Vec::new();
    cw16(&mut v, format);
    cw16(&mut v, 0);
    cw32(&mut v, length);
    cw32(&mut v, 0);
    cw32(&mut v, n);
    for i in 0..n {
        cw32(&mut v, 0x100 * i);
        cw32(&mut v, 0x100 * i + 0x7f);
        cw32(&mut v, i + 1);
    }
    v
}

#[test]
fn format12_and_13_groups() {
    let t = groups(12, 40, 2);
    let (f, end) = cmap_groups(&t, 0, 12).unwrap();
    assert_eq!(end, 40);
    assert_eq!(f.groups[1], MapGroup { start_char_code: 0x100, end_char_code: 0x17f, start_glyph_id: 2 });
    assert!(cmap_groups(&t, 0, 13).is_none());
    assert!(cmap_groups(&groups(12, 39, 2), 0, 12).is_none());
    let mut huge = groups(12, 16, 0);
    huge[12..16].copy_from_slice(&0xffff_ffffu32.to_be_bytes());
    assert!(cmap_groups(&huge, 0, 12).is_none());
    match cmap_subtable(&groups(13, 28, 1), 0).unwrap().0 {
        CmapSubtable::Format13(g) => assert_eq!(g.num_groups, 1),
        _ => panic!("expected format 13"),
    }
}

#[test]
fn format8_and_10() {
    let mut v = Vec::new();
    cw16(&mut v, 8);
    cw16(&mut v, 0);
    cw32(&mut v, 8208 + 12);
    cw32(&mut v, 0);
    v.extend_from_slice(&[0u8; 8192]);
    cw32(&mut v, 1);
    for x in [0x10000u32, 0x10010, 5] {
        cw32(&mut v, x);
    }
    let (f, end) = cmap_format8(&v, 0).unwrap();
    assert_eq!(end, 8220);
    assert_eq!(f.is32.len(), 8192);
    assert_eq!(f.groups[0].start_glyph_id, 5);
    let mut w = Vec::new();
    cw16(&mut w, 10);
    cw16(&mut w, 0);
    cw32(&mut w, 24);
    cw32(&mut w, 0);
    cw32(&mut w, 0x10000);
    cw32(&mut w, 2);
    cw16(&mut w, 9);
    cw16(&mut w, 10);
    let (f, end) = cmap_format10(&w, 0).unwrap();
    assert_eq!(end, 24);
    assert_eq!(f.glyph_id_array, vec![9, 10]);
    let mut reserved = w.clone();
    reserved[3] = 1;
    assert!(cmap_format10(&reserved, 0).is_none());
}

fn format14() -> Vec<u8> {
    let mut v = Vec::new();
    cw16(&mut v, 14);
    cw32(&mut v, 10 + 11 + 8 + 9);
    cw32(&mut v, 1);
    // record: selector U+FE00, default UVS at 21, non-default at 29
    v.extend_from_slice(&[0x00, 0xfe, 0x00]);
    cw32(&mut v, 21);
    cw32(&mut v, 29);
    // default UVS: one range
    cw32(&mut v, 1);
    v.extend_from_slice(&[0x00, 0x4e, 0x00, 0x03]);
    // non-default UVS: one mapping
    cw32(&mut v, 1);
    v.extend_from_slice(&[0x00, 0x82, 0x8d]);
    cw16(&mut v, 77);
    v
}

#[test]
fn format14_follows_uvs_offsets() {
    let t = format14();
    let (f, end) = cmap_format14(&t, 0).unwrap();
    assert_eq!(end, 38);
    assert_eq!(f.var_selector.len(), 1);
    let sel = &f.var_selector[0];
    assert_eq!(sel.var_selector, 0xfe00);
    let d = sel.default_uvs_offset.link.as_ref().unwrap();
    assert_eq!(d.ranges[0].start_unicode_value, 0x4e00);
    assert_eq!(d.ranges[0].additional_count, 3);
    let n = sel.non_default_uvs_offset.link.as_ref().unwrap();
    assert_eq!((n.uvs_mappings[0].unicode_value, n.uvs_mappings[0].glyph_id), (0x828d, 77));
    // Offsets must stay within the declared length.
    let mut short = format14();
    short[2..6].copy_from_slice(&30u32.to_be_bytes());
    assert!(cmap_format14(&short, 0).is_none());
}

#[test]
fn cmap_table_follows_encoding_records() {
    let mut t = Vec::new();
    cw16(&mut t, 0);
    cw16(&mut t, 2);
    cw16(&mut t, 3);
    cw16(&mut t, 1);
    cw32(&mut t, 20);
    cw16(&mut t, 0);
    cw16(&mut t, 3);
    cw32(&mut t, 0);
    t.extend_from_slice(&format4());
    let (c, end) = cmap_table(&t).unwrap();
    assert_eq!(end, 20);
    assert_eq!(c.encoding_records.len(), 2);
    assert_eq!((c.encoding_records[0].platform, c.encoding_records[0].encoding), (3, 1));
    match c.encoding_records[0].subtable_offset.link.as_ref().unwrap() {
        CmapSubtable::Format4(f) => assert_eq!(f.seg_count, 2),
        _ => panic!("expected format 4"),
    }
    assert!(c.encoding_records[1].subtable_offset.link.is_none());
    // An unknown subtable format fails the whole table.
    let mut bad = t.clone();
    bad[21] = 5;
    assert!(cmap_table(&bad).is_none());
}
