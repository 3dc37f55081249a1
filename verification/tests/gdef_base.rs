use doodle_formats::bytes::magic;
use doodle_formats::opentype::base::{base_table, BaseCoordHint};
use doodle_formats::opentype::gdef::{gdef_table, CaretValueData, DeltaSet, GdefData};
use doodle_formats::opentype::gpos_values::DeviceTable;
use doodle_formats::opentype::layout::ClassDef;

fn words(ws: &[i32]) -> Vec<u8> {
    ws.iter().flat_map(|w| (*w as u16).to_be_bytes()).collect()
}

fn gdef_bytes() -> Vec<u8> {
    let mut t = words(&[1, 0, 12, 22, 40, 0]);
    t.extend(words(&[2, 1, 1, 5, 1]));
    t.extend(words(&[6, 1, 12]));
    t.extend(words(&[1, 1, 3]));
    t.extend(words(&[2, 4, 7]));
    t.extend(words(&[6, 1, 12]));
    t.extend(words(&[1, 1, 9]));
    t.extend(words(&[2, 6, 10]));
    t.extend(words(&[1, 300]));
    t.extend(words(&[3, 400, 8, 0]));
    t.extend(words(&[8, 8, 2, 0x1000]));
    assert_eq!(t.len(), 78);
    t
}

#[test]
fn gdef_version1_0() {
    let (g, end) = gdef_table(&gdef_bytes()).unwrap();
    assert_eq!(end, 12);
    assert_eq!(g.data, GdefData::Version1_0);
    assert!(matches!(g.glyph_class_def.link, Some(ClassDef::Format2 { class_range_count: 1, .. })));
    let al = g.attach_list.link.unwrap();
    assert_eq!(al.glyph_count, 1);
    assert_eq!(al.attach_point_offsets[0].link.as_ref().unwrap().point_indices, vec![4, 7]);
    let lc = g.lig_caret_list.link.unwrap();
    let lig = lc.lig_glyph_offsets[0].link.as_ref().unwrap();
    assert_eq!(lig.caret_count, 2);
    assert_eq!(lig.caret_values[0].link.as_ref().unwrap().data, CaretValueData::Format1 { coordinate: 300 });
    match &lig.caret_values[1].link.as_ref().unwrap().data {
        CaretValueData::Format3 { coordinate, table } => {
            assert_eq!(*coordinate, 400);
            assert_eq!(
                table.link,
                Some(DeviceTable::DeviceTable { start_size: 8, end_size: 8, delta_format: 2, delta_values: vec![0x1000] })
            );
        }
        _ => panic!("format 3 expected"),
    }
    assert!(g.mark_attach_class_def.link.is_none());
}

#[test]
fn gdef_versions() {
    let mut t = words(&[1, 2, 0, 0, 0, 0, 16, 0]);
    t.extend(words(&[1, 1, 0, 10, 0]));
    t.extend(words(&[1, 1, 4]));
    let (g, end) = gdef_table(&t).unwrap();
    assert_eq!(end, 14);
    match g.data {
        GdefData::Version1_2 { mark_glyph_sets_def } => {
            let m = mark_glyph_sets_def.link.unwrap();
            assert_eq!(m.mark_glyph_set_count, 1);
            assert!(m.coverage[0].link.is_some());
        }
        _ => panic!("version 1.2 expected"),
    }
    let mut v11 = gdef_bytes();
    v11[3] = 1;
    assert!(gdef_table(&v11).is_none());
    let mut v0 = gdef_bytes();
    v0[1] = 2;
    assert!(gdef_table(&v0).is_none());
}

#[test]
fn gdef_item_variation_store() {
    let mut t = words(&[1, 3, 0, 0, 0, 0, 0, 0, 20, 0]);
    t.extend(words(&[1, 0, 12, 1, 0, 22]));
    t.extend(words(&[1, 1, 0xc000, 0x4000, 0x4000]));
    t.extend(words(&[2, 1, 2, 0, 1]));
    t.extend_from_slice(&[0xff, 0xfe, 0x05, 0x01, 0x2c, 0xff]);
    let (g, end) = gdef_table(&t).unwrap();
    assert_eq!(end, 18);
    match g.data {
        GdefData::Version1_3 { mark_glyph_sets_def, item_var_store } => {
            assert!(mark_glyph_sets_def.link.is_none());
            let s = item_var_store.link.unwrap();
            let regions = s.variation_region_list_offset.link.unwrap();
            assert_eq!((regions.axis_count, regions.region_count), (1, 1));
            assert_eq!(regions.variation_regions[0].region_axes.len(), 1);
            let d = s.item_variation_data_offsets[0].link.as_ref().unwrap();
            assert_eq!((d.item_count, d.long_words, d.word_count), (2, false, 1));
            assert_eq!(d.region_indices, vec![0, 1]);
            assert_eq!(
                d.delta_sets[0],
                DeltaSet::Delta16 { delta_data_full_word: vec![-2], delta_data_half_word: vec![5] }
            );
            assert_eq!(
                d.delta_sets[1],
                DeltaSet::Delta16 { delta_data_full_word: vec![300], delta_data_half_word: vec![-1] }
            );
        }
        _ => panic!("version 1.3 expected"),
    }
    // More wide deltas than regions fails.
    let mut bad = t.clone();
    bad[44..46].copy_from_slice(&3u16.to_be_bytes());
    assert!(gdef_table(&bad).is_none());
    // A region count above 32767 fails.
    let mut bad2 = t.clone();
    bad2[34..36].copy_from_slice(&0x8000u16.to_be_bytes());
    assert!(gdef_table(&bad2).is_none());
}

fn base_bytes() -> Vec<u8> {
    let mut t = words(&[1, 0, 8, 0]);
    t.extend(words(&[4, 10]));
    t.extend(words(&[1]));
    t.extend_from_slice(b"ideo");
    t.extend(words(&[1]));
    t.extend_from_slice(b"latn");
    t.extend(words(&[10, 0]));
    t.extend(words(&[6, 0, 0]));
    t.extend(words(&[0, 1, 8, 0]));
    t.extend(words(&[1, -120]));
    assert_eq!(t.len(), 46);
    t
}

#[test]
fn base_table_axes() {
    let (b, end) = base_table(&base_bytes()).unwrap();
    assert_eq!(end, 8);
    assert!(b.item_var_store_offset.is_none());
    assert!(b.vert_axis_offset.link.is_none());
    let axis = b.horiz_axis_offset.link.unwrap();
    assert_eq!(axis.base_tag_list_offset.link.as_ref().unwrap().baseline_tags, vec![magic(b"ideo")]);
    let scripts = axis.base_script_list_offset.link.unwrap();
    assert_eq!(scripts.base_script_records[0].base_script_tag, magic(b"latn"));
    let script = scripts.base_script_records[0].base_script_offset.link.as_ref().unwrap();
    assert!(script.default_min_max_offset.link.is_none());
    let values = script.base_values_offset.link.as_ref().unwrap();
    assert_eq!(values.base_coord_count, 1);
    let coord = values.base_coord_offsets[0].link.as_ref().unwrap();
    assert_eq!((coord.format, coord.coordinate), (1, -120));
    assert_eq!(coord.hint, BaseCoordHint::NoHint);
}

#[test]
fn base_table_rejects() {
    let mut t = base_bytes();
    t[3] = 2;
    assert!(base_table(&t).is_none());
    let mut t = base_bytes();
    t[42..44].copy_from_slice(&4u16.to_be_bytes());
    assert!(base_table(&t).is_none());
    // Version 1.1 needs the store offset.
    let mut t = base_bytes();
    t[3] = 1;
    assert!(base_table(&t[..9]).is_none());
}
