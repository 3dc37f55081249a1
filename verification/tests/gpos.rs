use doodle_formats::opentype::gpos::{
    cursive_pos, mark_attach_pos, mark_lig_pos, pair_pos, single_pos, PairPosData, SinglePosData,
};
use doodle_formats::opentype::gpos_table::{gpos_table, GroundPos, PosLookupSubtable};
use doodle_formats::opentype::gpos_values::{
    anchor_table, device_table, value_format, AnchorData, DeviceTable,
};

fn words(ws: &[i32]) -> Vec<u8> {
    ws.iter().flat_map(|w| (*w as u16).to_be_bytes()).collect()
}

#[test]
fn value_format_bits() {
    let f = value_format(0x0045).unwrap();
    assert!(f.x_placement && f.x_advance && f.x_advance_device);
    assert!(!f.y_placement && !f.y_advance && !f.x_placement_device);
    assert!(value_format(0x0100).is_none());
    assert!(value_format(0x00ff).is_some());
}

#[test]
fn single_pos_formats() {
    let mut t = words(&[1, 8, 0x0004, -50]);
    t.extend(words(&[1, 1, 5]));
    let (s, end) = single_pos(&t, 0).unwrap();
    assert_eq!(end, 8);
    match s.subtable {
        SinglePosData::Format1 { value_record, .. } => {
            assert_eq!(value_record.x_advance, Some(-50));
            assert_eq!(value_record.x_placement, None);
        }
        _ => panic!("format 1 expected"),
    }
    let mut t2 = words(&[2, 16, 0x0005, 2, 10, 20, 30, 40]);
    t2.extend(words(&[1, 2, 5, 6]));
    let (s2, end2) = single_pos(&t2, 0).unwrap();
    assert_eq!(end2, 16);
    match s2.subtable {
        SinglePosData::Format2 { value_count, value_records, .. } => {
            assert_eq!(value_count, 2);
            assert_eq!(value_records[1].x_placement, Some(30));
            assert_eq!(value_records[1].x_advance, Some(40));
        }
        _ => panic!("format 2 expected"),
    }
    let mut bad = t.clone();
    bad[4] = 1;
    assert!(single_pos(&bad, 0).is_none());
    assert!(single_pos(&words(&[3, 8, 0]), 0).is_none());
}

#[test]
fn value_record_with_device() {
    let mut t = words(&[1, 10, 0x0044, -3, 16]);
    t.extend(words(&[1, 1, 3]));
    t.extend(words(&[11, 14, 1, 0xabcd]));
    let (s, end) = single_pos(&t, 0).unwrap();
    assert_eq!(end, 10);
    match s.subtable {
        SinglePosData::Format1 { value_record, .. } => {
            assert_eq!(value_record.x_advance, Some(-3));
            let d = value_record.x_advance_device.unwrap();
            assert_eq!(d.offset, 16);
            assert_eq!(
                d.link,
                Some(DeviceTable::DeviceTable {
                    start_size: 11,
                    end_size: 14,
                    delta_format: 1,
                    delta_values: vec![0xabcd]
                })
            );
        }
        _ => panic!("format 1 expected"),
    }
}

#[test]
fn device_tables() {
    // Four sizes of 8-bit deltas take two words.
    let t = words(&[11, 14, 3, 0x0102, 0x0304]);
    assert_eq!(
        device_table(&t, 0),
        Some(DeviceTable::DeviceTable {
            start_size: 11,
            end_size: 14,
            delta_format: 3,
            delta_values: vec![0x0102, 0x0304]
        })
    );
    assert!(device_table(&t[..8], 0).is_none());
    assert_eq!(
        device_table(&words(&[1, 2, 0x8000]), 0),
        Some(DeviceTable::VariationIndexTable {
            delta_set_outer_index: 1,
            delta_set_inner_index: 2,
            delta_format: 0x8000
        })
    );
    assert_eq!(
        device_table(&words(&[1, 2, 7]), 0),
        Some(DeviceTable::OtherTable { field0: 1, field1: 2, delta_format: 7 })
    );
    // The last size may not come before the first.
    assert!(device_table(&words(&[14, 11, 2, 0]), 0).is_none());
}

#[test]
fn pair_pos_format1() {
    let mut t = words(&[1, 12, 0x0004, 0, 1, 18]);
    t.extend(words(&[1, 1, 7]));
    t.extend(words(&[1, 8, -20]));
    let (p, end) = pair_pos(&t, 0).unwrap();
    assert_eq!(end, 12);
    match p.subtable {
        PairPosData::Format1 { pair_set_count, pair_sets, .. } => {
            assert_eq!(pair_set_count, 1);
            let set = pair_sets[0].link.as_ref().unwrap();
            assert_eq!(set.pair_value_count, 1);
            let r = &set.pair_value_records[0];
            assert_eq!(r.second_glyph, 8);
            assert_eq!(r.value_record1.as_ref().unwrap().x_advance, Some(-20));
            assert!(r.value_record2.is_none());
        }
        _ => panic!("format 1 expected"),
    }
}

#[test]
fn pair_pos_format2() {
    let mut t = words(&[2, 24, 0x0004, 0x0004, 30, 40, 2, 1, -1, -2, -3, -4]);
    t.extend(words(&[1, 1, 7]));
    t.extend(words(&[2, 1, 7, 7, 1]));
    t.extend(words(&[1, 8, 1, 0]));
    let (p, end) = pair_pos(&t, 0).unwrap();
    assert_eq!(end, 24);
    match p.subtable {
        PairPosData::Format2 { class1_count, class2_count, class1_records, class_def1, .. } => {
            assert_eq!((class1_count, class2_count), (2, 1));
            assert!(class_def1.link.is_some());
            let c = &class1_records[1].class2_records[0];
            assert_eq!(c.value_record1.as_ref().unwrap().x_advance, Some(-3));
            assert_eq!(c.value_record2.as_ref().unwrap().x_advance, Some(-4));
        }
        _ => panic!("format 2 expected"),
    }
    assert!(pair_pos(&t[..22], 0).is_none());
}

#[test]
fn cursive_and_anchors() {
    let mut t = words(&[1, 10, 1, 16, 0]);
    t.extend(words(&[1, 1, 9]));
    t.extend(words(&[1, 100, 200]));
    let (c, end) = cursive_pos(&t, 0).unwrap();
    assert_eq!(end, 10);
    let r = &c.entry_exit_records[0];
    assert_eq!(
        r.entry_anchor.link.as_ref().unwrap().table,
        AnchorData::Format1 { x_coordinate: 100, y_coordinate: 200 }
    );
    assert_eq!(r.exit_anchor.offset, 0);
    assert!(r.exit_anchor.link.is_none());
    let a2 = anchor_table(&words(&[2, -5, 6, 3]), 0).unwrap();
    assert_eq!(a2.table, AnchorData::Format2 { x_coordinate: -5, y_coordinate: 6, anchor_point: 3 });
    assert!(anchor_table(&words(&[4, 0, 0]), 0).is_none());
}

#[test]
fn mark_to_base() {
    // Each target lies strictly after the offset field leading to it.
    let mut t = words(&[1, 12, 18, 1, 24, 40]);
    t.extend(words(&[1, 1, 20]));
    t.extend(words(&[1, 1, 10]));
    t.extend(words(&[1, 0, 8, 0]));
    t.extend(words(&[2, 5, 6, 3]));
    t.extend(words(&[1, 6, 0]));
    t.extend(words(&[3, -1, -2, 0, 0]));
    let (m, end) = mark_attach_pos(&t, 0).unwrap();
    assert_eq!(end, 12);
    assert_eq!(m.mark_class_count, 1);
    let marks = m.mark_array_offset.link.as_ref().unwrap();
    assert_eq!(marks.mark_records[0].mark_class, 0);
    assert!(matches!(
        marks.mark_records[0].mark_anchor_offset.link.as_ref().unwrap().table,
        AnchorData::Format2 { anchor_point: 3, .. }
    ));
    let bases = m.target_array_offset.link.as_ref().unwrap();
    assert_eq!(bases.count, 1);
    match &bases.records[0].anchors[0].link.as_ref().unwrap().table {
        AnchorData::Format3 { x_coordinate, x_device_offset, .. } => {
            assert_eq!(*x_coordinate, -1);
            assert!(x_device_offset.link.is_none());
        }
        _ => panic!("format 3 expected"),
    }
}

#[test]
fn mark_to_ligature() {
    let mut t = words(&[1, 12, 18, 1, 24, 38]);
    t.extend(words(&[1, 1, 20]));
    t.extend(words(&[1, 1, 30]));
    t.extend(words(&[1, 0, 8, 0]));
    t.extend(words(&[1, 1, 1]));
    t.extend(words(&[1, 6, 0]));
    t.extend(words(&[2, 6, 0]));
    t.extend(words(&[1, 7, 8]));
    let (m, end) = mark_lig_pos(&t, 0).unwrap();
    assert_eq!(end, 12);
    let ligs = m.ligature_array_offset.link.as_ref().unwrap();
    assert_eq!(ligs.ligature_count, 1);
    let attach = ligs.ligature_attach_offsets[0].link.as_ref().unwrap();
    assert_eq!(attach.count, 2);
    assert!(attach.records[0].anchors[0].link.is_some());
    assert!(attach.records[1].anchors[0].link.is_none());
}

fn gpos_bytes() -> Vec<u8> {
    let mut t = words(&[1, 0, 10, 12, 14]);
    t.extend(words(&[0]));
    t.extend(words(&[0]));
    t.extend(words(&[2, 6, 30]));
    t.extend(words(&[1, 0, 1, 10, 0]));
    t.extend(words(&[1, 8, 0x0004, -5]));
    t.extend(words(&[1, 1, 3]));
    t.extend(words(&[9, 0, 1, 10, 0]));
    t.extend(words(&[1, 1, 0, 10, 0]));
    t.extend(words(&[1, 8, 0x0004, 7]));
    t.extend(words(&[1, 1, 4]));
    assert_eq!(t.len(), 78);
    t
}

#[test]
fn gpos_table_reads_lookups() {
    let t = gpos_bytes();
    let (g, end) = gpos_table(&t).unwrap();
    assert_eq!(end, 10);
    let ll = g.lookup_list.link.unwrap();
    assert_eq!(ll.lookup_count, 2);
    let l0 = ll.lookups[0].link.as_ref().unwrap();
    assert!(matches!(
        l0.subtables[0].link.as_ref().unwrap(),
        PosLookupSubtable::GroundPos(GroundPos::SinglePos(_))
    ));
    let l1 = ll.lookups[1].link.as_ref().unwrap();
    match l1.subtables[0].link.as_ref().unwrap() {
        PosLookupSubtable::PosExtension(x) => {
            assert_eq!(x.extension_lookup_type, 1);
            match x.extension_offset.link.as_ref().unwrap() {
                GroundPos::SinglePos(s) => match &s.subtable {
                    SinglePosData::Format1 { value_record, .. } => {
                        assert_eq!(value_record.x_advance, Some(7))
                    }
                    _ => panic!("format 1 expected"),
                },
                _ => panic!("single positioning expected"),
            }
        }
        _ => panic!("extension expected"),
    }
}

#[test]
fn gpos_table_rejects() {
    let mut t = gpos_bytes();
    t[56..58].copy_from_slice(&9u16.to_be_bytes());
    assert!(gpos_table(&t).is_none());
    let mut t = gpos_bytes();
    t[20..22].copy_from_slice(&10u16.to_be_bytes());
    assert!(gpos_table(&t).is_none());
    assert!(gpos_table(&gpos_bytes()[..9]).is_none());
}
