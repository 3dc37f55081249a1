use doodle_formats::bytes::magic;
use doodle_formats::opentype::stat::{axis_value_table, stat_table, AxisValueData};
use doodle_formats::opentype::values::Fixed32;

fn sw16(v: &mut Vec<u8>, x: u16) {
    v.extend_from_slice(&x.to_be_bytes());
}

fn sw32(v: &mut Vec<u8>, x: u32) {
    v.extend_from_slice(&x.to_be_bytes());
}

/// A `STAT` table with two design axes and axis values of formats 1 and 4.
fn stat_bytes() -> Vec<u8> {
    let mut v = Vec::new();
    sw16(&mut v, 1); // major
    sw16(&mut v, 2); // minor
    sw16(&mut v, 8); // design axis size
    sw16(&mut v, 2); // design axis count
    sw32(&mut v, 20); // design axes offset
    sw16(&mut v, 2); // axis value count
    sw32(&mut v, 36); // offset to axis value offsets
    sw16(&mut v, 2); // elided fallback name id
    // design axes at 20
    sw32(&mut v, magic(b"wght"));
    sw16(&mut v, 256);
    sw16(&mut v, 0);
    sw32(&mut v, magic(b"ital"));
    sw16(&mut v, 257);
    sw16(&mut v, 1);
    // axis value offsets at 36, relative to 36
    sw16(&mut v, 4);
    sw16(&mut v, 16);
    // format 1 at 40
    sw16(&mut v, 1);
    sw16(&mut v, 0);
    sw16(&mut v, 0x0002);
    sw16(&mut v, 258);
    sw32(&mut v, 0x0190_0000);
    // format 4 at 52
    sw16(&mut v, 4);
    sw16(&mut v, 2);
    sw16(&mut v, 0x0001);
    sw16(&mut v, 259);
    sw16(&mut v, 0);
    sw32(&mut v, 0x02bc_0000);
    sw16(&mut v, 1);
    sw32(&mut v, 0x0001_0000);
    v
}

#[test]
fn stat_table_reads_axes_and_values() {
    let t = stat_bytes();
    // The table lies at position 100 of its file.
    let (st, end) = stat_table(&t, 100).unwrap();
    assert_eq!(end, 20);
    assert_eq!(st.table_start, 100);
    assert_eq!((st.major_version, st.minor_version), (1, 2));
    assert_eq!(st.elided_fallback_name_id, 2);
    let axes = st.design_axes_offset.link.unwrap();
    assert_eq!(axes.len(), 2);
    assert_eq!(axes[1].axis_tag, magic(b"ital"));
    assert_eq!(axes[1].axis_ordering, 1);
    let arr = st.offset_to_axis_value_offsets.link.unwrap();
    assert_eq!(arr.table_start, 136);
    let vals = arr.axis_value_offsets;
    assert_eq!(vals.len(), 2);
    let v1 = vals[0].link.as_ref().unwrap();
    assert_eq!(v1.format, 1);
    match &v1.data {
        AxisValueData::Format1 { flags, value_name_id, value, .. } => {
            assert!(flags.elidable_axis_value_name);
            assert!(!flags.older_sibling_font_attribute);
            assert_eq!(*value_name_id, 258);
            assert_eq!(*value, Fixed32(0x0190_0000));
        }
        _ => panic!("expected format 1"),
    }
    let v4 = vals[1].link.as_ref().unwrap();
    match &v4.data {
        AxisValueData::Format4 { axis_count, flags, axis_values, .. } => {
            assert_eq!(*axis_count, 2);
            assert!(flags.older_sibling_font_attribute);
            assert_eq!(axis_values[1].axis_index, 1);
            assert_eq!(axis_values[1].value, Fixed32(0x0001_0000));
        }
        _ => panic!("expected format 4"),
    }
}

#[test]
fn stat_table_refuses_deprecated_version() {
    let mut t = stat_bytes();
    t[3] = 0;
    assert!(stat_table(&t, 0).is_none());
    let mut t = stat_bytes();
    t[1] = 2;
    assert!(stat_table(&t, 0).is_none());
}

#[test]
fn stat_table_zero_offsets_have_no_links() {
    let mut t = stat_bytes();
    t[8..12].copy_from_slice(&[0, 0, 0, 0]);
    t[14..18].copy_from_slice(&[0, 0, 0, 0]);
    let (st, _) = stat_table(&t, 0).unwrap();
    assert!(st.design_axes_offset.link.is_none());
    assert!(st.offset_to_axis_value_offsets.link.is_none());
}

#[test]
fn stat_table_fails_on_bad_axis_value() {
    let mut t = stat_bytes();
    t[40..42].copy_from_slice(&[0, 5]);
    assert!(stat_table(&t, 0).is_none());
    assert!(stat_table(&t[..19], 0).is_none());
}

#[test]
fn axis_value_formats_two_and_three() {
    let mut v = Vec::new();
    sw16(&mut v, 2);
    sw16(&mut v, 0);
    sw16(&mut v, 0);
    sw16(&mut v, 300);
    sw32(&mut v, 10);
    sw32(&mut v, 5);
    sw32(&mut v, 15);
    let (a, end) = axis_value_table(&v, 0).unwrap();
    assert_eq!(end, 20);
    match a.data {
        AxisValueData::Format2 { nominal_value, range_min_value, range_max_value, .. } => {
            assert_eq!((nominal_value, range_min_value, range_max_value), (Fixed32(10), Fixed32(5), Fixed32(15)));
        }
        _ => panic!("expected format 2"),
    }
    let mut w = Vec::new();
    sw16(&mut w, 3);
    sw16(&mut w, 1);
    sw16(&mut w, 3);
    sw16(&mut w, 301);
    sw32(&mut w, 400);
    sw32(&mut w, 700);
    let (b, end) = axis_value_table(&w, 0).unwrap();
    assert_eq!(end, 16);
    match b.data {
        AxisValueData::Format3 { flags, linked_value, .. } => {
            assert!(flags.elidable_axis_value_name && flags.older_sibling_font_attribute);
            assert_eq!(linked_value, Fixed32(700));
        }
        _ => panic!("expected format 3"),
    }
    assert!(axis_value_table(&w[..15], 0).is_none());
}
