use doodle_formats::opentype::kern::{kern_coverage, kern_table, KernPair, KernSubtableData};

fn w16(v: &mut Vec<u8>, x: u16) {
    v.extend_from_slice(&x.to_be_bytes());
}

#[test]
fn kern_coverage_bits() {
    let c = kern_coverage(0x0209);
    assert_eq!(c.format, 2);
    assert!(c.overrides && c.horizontal);
    assert!(!c.cross_stream && !c.minimum);
    let c = kern_coverage(0x00f6);
    assert_eq!(c.format, 0);
    assert!(c.cross_stream && c.minimum && !c.horizontal && !c.overrides);
}

#[test]
fn kern_format0_pairs() {
    let mut t = Vec::new();
    for x in [0u16, 1, 0, 26, 0x0001, 2, 12, 1, 0] {
        w16(&mut t, x);
    }
    for (l, r, v) in [(3u16, 4u16, -40i16), (5, 6, 25)] {
        w16(&mut t, l);
        w16(&mut t, r);
        t.extend_from_slice(&v.to_be_bytes());
    }
    let (k, end) = kern_table(&t, 0).unwrap();
    assert_eq!(end, 30);
    assert_eq!(k.n_tables, 1);
    let s = &k.subtables[0];
    assert_eq!(s.length, 26);
    assert!(s.coverage.horizontal);
    assert_eq!(
        s.data,
        KernSubtableData::Format0 {
            n_pairs: 2,
            search_range: 12,
            entry_selector: 1,
            range_shift: 0,
            kern_pairs: vec![
                KernPair { left: 3, right: 4, value: -40 },
                KernPair { left: 5, right: 6, value: 25 }
            ],
        }
    );
    assert!(kern_table(&t[..29], 0).is_none());
}

#[test]
fn kern_format2_array() {
    let mut t = Vec::new();
    for x in [0u16, 1, 0, 0, 0x0200] {
        w16(&mut t, x);
    }
    // Body at 10: row width, then offsets relative to 10.
    for x in [4u16, 8, 16, 24] {
        w16(&mut t, x);
    }
    // Left class table at 18: two glyphs.
    for x in [10u16, 2, 0, 2] {
        w16(&mut t, x);
    }
    // Right class table at 26: one glyph.
    for x in [20u16, 1, 0, 0] {
        w16(&mut t, x);
    }
    t.truncate(32);
    // Kerning array at 34 (32 padded): two rows of one value.
    w16(&mut t, 0);
    for v in [-7i16, 9] {
        t.extend_from_slice(&v.to_be_bytes());
    }
    // The table lies at position 200 of its file.
    let (k, end) = kern_table(&t, 200).unwrap();
    assert_eq!(end, 18);
    match &k.subtables[0].data {
        KernSubtableData::Format2 {
            table_start,
            row_width,
            left_class_offset,
            right_class_offset,
            kerning_array_offset,
        } => {
            assert_eq!((*table_start, *row_width), (210, 4));
            let l = left_class_offset.link.as_ref().unwrap();
            assert_eq!((l.first_glyph, l.n_glyphs, l.class_values.clone()), (10, 2, vec![0, 2]));
            let r = right_class_offset.link.as_ref().unwrap();
            assert_eq!(r.n_glyphs, 1);
            assert_eq!(kerning_array_offset.link, Some(vec![vec![-7], vec![9]]));
        }
        _ => panic!("format 2 expected"),
    }
}

#[test]
fn kern_rejects() {
    assert!(kern_table(&[0, 1, 0, 0], 0).is_none());
    assert_eq!(kern_table(&[0, 0, 0, 0], 0).unwrap().0.subtables.len(), 0);
    // Format 1 is not a known body.
    assert!(kern_table(&[0, 0, 0, 1, 0, 0, 0, 6, 1, 0], 0).is_none());
    // Subtable version must be 0.
    assert!(kern_table(&[0, 0, 0, 1, 0, 1, 0, 14, 0, 1, 0, 0, 0, 0, 0, 0, 0, 0], 0).is_none());
}
