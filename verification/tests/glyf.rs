use doodle_formats::opentype::glyf::{
    composite_glyph, for_each_pair, glyf_entry, glyf_table, glyph, loca_offsets, loca_table,
    simple_glyph, GlyfArg, GlyfEntry, GlyfScale, GlyphDescription, LocaOffsets,
};
use doodle_formats::opentype::values::F2Dot14;

fn gw16(v: &mut Vec<u8>, x: u16) {
    v.extend_from_slice(&x.to_be_bytes());
}

#[test]
fn loca_table_short_and_long() {
    let short = [0x00, 0x00, 0x00, 0x05, 0x00, 0x05];
    let (l, end) = loca_table(&short, 2, 0).unwrap();
    assert_eq!(end, 6);
    assert_eq!(l.offsets, LocaOffsets::Offsets16(vec![0, 5, 5]));
    let long = [0, 0, 0, 0, 0, 0, 0, 12];
    let (l, end) = loca_table(&long, 1, 1).unwrap();
    assert_eq!(end, 8);
    assert_eq!(l.offsets, LocaOffsets::Offsets32(vec![0, 12]));
    assert!(loca_table(&long, 1, 2).is_none());
    assert!(loca_table(&short, 3, 0).is_none());
}

#[test]
fn loca_offsets_default_is_empty_long() {
    assert_eq!(loca_offsets(None), LocaOffsets::Offsets32(Vec::new()));
    let (l, _) = loca_table(&[0, 0, 0, 1], 1, 0).unwrap();
    assert_eq!(loca_offsets(Some(l)), LocaOffsets::Offsets16(vec![0, 1]));
}

#[test]
fn for_each_pair_scales_short_offsets() {
    assert_eq!(
        for_each_pair(&LocaOffsets::Offsets16(vec![0, 5, 5, 9])),
        Some(vec![(0, 10), (10, 10), (10, 18)])
    );
    assert_eq!(for_each_pair(&LocaOffsets::Offsets32(vec![3, 7])), Some(vec![(3, 7)]));
    assert_eq!(for_each_pair(&LocaOffsets::Offsets32(vec![3])), Some(Vec::new()));
    assert_eq!(for_each_pair(&LocaOffsets::Offsets32(Vec::new())), None);
}

/// A triangle: one contour of three points, flags with a repeat run and
/// every kind of coordinate.
fn triangle() -> Vec<u8> {
    let mut v = Vec::new();
    gw16(&mut v, 1); // contours
    for x in [-5i16, -6, 100, 200] {
        v.extend_from_slice(&x.to_be_bytes());
    }
    gw16(&mut v, 2); // end point of the contour
    gw16(&mut v, 1); // instruction length
    v.push(0x2f); // instruction
    // point 0: on curve, x short positive (bits 0, 1, 4), y long (none)
    v.push(0x01 | 0x02 | 0x10);
    // points 1-2: repeat once; x same (bit 4), y short negative (bit 2)
    v.push(0x08 | 0x10 | 0x04);
    v.push(1);
    // x deltas: point 0 short 7; points 1-2 repeat the previous x
    v.push(7);
    // y deltas: point 0 long -300; points 1-2 short negative 4 and 9
    v.extend_from_slice(&(-300i16).to_be_bytes());
    v.push(4);
    v.push(9);
    v
}

#[test]
fn simple_glyph_expands_flags_and_coordinates() {
    let g = triangle();
    let (gl, end) = glyph(&g, 0).unwrap();
    assert_eq!(end, g.len());
    assert_eq!(gl.number_of_contours, 1);
    assert_eq!((gl.x_min, gl.y_min, gl.x_max, gl.y_max), (-5, -6, 100, 200));
    match gl.description {
        GlyphDescription::Simple(s) => {
            assert_eq!(s.end_points_of_contour, vec![2]);
            assert_eq!(s.instructions, vec![0x2f]);
            assert_eq!(s.number_of_coordinates, 3);
            assert_eq!(s.flags.len(), 3);
            assert!(s.flags[0].on_curve_point && s.flags[0].x_short_vector);
            assert!(!s.flags[1].on_curve_point && s.flags[1].y_short_vector);
            assert_eq!(s.flags[1], s.flags[2]);
            assert_eq!(s.x_coordinates, vec![7, 0, 0]);
            assert_eq!(s.y_coordinates, vec![-300, -4, -9]);
        }
        _ => panic!("expected a simple glyph"),
    }
}

#[test]
fn simple_glyph_failures() {
    let g = triangle();
    // Truncated coordinates.
    assert!(glyph(&g[..g.len() - 1], 0).is_none());
    // A contour count of zero is not a simple glyph.
    assert!(simple_glyph(&g, 10, 0).is_none());
    // An end point of 0xffff has no successor count.
    let mut v = Vec::new();
    gw16(&mut v, 0xffff);
    gw16(&mut v, 0);
    assert!(simple_glyph(&v, 0, 1).is_none());
}

#[test]
fn header_only_glyph() {
    let mut v = Vec::new();
    for _ in 0..5 {
        gw16(&mut v, 0);
    }
    let (g, end) = glyph(&v, 0).unwrap();
    assert_eq!(end, 10);
    assert_eq!(g.description, GlyphDescription::HeaderOnly);
}

/// A composite of two components: words with a scale, then bytes with a
/// two-by-two matrix and instructions.
fn composite() -> Vec<u8> {
    let mut v = Vec::new();
    v.extend_from_slice(&(-1i16).to_be_bytes());
    for _ in 0..4 {
        gw16(&mut v, 0);
    }
    // flags: words, xy values, scale, more components
    gw16(&mut v, 0x0001 | 0x0002 | 0x0008 | 0x0020);
    gw16(&mut v, 7);
    v.extend_from_slice(&(-3i16).to_be_bytes());
    gw16(&mut v, 4);
    gw16(&mut v, 0x4000);
    // flags: bytes, point numbers, two-by-two, instructions
    gw16(&mut v, 0x0080 | 0x0100);
    gw16(&mut v, 8);
    v.push(1);
    v.push(2);
    for x in [0x4000u16, 0, 0, 0x4000] {
        gw16(&mut v, x);
    }
    gw16(&mut v, 2);
    v.extend_from_slice(&[0xb0, 0x01]);
    v
}

#[test]
fn composite_glyph_components() {
    let c = composite();
    let (g, end) = glyph(&c, 0).unwrap();
    assert_eq!(end, c.len());
    match g.description {
        GlyphDescription::Composite(cg) => {
            assert_eq!(cg.glyphs.len(), 2);
            let a = cg.glyphs[0];
            assert_eq!(a.glyph_index, 7);
            assert_eq!(a.argument1, GlyfArg::Int16(-3));
            assert_eq!(a.argument2, GlyfArg::Int16(4));
            assert_eq!(a.scale, Some(GlyfScale::Scale(F2Dot14(0x4000))));
            let b = cg.glyphs[1];
            assert_eq!(b.argument1, GlyfArg::Uint8(1));
            assert_eq!(b.argument2, GlyfArg::Uint8(2));
            assert_eq!(
                b.scale,
                Some(GlyfScale::Matrix(
                    (F2Dot14(0x4000), F2Dot14(0)),
                    (F2Dot14(0), F2Dot14(0x4000))
                ))
            );
            assert!(b.flags.we_have_instructions && !b.flags.more_components);
            assert_eq!(cg.instructions, vec![0xb0, 0x01]);
        }
        _ => panic!("expected a composite glyph"),
    }
    // Without the final component the list never ends.
    assert!(composite_glyph(&c[..22], 10).is_none());
}

#[test]
fn glyf_table_entries_follow_loca() {
    let mut t = triangle();
    let tri_len = t.len() as u32;
    t.extend_from_slice(&composite());
    let offs = LocaOffsets::Offsets32(vec![0, tri_len, tri_len, t.len() as u32]);
    let entries = glyf_table(&t, &offs).unwrap();
    assert_eq!(entries.len(), 3);
    assert!(matches!(entries[0], GlyfEntry::Glyph(_)));
    assert_eq!(entries[1], GlyfEntry::EmptyGlyph);
    match &entries[2] {
        GlyfEntry::Glyph(g) => assert_eq!(g.number_of_contours, -1),
        _ => panic!("expected a glyph"),
    }
    assert!(glyf_table(&t, &LocaOffsets::Offsets32(Vec::new())).is_none());
    assert!(glyf_table(&t, &LocaOffsets::Offsets32(vec![1, 5])).is_none());
}

#[test]
fn glyf_entry_beyond_table_fails() {
    let t = triangle();
    assert!(glyf_entry(&t, 100, 200).is_none());
    assert_eq!(glyf_entry(&t, 100, 100), Some(GlyfEntry::EmptyGlyph));
}
