use doodle_formats::opentype::layout::{
    alternate_subst, class_def, coverage_table, ligature_subst, multiple_subst, single_subst,
    ClassDef, CoverageTable, RangeRecord, SingleSubstData,
};

fn lw16(v: &mut Vec<u8>, x: u16) {
    v.extend_from_slice(&x.to_be_bytes());
}

fn words(xs: &[u16]) -> Vec<u8> {
    let mut v = Vec::new();
    for x in xs {
        lw16(&mut v, *x);
    }
    v
}

#[test]
fn coverage_formats() {
    let (c, end) = coverage_table(&words(&[1, 2, 10, 20]), 0).unwrap();
    assert_eq!(end, 8);
    assert_eq!(c, CoverageTable::Format1 { glyph_count: 2, glyph_array: vec![10, 20] });
    let (c, end) = coverage_table(&words(&[2, 1, 5, 9, 0]), 0).unwrap();
    assert_eq!(end, 10);
    assert_eq!(
        c,
        CoverageTable::Format2 {
            range_count: 1,
            range_records: vec![RangeRecord { start_glyph_id: 5, end_glyph_id: 9, value: 0 }],
        }
    );
    assert!(coverage_table(&words(&[3, 0]), 0).is_none());
    assert!(coverage_table(&words(&[1, 2, 10]), 0).is_none());
}

#[test]
fn class_def_formats() {
    let (c, end) = class_def(&words(&[1, 30, 2, 1, 2]), 0).unwrap();
    assert_eq!(end, 10);
    assert_eq!(
        c,
        ClassDef::Format1 { start_glyph_id: 30, glyph_count: 2, class_value_array: vec![1, 2] }
    );
    let (c, _) = class_def(&words(&[2, 1, 4, 6, 3]), 0).unwrap();
    match c {
        ClassDef::Format2 { class_range_records, .. } => assert_eq!(class_range_records[0].value, 3),
        _ => panic!("expected format 2"),
    }
    assert!(class_def(&words(&[0, 0]), 0).is_none());
}

#[test]
fn single_subst_formats() {
    // format 1: coverage at 6, delta -1
    let t = words(&[1, 6, 0xffff, 1, 1, 42]);
    let (s, end) = single_subst(&t, 0).unwrap();
    assert_eq!(end, 6);
    match s.subst {
        SingleSubstData::Format1 { coverage, delta_glyph_id } => {
            assert_eq!(delta_glyph_id, -1);
            assert_eq!(coverage.offset, 6);
            assert!(coverage.link.is_some());
        }
        _ => panic!("expected format 1"),
    }
    // format 2: coverage at 10, two substitutes
    let t = words(&[2, 10, 2, 7, 8, 1, 2, 3, 4]);
    let (s, end) = single_subst(&t, 0).unwrap();
    assert_eq!(end, 10);
    match s.subst {
        SingleSubstData::Format2 { substitute_glyph_ids, .. } => assert_eq!(substitute_glyph_ids, vec![7, 8]),
        _ => panic!("expected format 2"),
    }
    assert!(single_subst(&words(&[3, 0, 0]), 0).is_none());
}

#[test]
fn multiple_and_alternate_subst() {
    // format 1, coverage at 10, two sequences at 16 and 22
    let t = words(&[1, 10, 2, 16, 22, 1, 1, 5, 2, 7, 8, 1, 9]);
    let (m, end) = multiple_subst(&t, 0).unwrap();
    assert_eq!(end, 10);
    assert_eq!(m.sequence_count, 2);
    assert_eq!(m.sequences[0].link.as_ref().unwrap().glyph_ids, vec![7, 8]);
    assert_eq!(m.sequences[1].link.as_ref().unwrap().glyph_ids, vec![9]);
    let (a, _) = alternate_subst(&t, 0).unwrap();
    assert_eq!(a.sequences.len(), 2);
    let mut other = t.clone();
    other[1] = 2;
    assert!(multiple_subst(&other, 0).is_none());
    assert!(alternate_subst(&other, 0).is_none());
}

#[test]
fn ligature_subst_nested_links() {
    // subtable: format 1, coverage at 8, one set at 14
    // coverage at 8: format 1, one glyph
    // set at 14: one ligature at 14 + 6 = 20, past a padding word (a
    // target right after its offset field would not be linked)
    // ligature at 20: glyph 99, three components (two listed)
    let t = words(&[1, 8, 1, 14, 1, 1, 1, 1, 6, 0, 99, 3, 20, 21]);
    let (l, end) = ligature_subst(&t, 0).unwrap();
    assert_eq!(end, 8);
    let set = l.ligature_sets[0].link.as_ref().unwrap();
    assert_eq!(set.ligature_count, 1);
    let lig = set.ligatures[0].link.as_ref().unwrap();
    assert_eq!(lig.ligature_glyph, 99);
    assert_eq!(lig.component_glyph_ids, vec![20, 21]);
    // A ligature with no components at all is refused.
    let mut zero = t.clone();
    zero[22..24].copy_from_slice(&0u16.to_be_bytes());
    assert!(ligature_subst(&zero, 0).is_none());
}
