use doodle_formats::bytes::magic;
use doodle_formats::opentype::common::{feature_list, lookup_flag, script_list};
use doodle_formats::opentype::context::{
    chained_sequence_context, sequence_context, ChainedSequenceContextData, SequenceContextData,
    SequenceLookupRecord,
};
use doodle_formats::opentype::gsub::{
    gsub_table, reverse_chain_single_subst, GroundSubst, SubstLookupSubtable,
};
use doodle_formats::opentype::layout::{CoverageTable, SingleSubstData};
use doodle_formats::opentype::values::F2Dot14;

fn words(ws: &[u16]) -> Vec<u8> {
    ws.iter().flat_map(|w| w.to_be_bytes()).collect()
}

/// A `GSUB` table with a default script, one feature and two lookups: a
/// single substitution, and an extension leading to a chained context.
fn gsub_bytes() -> Vec<u8> {
    // A target must lie strictly after the offset field that leads to it,
    // so a padding word follows each record whose target comes next.
    let mut t = words(&[1, 0, 10, 32, 48]);
    t.extend(words(&[1]));
    t.extend_from_slice(b"DFLT");
    t.extend(words(&[10, 0]));
    t.extend(words(&[4, 0]));
    t.extend(words(&[0, 0xffff, 1, 0]));
    t.extend(words(&[1]));
    t.extend_from_slice(b"liga");
    t.extend(words(&[10, 0]));
    t.extend(words(&[0, 1, 0]));
    t.extend(words(&[2, 6, 28]));
    t.extend(words(&[1, 0, 1, 10, 0]));
    t.extend(words(&[1, 6, 5]));
    t.extend(words(&[1, 1, 10]));
    t.extend(words(&[7, 0x0010, 1, 10, 3]));
    t.extend(words(&[1, 6, 0, 10, 0]));
    t.extend(words(&[3, 0, 1, 16, 0, 1, 0, 0]));
    t.extend(words(&[2, 1, 10, 12, 0]));
    assert_eq!(t.len(), 122);
    t
}

#[test]
fn gsub_table_reads_lists_and_lookups() {
    let t = gsub_bytes();
    let (g, end) = gsub_table(&t).unwrap();
    assert_eq!(end, 10);
    assert_eq!((g.major_version, g.minor_version), (1, 0));
    assert!(g.feature_variations_offset.is_none());
    let sl = g.script_list.link.unwrap();
    assert_eq!(sl.script_count, 1);
    assert_eq!(sl.script_records[0].script_tag, magic(b"DFLT"));
    let script = sl.script_records[0].script.link.as_ref().unwrap();
    let dl = script.default_lang_sys.link.as_ref().unwrap();
    assert_eq!(dl.required_feature_index, 0xffff);
    assert_eq!(dl.feature_indices, vec![0]);
    let fl = g.feature_list.link.unwrap();
    assert_eq!(fl.feature_records[0].feature_tag, magic(b"liga"));
    assert_eq!(fl.feature_records[0].feature.link.as_ref().unwrap().lookup_list_indices, vec![0]);
    let ll = g.lookup_list.link.unwrap();
    assert_eq!(ll.lookup_count, 2);
    let l0 = ll.lookups[0].link.as_ref().unwrap();
    assert_eq!(l0.lookup_type, 1);
    assert!(l0.mark_filtering_set.is_none());
    match l0.subtables[0].link.as_ref().unwrap() {
        SubstLookupSubtable::GroundSubst(GroundSubst::SingleSubst(s)) => match &s.subst {
            SingleSubstData::Format1 { coverage, delta_glyph_id } => {
                assert_eq!(*delta_glyph_id, 5);
                assert_eq!(
                    coverage.link,
                    Some(CoverageTable::Format1 { glyph_count: 1, glyph_array: vec![10] })
                );
            }
            _ => panic!("format 1 expected"),
        },
        _ => panic!("single substitution expected"),
    }
    let l1 = ll.lookups[1].link.as_ref().unwrap();
    assert_eq!(l1.lookup_type, 7);
    assert!(l1.lookup_flag.use_mark_filtering_set);
    assert_eq!(l1.mark_filtering_set, Some(3));
    match l1.subtables[0].link.as_ref().unwrap() {
        SubstLookupSubtable::SubstExtension(x) => {
            assert_eq!(x.extension_lookup_type, 6);
            assert_eq!(x.extension_offset.offset, 10);
            match x.extension_offset.link.as_ref().unwrap() {
                GroundSubst::ChainedSequenceContext(c) => {
                    assert_eq!(c.format, 3);
                    match &c.subst {
                        ChainedSequenceContextData::Format3 {
                            backtrack_glyph_count,
                            input_glyph_count,
                            input_coverages,
                            seq_lookup_records,
                            ..
                        } => {
                            assert_eq!((*backtrack_glyph_count, *input_glyph_count), (0, 1));
                            assert!(matches!(
                                input_coverages[0].link,
                                Some(CoverageTable::Format2 { range_count: 1, .. })
                            ));
                            assert_eq!(
                                seq_lookup_records,
                                &vec![SequenceLookupRecord { sequence_index: 0, lookup_list_index: 0 }]
                            );
                        }
                        _ => panic!("format 3 expected"),
                    }
                }
                _ => panic!("chained context expected"),
            }
        }
        _ => panic!("extension expected"),
    }
}

#[test]
fn gsub_table_rejects() {
    let mut t = gsub_bytes();
    t[1] = 2;
    assert!(gsub_table(&t).is_none());
    // An extension cannot lead to another extension.
    let mut t = gsub_bytes();
    t[88..90].copy_from_slice(&7u16.to_be_bytes());
    assert!(gsub_table(&t).is_none());
    // Unknown lookup types fail.
    let mut t = gsub_bytes();
    t[54..56].copy_from_slice(&9u16.to_be_bytes());
    assert!(gsub_table(&t).is_none());
    // A lookup that asks for a mark filtering set must have one.
    let mut t = gsub_bytes();
    t.truncate(84);
    assert!(gsub_table(&t).is_none());
    // A minor version above 0 carries a feature variations offset.
    let mut t = gsub_bytes();
    t[3] = 1;
    assert!(gsub_table(&t).is_none());
}

#[test]
fn gsub_feature_variations() {
    let mut t = words(&[1, 1, 14, 16, 18, 0, 20]);
    t.extend(words(&[0, 0, 0]));
    t.extend(words(&[1, 0, 0, 1]));
    t.extend(words(&[0, 16, 0, 32]));
    t.extend(words(&[1, 0, 8, 0]));
    t.extend(words(&[1, 0, 0x2000, 0x4000]));
    t.extend(words(&[1, 0, 1, 0, 0, 14, 0]));
    t.extend(words(&[0, 1, 0]));
    assert_eq!(t.len(), 72);
    let (g, end) = gsub_table(&t).unwrap();
    assert_eq!(end, 14);
    assert_eq!(g.script_list.link.unwrap().script_count, 0);
    let fv = g.feature_variations_offset.unwrap().link.unwrap();
    assert_eq!(fv.feature_variation_record_count, 1);
    let rec = &fv.feature_variation_records[0];
    let cs = rec.condition_set_offset.link.as_ref().unwrap();
    let cond = cs.condition_offsets[0].link.unwrap();
    assert_eq!(cond.axis_index, 0);
    assert_eq!(cond.filter_range_min_value, F2Dot14(0x2000));
    assert_eq!(cond.filter_range_max_value, F2Dot14(0x4000));
    let fts = rec.feature_table_substitution_offset.link.as_ref().unwrap();
    assert_eq!(fts.substitutions[0].feature_index, 0);
    let ft = fts.substitutions[0].alternate_feature_offset.link.as_ref().unwrap();
    assert_eq!(ft.lookup_list_indices, vec![0]);
    // A condition of another format fails.
    let mut bad = t.clone();
    bad[45] = 2;
    assert!(gsub_table(&bad).is_none());
    // The lists on their own.
    assert_eq!(script_list(&t, 14).unwrap().script_count, 0);
    assert_eq!(feature_list(&t, 16).unwrap().feature_count, 0);
    assert!(script_list(&t, 72).is_none());
}

#[test]
fn lookup_flags() {
    let f = lookup_flag(0x0319);
    assert_eq!(f.mark_attachment_class_filter, 3);
    assert!(f.use_mark_filtering_set && f.ignore_marks && f.right_to_left);
    assert!(!f.ignore_ligatures && !f.ignore_base_glyphs);
}

#[test]
fn sequence_context_formats() {
    // Format 1 at 0: coverage at 8, one rule set at 14, one rule at 20.
    let mut t = words(&[1, 8, 1, 14]);
    t.extend(words(&[1, 1, 20]));
    t.extend(words(&[1, 6, 0]));
    t.extend(words(&[2, 1, 7, 1, 0]));
    let (c, end) = sequence_context(&t, 0).unwrap();
    assert_eq!(end, 8);
    match c.subst {
        SequenceContextData::Format1 { seq_rule_set_count, seq_rule_sets, .. } => {
            assert_eq!(seq_rule_set_count, 1);
            let set = seq_rule_sets[0].link.as_ref().unwrap();
            let rule = set.rules[0].link.as_ref().unwrap();
            assert_eq!((rule.glyph_count, rule.input_sequence.clone()), (2, vec![7]));
            assert_eq!(
                rule.seq_lookup_records,
                vec![SequenceLookupRecord { sequence_index: 1, lookup_list_index: 0 }]
            );
        }
        _ => panic!("format 1 expected"),
    }
    // A rule whose glyph count is zero fails.
    let mut z = t.clone();
    z[20..22].copy_from_slice(&0u16.to_be_bytes());
    assert!(sequence_context(&z, 0).is_none());
    // Format 3: two coverage offsets and one lookup record.
    let mut f3 = words(&[3, 2, 1, 14, 14, 0, 0]);
    f3.extend(words(&[1, 1, 4]));
    let (c3, end3) = sequence_context(&f3, 0).unwrap();
    assert_eq!(end3, 14);
    match c3.subst {
        SequenceContextData::Format3 { glyph_count, coverage_tables, .. } => {
            assert_eq!(glyph_count, 2);
            assert_eq!(coverage_tables.len(), 2);
            assert!(coverage_tables[1].link.is_some());
        }
        _ => panic!("format 3 expected"),
    }
    assert!(sequence_context(&words(&[4, 0]), 0).is_none());
}

#[test]
fn chained_context_format1_rule() {
    // Coverage at 8, rule set at 14, rule at 20: one backtrack glyph, two
    // input glyphs, no lookahead, one lookup record.
    let mut t = words(&[1, 8, 1, 14]);
    t.extend(words(&[1, 1, 5]));
    t.extend(words(&[1, 6, 0]));
    t.extend(words(&[1, 9, 2, 8, 0, 1, 0, 2]));
    let (c, end) = chained_sequence_context(&t, 0).unwrap();
    assert_eq!(end, 8);
    match c.subst {
        ChainedSequenceContextData::Format1 { chained_seq_rule_sets, .. } => {
            let set = chained_seq_rule_sets[0].link.as_ref().unwrap();
            let rule = set.chained_seq_rules[0].link.as_ref().unwrap();
            assert_eq!(rule.backtrack_sequence, vec![9]);
            assert_eq!(rule.input_sequence, vec![8]);
            assert_eq!(rule.lookahead_glyph_count, 0);
            assert_eq!(rule.seq_lookup_records[0].lookup_list_index, 2);
        }
        _ => panic!("format 1 expected"),
    }
}

#[test]
fn reverse_chain_reads_substitutes() {
    // Coverage at 16, no backtrack, one lookahead coverage at 16, two
    // substitutes.
    let mut t = words(&[1, 16, 0, 1, 16, 2, 40]);
    t.extend(words(&[41]));
    t.extend(words(&[1, 1, 7]));
    let (r, end) = reverse_chain_single_subst(&t, 0).unwrap();
    assert_eq!(end, 16);
    assert_eq!(r.lookahead_glyph_count, 1);
    assert_eq!(r.substitute_glyph_ids, vec![40, 41]);
    let mut bad = t.clone();
    bad[1] = 2;
    assert!(reverse_chain_single_subst(&bad, 0).is_none());
}
