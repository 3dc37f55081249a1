use doodle_formats::opentype::name::{name_table, NameData};

fn nw16(v: &mut Vec<u8>, x: u16) {
    v.extend_from_slice(&x.to_be_bytes());
}

fn name_bytes(version: u16) -> Vec<u8> {
    let mut v = Vec::new();
    nw16(&mut v, version);
    nw16(&mut v, 1);
    let storage: u16 = if version == 1 { 6 + 12 + 2 + 4 } else { 6 + 12 };
    nw16(&mut v, storage);
    for x in [3u16, 1, 0x409, 1, 4, 2] {
        nw16(&mut v, x);
    }
    if version == 1 {
        nw16(&mut v, 1);
        nw16(&mut v, 2);
        nw16(&mut v, 6);
    }
    v.extend_from_slice(&[0xee, 0xee, 0, b'A', 0, b'B']);
    v.extend_from_slice(b"en");
    v
}

#[test]
fn name_table_version0() {
    let t = name_bytes(0);
    let (n, end) = name_table(&t).unwrap();
    assert_eq!(end, 18);
    assert_eq!(n.storage_offset, 18);
    assert_eq!(n.name_records.len(), 1);
    let r = &n.name_records[0];
    assert_eq!((r.platform, r.encoding, r.language, r.name_id, r.length), (3, 1, 0x409, 1, 4));
    assert_eq!(r.offset.link, Some(vec![0, b'A', 0, b'B']));
    assert_eq!(n.data, NameData::NameVersion0);
}

#[test]
fn name_table_version1_lang_tags() {
    let t = name_bytes(1);
    let (n, end) = name_table(&t).unwrap();
    assert_eq!(end, 24);
    match n.data {
        NameData::NameVersion1 { lang_tag_count, lang_tag_records } => {
            assert_eq!(lang_tag_count, 1);
            assert_eq!(lang_tag_records[0].offset.link, Some(b"en".to_vec()));
        }
        _ => panic!("expected version 1"),
    }
}

#[test]
fn name_table_unknown_version_and_bad_string() {
    let t = name_bytes(0);
    let mut other = t.clone();
    other[1] = 7;
    assert_eq!(name_table(&other).unwrap().0.data, NameData::NameVersionUnknown(7));
    let mut long = t.clone();
    long[14..16].copy_from_slice(&40u16.to_be_bytes());
    assert!(name_table(&long).is_none());
}
