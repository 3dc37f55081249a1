use doodle_formats::opentype::fvar::fvar_table;
use doodle_formats::opentype::values::Fixed32;

fn w16(v: &mut Vec<u8>, x: u16) {
    v.extend_from_slice(&x.to_be_bytes());
}

fn w32(v: &mut Vec<u8>, x: u32) {
    v.extend_from_slice(&x.to_be_bytes());
}

/// A table with one axis and two instances of `isize` bytes.
fn fvar_bytes(isize: u16) -> Vec<u8> {
    let mut v = Vec::new();
    for x in [1u16, 0, 16, 2, 1, 20, 2, isize] {
        w16(&mut v, x);
    }
    w32(&mut v, u32::from_be_bytes(*b"wght"));
    w32(&mut v, 0x0064_0000);
    w32(&mut v, 0x0190_0000);
    w32(&mut v, 0x0384_0000);
    w16(&mut v, 0x0001);
    w16(&mut v, 256);
    for (name, coord, ps) in [(257u16, 0x0190_0000u32, 300u16), (258, 0x02bc_0000, 301)] {
        w16(&mut v, name);
        w16(&mut v, 0);
        w32(&mut v, coord);
        if isize == 10 {
            w16(&mut v, ps);
        }
    }
    v
}

#[test]
fn fvar_axes_and_instances() {
    let t = fvar_bytes(8);
    let (f, end) = fvar_table(&t).unwrap();
    assert_eq!(end, 16);
    assert_eq!((f.axis_count, f.axis_size, f.instance_count), (1, 20, 2));
    let a = f.axes[0];
    assert_eq!(a.axis_tag, u32::from_be_bytes(*b"wght"));
    assert_eq!(a.default_value, Fixed32(0x0190_0000));
    assert!(a.hidden_axis);
    assert_eq!(a.axis_name_id, 256);
    assert_eq!(f.instances.len(), 2);
    assert_eq!(f.instances[1].subfamily_nameid, 258);
    assert_eq!(f.instances[1].coordinates, vec![Fixed32(0x02bc_0000)]);
    assert_eq!(f.instances[0].postscript_nameid, None);
}

#[test]
fn fvar_postscript_names_when_size_is_two_over_four() {
    let t = fvar_bytes(10);
    let (f, _) = fvar_table(&t).unwrap();
    assert_eq!(f.instances[0].postscript_nameid, Some(300));
    assert_eq!(f.instances[1].postscript_nameid, Some(301));
}

#[test]
fn fvar_rejects() {
    let t = fvar_bytes(8);
    assert!(fvar_table(&t[..t.len() - 1]).is_none());
    let mut bad_version = t.clone();
    bad_version[1] = 2;
    assert!(fvar_table(&bad_version).is_none());
    let mut zero_offset = t.clone();
    zero_offset[4..6].copy_from_slice(&0u16.to_be_bytes());
    assert!(fvar_table(&zero_offset).is_none());
    let mut back_offset = t.clone();
    back_offset[4..6].copy_from_slice(&8u16.to_be_bytes());
    assert!(fvar_table(&back_offset).is_none());
    let mut bad_flags = t.clone();
    bad_flags[38..40].copy_from_slice(&1u16.to_be_bytes());
    assert!(fvar_table(&bad_flags).is_none());
    let mut too_small = t.clone();
    too_small[14..16].copy_from_slice(&4u16.to_be_bytes());
    assert!(fvar_table(&too_small).is_none());
}
