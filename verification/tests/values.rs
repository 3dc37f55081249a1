use doodle_formats::bytes::{as_i16, as_i64, as_i8, magic};
use doodle_formats::opentype::values::{
    expect_u16be, expects_u16be, f2dot14, fixed32be, hi_flag_u15be, last_elem, opentype_tag,
    pos_add_u16, s16be, s32be, s64be, s8, scale2, subheader_index, u16be, u16be_between, u24be,
    u32be, u8_to_i16, version16_16, F2Dot14, Fixed32,
};

#[test]
fn magic_spells_tags_big_endian() {
    assert_eq!(magic(b"head"), 0x6865_6164);
    assert_eq!(magic(b"OTTO"), 0x4f54_544f);
    assert_eq!(magic(b"ttcf"), 0x7474_6366);
}

#[test]
fn magic_matches_reading_the_tag() {
    let bytes = b"xxglyf";
    assert_eq!(opentype_tag(bytes, 2), Some((magic(b"glyf"), 6)));
}

#[test]
fn signed_readings_are_twos_complement() {
    assert_eq!(as_i8(0xff), -1);
    assert_eq!(as_i8(0x7f), 127);
    assert_eq!(as_i16(0x8000), -32768);
    assert_eq!(as_i16(0xfffe), -2);
    assert_eq!(as_i64(u64::MAX), -1);
}

#[test]
fn u8_to_i16_positive_keeps_magnitude() {
    assert_eq!(u8_to_i16(5, true), 5);
    assert_eq!(u8_to_i16(255, true), 255);
}

#[test]
fn u8_to_i16_negative_is_twos_complement() {
    assert_eq!(u8_to_i16(5, false), 0xfffb);
    assert_eq!(u8_to_i16(5, false) as i16, -5);
    assert_eq!(u8_to_i16(0, false), 0);
    assert_eq!(u8_to_i16(255, false) as i16, -255);
}

#[test]
fn scale2_doubles() {
    assert_eq!(scale2(0), 0);
    assert_eq!(scale2(0x8000), 0x10000);
    assert_eq!(scale2(u16::MAX), 0x1fffe);
}

#[test]
fn pos_add_u16_adds_or_overflows() {
    assert_eq!(pos_add_u16(10, 6), Some(16));
    assert_eq!(pos_add_u16(u32::MAX - 1, 1), Some(u32::MAX));
    assert_eq!(pos_add_u16(u32::MAX, 1), None);
}

#[test]
fn subheader_index_is_largest_key_over_eight() {
    assert_eq!(subheader_index(&[0, 8, 16, 7]), Some(2));
    assert_eq!(subheader_index(&[7]), Some(0));
    assert_eq!(subheader_index(&[0xffff, 0]), Some(0x1fff));
    assert_eq!(subheader_index(&[]), None);
}

#[test]
fn last_elem_gives_final_element() {
    assert_eq!(last_elem(&[3, 9, 4]), 4);
    assert_eq!(last_elem(&[42]), 42);
}

#[test]
fn hi_flag_u15be_splits_high_bit() {
    assert_eq!(hi_flag_u15be(0x8005), (true, 5));
    assert_eq!(hi_flag_u15be(0x7fff), (false, 0x7fff));
    let (flag, low) = hi_flag_u15be(0x9234);
    assert_eq!((if flag { 0x8000 } else { 0 }) + low, 0x9234);
}

#[test]
fn readers_fail_at_end_of_input() {
    let bytes = [0x12, 0x34, 0x56];
    assert_eq!(u16be(&bytes, 0), Some((0x1234, 2)));
    assert_eq!(u16be(&bytes, 2), None);
    assert_eq!(u32be(&bytes, 0), None);
    assert_eq!(u16be(&bytes, 10), None);
}

#[test]
fn fixed_point_readers_keep_raw_value() {
    let bytes = [0x00, 0x01, 0x80, 0x00];
    assert_eq!(fixed32be(&bytes, 0), Some((Fixed32(0x0001_8000), 4)));
    assert_eq!(f2dot14(&bytes, 2), Some((F2Dot14(0x8000), 4)));
    assert_eq!(fixed32be(&bytes, 1), None);
    assert_eq!(version16_16(&bytes, 0), Some((0x0001_8000, 4)));
}

#[test]
fn signed_field_readers() {
    let bytes = [0xff, 0xfe, 0xff, 0xff, 0xff, 0xff, 0xff, 0xff];
    assert_eq!(s8(&bytes, 0), Some((-1, 1)));
    assert_eq!(s16be(&bytes, 0), Some((-2, 2)));
    assert_eq!(s32be(&bytes, 0), Some((-65537, 4)));
    assert_eq!(s64be(&bytes, 0), Some((-(1i64 << 48) - 1, 8)));
    assert_eq!(s64be(&bytes, 1), None);
    assert_eq!(s8(&bytes, 8), None);
}

#[test]
fn u24be_reads_three_bytes() {
    let bytes = [0x01, 0x02, 0x03, 0x04];
    assert_eq!(u24be(&bytes, 0), Some((0x010203, 3)));
    assert_eq!(u24be(&bytes, 1), Some((0x020304, 4)));
    assert_eq!(u24be(&bytes, 2), None);
}

#[test]
fn expect_u16be_checks_value() {
    let bytes = [0x00, 0x01, 0x10, 0x00];
    assert_eq!(expect_u16be(&bytes, 0, 1), Some((1, 2)));
    assert_eq!(expect_u16be(&bytes, 0, 2), None);
    assert_eq!(expect_u16be(&bytes, 4, 0), None);
}

#[test]
fn expects_u16be_checks_membership() {
    let bytes = [0x00, 0x01, 0x10, 0x00];
    assert_eq!(expects_u16be(&bytes, 2, &[0x0000, 0x1000]), Some((0x1000, 4)));
    assert_eq!(expects_u16be(&bytes, 0, &[0x0000, 0x1000]), None);
    assert_eq!(expects_u16be(&bytes, 0, &[]), None);
}

#[test]
fn u16be_between_checks_bounds() {
    let bytes = [0x00, 0x04, 0x00, 0x05];
    assert_eq!(u16be_between(&bytes, 0, 1, 4), Some((4, 2)));
    assert_eq!(u16be_between(&bytes, 2, 1, 4), None);
}
