use doodle_formats::gzip::{asciiz, fextra, gzip_footer, gzip_header, gzip_member, gzip_members, member_head, GzipFooter};

fn header_with_flags(flags: u8) -> Vec<u8> {
    vec![0x1f, 0x8b, 0x08, flags, 0x78, 0x56, 0x34, 0x12, 0x00, 0x03]
}

#[test]
fn gzip_header_fields() {
    let bytes = header_with_flags(0x01);
    let (h, end) = gzip_header(&bytes, 0).unwrap();
    assert_eq!(end, 10);
    assert_eq!(h.method, 8);
    assert_eq!(h.timestamp, 0x1234_5678);
    assert_eq!(h.compression_flags, 0);
    assert_eq!(h.os_id, 3);
    assert!(h.file_flags.ftext);
    assert!(!h.file_flags.fname && !h.file_flags.fextra && !h.file_flags.fcomment);
}

#[test]
fn gzip_header_refuses_reserved_flags() {
    assert!(gzip_header(&header_with_flags(0x20), 0).is_none());
    assert!(gzip_header(&header_with_flags(0x80), 0).is_none());
    assert!(member_head(&header_with_flags(0x40), 0).is_none());
}

#[test]
fn gzip_header_refuses_bad_magic() {
    let mut bytes = header_with_flags(0);
    bytes[1] = 0x8c;
    assert!(gzip_header(&bytes, 0).is_none());
    assert!(gzip_header(&bytes[..9], 0).is_none());
}

#[test]
fn member_head_with_file_name() {
    let mut bytes = header_with_flags(0x08);
    bytes.extend_from_slice(b"a.txt\0");
    bytes.extend_from_slice(&[0xaa, 0xbb]);
    let (m, data) = member_head(&bytes, 0).unwrap();
    assert_eq!(data, 16);
    assert_eq!(m.fname, Some(b"a.txt".to_vec()));
    assert!(m.fextra.is_none() && m.fcomment.is_none() && m.fhcrc.is_none());
}

#[test]
fn member_head_with_every_optional_field() {
    let mut bytes = header_with_flags(0x04 | 0x08 | 0x10 | 0x02);
    bytes.extend_from_slice(&[0x06, 0x00, b'A', b'B', 0x02, 0x00, 0x01, 0x02]);
    bytes.extend_from_slice(b"n\0");
    bytes.extend_from_slice(b"hi\0");
    bytes.extend_from_slice(&[0x12, 0x34]);
    let (m, data) = member_head(&bytes, 0).unwrap();
    assert_eq!(data, bytes.len());
    let fx = m.fextra.unwrap();
    assert_eq!(fx.xlen, 6);
    assert_eq!(fx.subfields.len(), 1);
    assert_eq!(fx.subfields[0].si1, b'A');
    assert_eq!(fx.subfields[0].si2, b'B');
    assert_eq!(fx.subfields[0].len, 2);
    assert_eq!(fx.subfields[0].data, vec![1, 2]);
    assert_eq!(m.fname, Some(b"n".to_vec()));
    assert_eq!(m.fcomment, Some(b"hi".to_vec()));
    assert_eq!(m.fhcrc, Some(0x3412));
}

#[test]
fn fextra_subfields_must_fill_length() {
    // The subfield claims three data bytes but only two fit within xlen.
    let bad = [0x06, 0x00, b'A', b'B', 0x03, 0x00, 0x01, 0x02, 0x03];
    assert!(fextra(&bad, 0).is_none());
    // An empty extra field has no subfields.
    let empty = [0x00, 0x00];
    let (f, end) = fextra(&empty, 0).unwrap();
    assert_eq!((f.xlen, f.subfields.len(), end), (0, 0, 2));
    // Two subfields back to back.
    let two = [0x09, 0x00, b'a', b'b', 0x01, 0x00, 0x07, b'c', b'd', 0x00, 0x00];
    let (f, end) = fextra(&two, 0).unwrap();
    assert_eq!(end, 11);
    assert_eq!(f.subfields.len(), 2);
    assert_eq!(f.subfields[1].data.len(), 0);
    // A non-ASCII identifier is refused.
    let high = [0x04, 0x00, 0x80, b'b', 0x00, 0x00];
    assert!(fextra(&high, 0).is_none());
    // An xlen beyond the input is refused.
    assert!(fextra(&[0x10, 0x00, 0x00], 0).is_none());
}

#[test]
fn asciiz_needs_terminator() {
    assert_eq!(asciiz(b"abc\0def", 0), Some((b"abc".to_vec(), 4)));
    assert_eq!(asciiz(b"abc\0def", 3), Some((Vec::new(), 4)));
    assert_eq!(asciiz(b"abc", 0), None);
}

#[test]
fn gzip_footer_reads_crc_and_length() {
    let bytes = [0x01, 0x02, 0x03, 0x04, 0x05, 0x00, 0x00, 0x00];
    assert_eq!(
        gzip_footer(&bytes, 0),
        Some((GzipFooter { crc: 0x0403_0201, length: 5 }, 8))
    );
    assert_eq!(gzip_footer(&bytes, 1), None);
}

#[test]
fn member_head_missing_name_terminator_fails() {
    let mut bytes = header_with_flags(0x08);
    bytes.extend_from_slice(b"unterminated");
    assert!(member_head(&bytes, 0).is_none());
}

#[test]
fn whole_member_with_measured_data() {
    let mut bytes = header_with_flags(0x08);
    bytes.extend_from_slice(b"f\0");
    bytes.extend_from_slice(&[0x03, 0x00]);
    bytes.extend_from_slice(&[0x00, 0x00, 0x00, 0x00, 0x00, 0x00, 0x00, 0x00]);
    let (m, end) = gzip_member(&bytes, 0, 2).unwrap();
    assert_eq!(end, 22);
    assert_eq!(m.head.fname, Some(b"f".to_vec()));
    assert_eq!(m.data, vec![0x03, 0x00]);
    assert_eq!(m.footer, GzipFooter { crc: 0, length: 0 });
    // Data measured too long leaves no room for the footer.
    assert!(gzip_member(&bytes, 0, 3).is_none());
    assert!(gzip_member(&bytes, 0, 20).is_none());
}

#[test]
fn members_back_to_back() {
    let mut bytes = header_with_flags(0x00);
    bytes.extend_from_slice(&[0x03, 0x00]);
    bytes.extend_from_slice(&[1, 0, 0, 0, 0, 0, 0, 0]);
    bytes.extend_from_slice(&header_with_flags(0x00));
    bytes.extend_from_slice(&[0x01, 0x02, 0x03]);
    bytes.extend_from_slice(&[2, 0, 0, 0, 5, 0, 0, 0]);
    let (ms, end) = gzip_members(&bytes, &[2, 3]).unwrap();
    assert_eq!(end, 41);
    assert_eq!(ms.len(), 2);
    assert_eq!(ms[0].footer.crc, 1);
    assert_eq!(ms[1].data, vec![1, 2, 3]);
    assert_eq!(ms[1].footer, GzipFooter { crc: 2, length: 5 });
    let (one, e1) = gzip_members(&bytes, &[2]).unwrap();
    assert_eq!((one.len(), e1), (1, 20));
    // At least one member; wrong lengths fail.
    assert!(gzip_members(&bytes, &[]).is_none());
    assert!(gzip_members(&bytes, &[2, 4]).is_none());
}
