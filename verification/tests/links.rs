use doodle_formats::opentype::links::{
    link_forward_checked, link_forward_unchecked, linked_offset32, offset16_mandatory,
    offset16_nullable, offset32,
};

#[test]
fn link_forward_checked_only_forward() {
    assert_eq!(link_forward_checked(10, 4), Some(10));
    assert_eq!(link_forward_checked(4, 4), Some(4));
    assert_eq!(link_forward_checked(3, 4), None);
}

#[test]
fn link_forward_unchecked_fails_backward() {
    assert_eq!(link_forward_unchecked(10, 4), Some(10));
    assert_eq!(link_forward_unchecked(3, 4), None);
}

#[test]
fn offset16_zero_has_no_link() {
    let bytes = [0x00, 0x00, 0xaa, 0xbb];
    assert_eq!(offset16_nullable(&bytes, 0, 0), Some((0, None, 2)));
    assert_eq!(offset16_mandatory(&bytes, 0, 0), Some((0, None, 2)));
}

#[test]
fn offset16_forward_links_relative_to_base() {
    let bytes = [0x00, 0x03, 0xaa, 0xbb];
    assert_eq!(offset16_nullable(&bytes, 0, 0), Some((3, Some(3), 2)));
    // Relative to base 1, the target 4 lies after the field.
    assert_eq!(offset16_mandatory(&bytes, 1, 0), Some((3, Some(4), 2)));
    // A target right at the end of the field is no link.
    let at_end = [0x00, 0x02, 0xaa];
    assert_eq!(offset16_nullable(&at_end, 0, 0), Some((2, None, 2)));
}

#[test]
fn offset16_backward_has_no_link() {
    let bytes = [0xaa, 0xbb, 0x00, 0x01, 0xcc];
    // Target 0 + 1 = 1 lies before the end of the field (4).
    assert_eq!(offset16_nullable(&bytes, 0, 2), Some((1, None, 4)));
}

#[test]
fn offset16_beyond_input_fails() {
    let bytes = [0x00, 0x09, 0x00];
    assert_eq!(offset16_nullable(&bytes, 0, 0), None);
    assert_eq!(offset16_nullable(&bytes, 0, 2), None);
}

#[test]
fn offset32_links_or_fails() {
    let bytes = [0x00, 0x00, 0x00, 0x05, 0x00, 0x00, 0x00, 0x00];
    assert_eq!(offset32(&bytes, 0, 0), Some((5, Some(5), 4)));
    assert_eq!(offset32(&bytes, 0, 4), Some((0, None, 8)));
    // A non-zero offset that points backward, or right at the end of the
    // field, has no link.
    let back = [0xaa, 0xaa, 0x00, 0x00, 0x00, 0x01];
    assert_eq!(offset32(&back, 0, 2), Some((1, None, 6)));
    let at_end = [0x00, 0x00, 0x00, 0x04, 0xaa];
    assert_eq!(offset32(&at_end, 0, 0), Some((4, None, 4)));
    // A non-zero offset beyond the input fails.
    let far = [0x00, 0x00, 0x01, 0x00];
    assert_eq!(offset32(&far, 0, 0), None);
}

#[test]
fn linked_offset32_resolves_within_bounds() {
    assert_eq!(linked_offset32(10, 5, 12, 20), Some(15));
    assert_eq!(linked_offset32(10, 1, 12, 20), None);
    assert_eq!(linked_offset32(10, 11, 12, 20), None);
    assert_eq!(linked_offset32(10, 10, 12, 20), Some(20));
}
