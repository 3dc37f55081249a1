use doodle_formats::opentype::gvar::{gvar_table, packed_deltas, packed_points, RunDeltas, RunPoints};
use doodle_formats::opentype::values::F2Dot14;

#[test]
fn packed_point_numbers() {
    let t = [0x80, 0x03, 0x82, 0, 1, 0, 2, 0, 3];
    let (p, end) = packed_points(&t, 0).unwrap();
    assert_eq!(end, 9);
    assert_eq!(p.point_count, 3);
    assert_eq!(p.runs.len(), 1);
    assert!(p.runs[0].points_are_words);
    assert_eq!(p.runs[0].points, RunPoints::Points16(vec![1, 2, 3]));
    let (none, e0) = packed_points(&[0], 0).unwrap();
    assert_eq!((none.point_count, none.runs.len(), e0), (0, 0, 1));
    // Two byte runs of one point each cover two points.
    let (two, e2) = packed_points(&[2, 0, 5, 0, 9], 0).unwrap();
    assert_eq!(e2, 5);
    assert_eq!(two.runs[1].points, RunPoints::Points8(vec![9]));
    assert!(packed_points(&[3, 0, 5], 0).is_none());
}

#[test]
fn packed_delta_runs() {
    let (runs, end) = packed_deltas(&[0x81, 0x40, 0x00, 0x05], 0, 3).unwrap();
    assert_eq!(end, 4);
    assert_eq!(runs[0].deltas, RunDeltas::Delta0(2));
    assert!(runs[1].deltas_are_words);
    assert_eq!(runs[1].deltas, RunDeltas::Delta16(vec![5]));
    let (none, e) = packed_deltas(&[0x81], 0, 0).unwrap();
    assert_eq!((none.len(), e), (0, 0));
    assert!(packed_deltas(&[0x02, 1, 2], 0, 3).is_none());
}

fn gvar_bytes() -> Vec<u8> {
    let mut t: Vec<u8> = [1u16, 0, 1, 1, 0, 24, 1, 0, 0, 26, 0, 9]
        .iter()
        .flat_map(|w| w.to_be_bytes())
        .collect();
    t.extend_from_slice(&0x4000u16.to_be_bytes());
    for w in [0x8001u16, 8, 5, 0] {
        t.extend_from_slice(&w.to_be_bytes());
    }
    t.extend_from_slice(&[2, 0x01, 0, 3]);
    t.extend_from_slice(&[0x03, 10, 0xf6, 0, 1]);
    t.push(0);
    assert_eq!(t.len(), 44);
    t
}

#[test]
fn gvar_glyph_data() {
    let (g, end) = gvar_table(&gvar_bytes()).unwrap();
    assert_eq!(end, 24);
    assert_eq!((g.axis_count, g.shared_tuple_count, g.glyph_count), (1, 1, 1));
    assert!(!g.is_long_offset);
    let st = g.shared_tuples_offset.link.unwrap();
    assert_eq!(st.tuples[0].coordinates, vec![F2Dot14(0x4000)]);
    assert_eq!(g.glyph_variation_data_array.len(), 1);
    let d = g.glyph_variation_data_array[0].as_ref().unwrap();
    assert!(d.shared_point_numbers);
    assert_eq!((d.tuple_count, d.data_offset), (1, 8));
    assert_eq!(d.tuple_variation_headers[0].variation_data_size, 5);
    let sp = d.data.shared_point_numbers.as_ref().unwrap();
    assert_eq!(sp.point_count, 2);
    assert_eq!(sp.runs[0].points, RunPoints::Points8(vec![0, 3]));
    let td = &d.data.per_tuple_variation_data[0];
    assert!(td.private_point_numbers.is_none());
    assert_eq!(td.x_and_y_coordinate_deltas[0].deltas, RunDeltas::Delta8(vec![10, -10, 0, 1]));
}

#[test]
fn gvar_rejects() {
    // Without shared or private point numbers the deltas have no count.
    let mut t = gvar_bytes();
    t[26..28].copy_from_slice(&0x0001u16.to_be_bytes());
    assert!(gvar_table(&t).is_none());
    // A data offset into the headers fails.
    let mut t = gvar_bytes();
    t[28..30].copy_from_slice(&4u16.to_be_bytes());
    assert!(gvar_table(&t).is_none());
    // The data array may not start inside the offsets.
    let mut t = gvar_bytes();
    t[18..20].copy_from_slice(&22u16.to_be_bytes());
    assert!(gvar_table(&t).is_none());
    // An empty range has no data.
    let mut t = gvar_bytes();
    t[22..24].copy_from_slice(&0u16.to_be_bytes());
    let (g, _) = gvar_table(&t).unwrap();
    assert!(g.glyph_variation_data_array[0].is_none());
    assert!(gvar_table(&gvar_bytes()[..19]).is_none());
}

#[test]
fn runs_stop_once_the_count_is_reached() {
    // A run of two points covers a count of two: the bytes after it are not read.
    let (p, end) = packed_points(&[2, 0x01, 5, 9, 0x00, 7], 0).unwrap();
    assert_eq!(end, 4);
    assert_eq!(p.runs.len(), 1);
    assert_eq!(p.runs[0].point_run_count, 1);
    assert_eq!(p.runs[0].points, RunPoints::Points8(vec![5, 9]));
    // A run may pass the count; the runs still end there.
    let (q, e) = packed_points(&[1, 0x02, 4, 5, 6, 0x00], 0).unwrap();
    assert_eq!((q.runs.len(), e), (1, 5));
    // Two one-delta zero runs reach a total of two.
    let (runs, e2) = packed_deltas(&[0x80, 0x80, 0x01, 3, 4], 0, 2).unwrap();
    assert_eq!((runs.len(), e2), (2, 2));
    assert_eq!(runs[1].deltas, RunDeltas::Delta0(1));
}
