use font_codec::glyf::{
    decode_point_deltas, BadKurbo, Contour, CoordDelta, PathElement, SimpleGlyf,
    ON_CURVE_POINT,
};
use font_codec::writer::TableWriter;

fn square_path() -> Vec<PathElement> {
    vec![
        PathElement::MoveTo((0, 0)),
        PathElement::LineTo((10, 0)),
        PathElement::LineTo((10, 10)),
        PathElement::LineTo((0, 10)),
        PathElement::ClosePath,
    ]
}

#[test]
fn very_simple_glyph() {
    let elements = vec![
        PathElement::MoveTo((20, -100)),
        PathElement::QuadTo((1337, 1338), (-50, -69)),
        PathElement::QuadTo((13, 255), (-255, 256)),
        PathElement::LineTo((20, -100)),
    ];
    let glyph = SimpleGlyf::from_elements(&elements, -255, -100, 1337, 1338).unwrap();
    let deltas = glyph.compute_point_deltas();
    let mut points = decode_point_deltas(&deltas);
    assert_eq!(points.len(), 5);
    // undo the reverse-and-rotate of the stored order to compare with
    // the path's own point order
    points.rotate_left(1);
    points.reverse();
    assert_eq!(points[0].x, 20);
    assert_eq!(points[1].y, 1338);
    assert!(!points[1].on_curve);
    assert_eq!(points[4].x, -255);
    assert_eq!(points[4].y, 256);
    assert!(points[4].on_curve);

    let mut writer = TableWriter::new();
    glyph.write_into(&mut writer);
    let bytes = writer.into_data();
    // one contour, its last point at index 4, no instructions
    assert_eq!(&bytes[0..2], &[0, 1]);
    assert_eq!(&bytes[10..12], &[0, 4]);
    assert_eq!(&bytes[12..14], &[0, 0]);
    // bounding box in the order x-max, y-max, x-min, y-min
    assert_eq!(&bytes[2..4], &[0x05, 0x39]); // 1337
    assert_eq!(&bytes[4..6], &[0x05, 0x3A]); // 1338
    assert_eq!(&bytes[6..8], &[0xFF, 0x01]); // -255
    assert_eq!(&bytes[8..10], &[0xFF, 0x9C]); // -100
}

#[test]
fn contour_round_trip_preserves_flags_and_coordinates() {
    let glyph = SimpleGlyf::from_elements(&square_path(), 0, 0, 10, 10).unwrap();
    let deltas = glyph.compute_point_deltas();
    let points = decode_point_deltas(&deltas);
    // stored order: first point kept first, the rest reversed
    assert_eq!(points.len(), 4);
    assert_eq!((points[0].x, points[0].y), (0, 0));
    assert_eq!((points[1].x, points[1].y), (0, 10));
    assert_eq!((points[2].x, points[2].y), (10, 10));
    assert_eq!((points[3].x, points[3].y), (10, 0));
    assert!(points.iter().all(|p| p.on_curve));
}

#[test]
fn delta_carriers_pick_the_smallest_form() {
    let elements = vec![
        PathElement::MoveTo((0, 300)),
        PathElement::LineTo((255, 300)),
        PathElement::LineTo((-1, 300)),
    ];
    let glyph = SimpleGlyf::from_elements(&elements, -1, 300, 255, 300).unwrap();
    let deltas = glyph.compute_point_deltas();
    // stored order: (0,300), (-1,300), (255,300)
    assert!(matches!(deltas[0].1, CoordDelta::Skip)); // x unchanged from origin
    assert!(matches!(deltas[0].2, CoordDelta::Long(300)));
    assert!(matches!(deltas[1].1, CoordDelta::Short(1))); // -1, sign in flags
    assert!(matches!(deltas[1].2, CoordDelta::Skip));
    assert!(matches!(deltas[2].1, CoordDelta::Long(256)));
    assert_ne!(deltas[0].0 & ON_CURVE_POINT, 0);
}

#[test]
fn path_without_move_is_rejected() {
    let elements = vec![PathElement::LineTo((1, 2))];
    assert!(matches!(
        SimpleGlyf::from_elements(&elements, 0, 0, 0, 0),
        Err(BadKurbo::MissingMove)
    ));
}

#[test]
fn cubic_segment_is_rejected() {
    let elements = vec![
        PathElement::MoveTo((0, 0)),
        PathElement::CurveTo((1, 1), (2, 2), (3, 3)),
    ];
    assert!(matches!(
        SimpleGlyf::from_elements(&elements, 0, 0, 3, 3),
        Err(BadKurbo::HasCubic)
    ));
}

#[test]
fn closed_two_point_contour_is_too_small() {
    let elements = vec![
        PathElement::MoveTo((5, 5)),
        PathElement::LineTo((5, 5)),
    ];
    assert!(matches!(
        SimpleGlyf::from_elements(&elements, 5, 5, 5, 5),
        Err(BadKurbo::TooSmall)
    ));
}

#[test]
fn contour_builder_counts_points() {
    let mut contour = Contour::new((1, 2));
    assert_eq!(contour.len(), 1);
    assert!(!contour.is_empty());
    contour.line_to((3, 4));
    contour.quad_to((5, 6), (7, 8));
    assert_eq!(contour.len(), 4);
}
