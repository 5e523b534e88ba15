use font_codec::hmtx::{n_glyphs_less_n_metrics, Hmtx};
use font_codec::read::FontData;

#[test]
fn metrics_then_trailing_bearings() {
    // metrics_count = 2, glyph_count = 5: two paired records, then
    // three bearing-only values
    let data = FontData::new(vec![
        0, 100, 0, 10, // advance 100, lsb 10
        0, 200, 255, 246, // advance 200, lsb -10
        0, 1, 0, 2, 0, 3, // three trailing bearings
    ]);
    let (hmtx, consumed) = Hmtx::read_with_args(&data, (2, 5)).unwrap();
    assert_eq!(consumed, 14);
    assert_eq!(hmtx.h_metrics().len(), 2);
    assert_eq!(hmtx.left_side_bearings().len(), 3);
    assert_eq!(hmtx.h_metrics()[0].advance_width(), 100);
    assert_eq!(hmtx.h_metrics()[0].lsb(), 10);
    assert_eq!(hmtx.h_metrics()[1].lsb(), -10);
    assert_eq!(hmtx.left_side_bearings()[2], 3);
}

#[test]
fn glyph_count_below_metrics_count_never_underflows() {
    assert_eq!(n_glyphs_less_n_metrics(1, 5), 0);
    let data = FontData::new(vec![0; 20]);
    let (hmtx, consumed) = Hmtx::read_with_args(&data, (5, 1)).unwrap();
    assert_eq!(hmtx.h_metrics().len(), 5);
    assert_eq!(hmtx.left_side_bearings().len(), 0);
    assert_eq!(consumed, 20);
}

#[test]
fn short_buffer_yields_nothing() {
    let data = FontData::new(vec![0; 13]);
    assert!(Hmtx::read_with_args(&data, (2, 5)).is_none());
}
