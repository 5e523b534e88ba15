use font_codec::charsets::{Charsets, GlyphId};
use font_codec::read::{FontData, ReadError};

#[test]
fn format1_range_lookup() {
    // format 1, one range {first: 3, n_left: 2}, covering internal
    // indices 3..6
    let data = FontData::new(vec![1, 0, 3, 2]);
    let charsets = Charsets::read(data, 4).unwrap();
    // internal index 3 lies in the range and maps to first + (3 - 3)
    assert_eq!(charsets.sid(GlyphId::new(4)), Some(3));
    // internal index 0 always maps to SID 0
    assert_eq!(charsets.sid(GlyphId::new(1)), Some(0));
    // internal index 1 lies before the range
    assert_eq!(charsets.sid(GlyphId::new(2)), None);
}

#[test]
fn format1_glyph_order_expands_ranges() {
    let data = FontData::new(vec![1, 0, 3, 2]);
    let charsets = Charsets::read(data, 4).unwrap();
    let order = charsets.glyph_order();
    // length is 1 + sum of (n_left + 1), element 0 is the implicit SID 0
    assert_eq!(order, vec![0, 3, 4, 5]);
}

#[test]
fn format0_explicit_array() {
    let data = FontData::new(vec![0, 0, 10, 0, 11]);
    let charsets = Charsets::read(data, 3).unwrap();
    assert_eq!(charsets.sid(GlyphId::new(1)), Some(0));
    assert_eq!(charsets.sid(GlyphId::new(2)), Some(11));
    assert_eq!(charsets.sid(GlyphId::new(5)), None);
    assert_eq!(charsets.glyph_order(), vec![0, 10, 11]);
}

#[test]
fn format2_wide_ranges() {
    let data = FontData::new(vec![2, 0, 3, 0, 2]);
    let charsets = Charsets::read(data, 4).unwrap();
    assert_eq!(charsets.sid(GlyphId::new(4)), Some(3));
    assert_eq!(charsets.glyph_order(), vec![0, 3, 4, 5]);
}

#[test]
fn unknown_format_is_rejected_with_raw_tag() {
    let data = FontData::new(vec![7, 0, 0]);
    assert!(matches!(
        Charsets::read(data, 2),
        Err(ReadError::InvalidFormat(7))
    ));
}

#[test]
fn empty_buffer_is_out_of_bounds() {
    let data = FontData::new(vec![]);
    assert!(matches!(
        Charsets::read(data, 2),
        Err(ReadError::OutOfBounds)
    ));
}

#[test]
fn truncated_range_walk_is_out_of_bounds() {
    // the walk needs another range to reach 4 glyphs but the bytes end
    let data = FontData::new(vec![1, 0, 3]);
    assert!(matches!(
        Charsets::read(data, 4),
        Err(ReadError::OutOfBounds)
    ));
}
