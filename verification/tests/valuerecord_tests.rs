use font_codec::read::{FontData, ReadError};
use font_codec::valuerecord::{
    ValueFormat, ValueRecord, X_ADVANCE, X_PLACEMENT, Y_ADVANCE_DEVICE, Y_PLACEMENT,
};

#[test]
fn record_byte_len_counts_set_flags() {
    let format = ValueFormat::new(X_PLACEMENT | X_ADVANCE);
    assert_eq!(format.record_byte_len(), 4);
    assert_eq!(ValueFormat::new(0).record_byte_len(), 0);
    assert_eq!(ValueFormat::new(0x00FF).record_byte_len(), 16);
    assert_eq!(ValueRecord::compute_size(&format), 4);
}

#[test]
fn read_decodes_fields_in_canonical_order() {
    // placement-x then advance-x, two big-endian bytes each
    let format = ValueFormat::new(X_PLACEMENT | X_ADVANCE);
    let data = FontData::new(vec![0x00, 0x05, 0xFF, 0xFE]);
    let rec = ValueRecord::read(data, format).unwrap();
    assert_eq!(rec.x_placement, Some(5));
    assert_eq!(rec.x_advance, Some(-2));
    assert_eq!(rec.y_placement, None);
    assert_eq!(rec.y_advance, None);
    assert_eq!(rec.x_placement_device, None);
    assert_eq!(rec.y_placement_device, None);
    assert_eq!(rec.x_advance_device, None);
    assert_eq!(rec.y_advance_device, None);
}

#[test]
fn read_old_matches_read() {
    let format = ValueFormat::new(Y_PLACEMENT);
    let rec = ValueRecord::read_old(&[0x80, 0x00], format).unwrap();
    assert_eq!(rec.y_placement, Some(-32768));
}

#[test]
fn read_short_buffer_is_out_of_bounds() {
    let format = ValueFormat::new(X_PLACEMENT | X_ADVANCE);
    let data = FontData::new(vec![0x00, 0x05, 0xFF]);
    assert_eq!(
        ValueRecord::read(data, format),
        Err(ReadError::OutOfBounds)
    );
}

#[test]
fn encode_then_read_round_trips() {
    let format = ValueFormat::new(X_PLACEMENT | X_ADVANCE | Y_ADVANCE_DEVICE);
    let mut rec = ValueRecord::default();
    rec.x_placement = Some(1);
    rec.x_advance = Some(-300);
    rec.y_advance_device = Some(32767);
    let bytes = rec.encode(format);
    assert_eq!(bytes.len(), 6);
    let back = ValueRecord::read(FontData::new(bytes), format).unwrap();
    assert_eq!(back, rec);
}
