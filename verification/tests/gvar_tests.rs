use font_codec::gvar::{
    GlyphVariationDataHeader, Gvar, SharedTuples, Tuple, TupleVariationCount,
    TupleVariationHeader,
};
use font_codec::writer::{TableWriter, ValidationCtx, Violation};

#[test]
fn shared_tuples_serialize_coordinates_in_order() {
    let tuples = SharedTuples::new(vec![Tuple { values: vec![256, -2] }]);
    let mut writer = TableWriter::new();
    tuples.write_into(&mut writer);
    assert_eq!(writer.into_data(), vec![1, 0, 255, 254]);
}

#[test]
fn gvar_layout_resolves_both_offsets() {
    let shared = SharedTuples::new(vec![Tuple { values: vec![256, -2] }]);
    let block = GlyphVariationDataHeader {
        tuple_variation_count: TupleVariationCount { bits: 1 },
        tuple_variation_headers: vec![TupleVariationHeader {
            variation_data_size: 8,
            tuple_index: 0,
        }],
    };
    let gvar = Gvar::new(2, shared, vec![block]);
    let mut writer = TableWriter::new();
    gvar.write_into(&mut writer);
    let bytes = writer.into_data();
    assert_eq!(
        bytes,
        vec![
            0, 1, 0, 0, // version 1.0
            0, 2, // axis count
            0, 1, // shared tuple count
            0, 0, 0, 28, // shared tuples offset: 20-byte header + 2 long offsets
            0, 1, // glyph count
            0, 1, // flags: long offsets
            0, 0, 0, 32, // data array offset: 28 + 4 bytes of shared tuples
            0, 0, 0, 0, // block 0 starts at the data array
            0, 0, 0, 6, // end sentinel: total data length
            1, 0, 255, 254, // shared tuple coordinates
            0, 1, // packed tuple variation count
            0, 8, 0, 0, // one tuple variation header
        ]
    );
}

#[test]
fn validate_reports_oversized_tuple_array() {
    let mut tuples: Vec<Tuple> = Vec::new();
    for _ in 0..65536 {
        tuples.push(Tuple { values: vec![] });
    }
    let gvar = Gvar::new(1, SharedTuples::new(tuples), vec![]);
    let mut ctx = ValidationCtx::new();
    gvar.validate_impl(&mut ctx);
    assert_eq!(ctx.violations().as_slice(), &[Violation::ArrayExceedsMaxLength]);
}

#[test]
fn validate_accepts_small_graph() {
    let gvar = Gvar::new(1, SharedTuples::new(vec![]), vec![]);
    let mut ctx = ValidationCtx::new();
    gvar.validate_impl(&mut ctx);
    assert!(ctx.is_empty());
}
