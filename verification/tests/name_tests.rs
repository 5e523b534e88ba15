use font_codec::name::{LangTagRecord, Name, NameRecord};
use font_codec::writer::{OffsetMarker, TableWriter, ValidationCtx, Violation};

fn record(platform: u16, encoding: u16, language: u16, name: u16, s: &str) -> NameRecord {
    NameRecord {
        platform_id: platform,
        encoding_id: encoding,
        language_id: language,
        name_id: name,
        string_offset: OffsetMarker::new(s.to_string()),
    }
}

#[test]
fn insert_keeps_records_ascending_by_full_key() {
    let mut name = Name::new(0, None);
    name.insert(record(1, 0, 0, 5, "five"));
    name.insert(record(1, 0, 0, 0, "zero"));
    let records = name.name_record();
    assert_eq!(records.len(), 2);
    assert_eq!(records[0].name_id, 0);
    assert_eq!(records[1].name_id, 5);
}

#[test]
fn duplicate_key_is_absorbed() {
    let mut name = Name::new(0, None);
    name.insert(record(1, 0, 0, 0, "first"));
    name.insert(record(1, 0, 0, 0, "second"));
    let records = name.name_record();
    assert_eq!(records.len(), 1);
    // the record already present stays; the later insertion is dropped
    assert_eq!(records[0].string_offset.get().as_str(), "first");
}

#[test]
fn validate_reports_missing_versioned_field() {
    let name = Name::new(1, None);
    let mut ctx = ValidationCtx::new();
    name.validate_impl(&mut ctx);
    assert!(!ctx.is_empty());
    assert_eq!(
        ctx.violations().as_slice(),
        &[Violation::MissingVersionedField(1)]
    );
}

#[test]
fn validate_accepts_version_zero_without_lang_tags() {
    let name = Name::new(0, None);
    let mut ctx = ValidationCtx::new();
    name.validate_impl(&mut ctx);
    assert!(ctx.is_empty());
}

#[test]
fn write_into_resolves_string_offsets_from_storage_start() {
    let mut name = Name::new(0, None);
    name.insert(record(1, 2, 3, 4, "AB"));
    name.insert(record(1, 2, 3, 9, "C"));
    let mut writer = TableWriter::new();
    name.write_into(&mut writer);
    let bytes = writer.into_data();
    assert_eq!(
        bytes,
        vec![
            0, 0, // version
            0, 2, // count
            0, 26, // storage offset: 6 + 10 * 2
            0, 1, 0, 2, 0, 3, 0, 4, 0, 0, // first record, string at +0
            0, 1, 0, 2, 0, 3, 0, 9, 0, 2, // second record, string at +2
            65, 66, // "AB"
            67, // "C"
        ]
    );
}

#[test]
fn write_into_appends_lang_tags_after_record_strings() {
    let mut name = Name::new(1, Some(vec![LangTagRecord {
        lang_tag_offset: OffsetMarker::new("en".to_string()),
    }]));
    name.insert(record(1, 0, 0, 0, "A"));
    let mut writer = TableWriter::new();
    name.write_into(&mut writer);
    let bytes = writer.into_data();
    assert_eq!(
        bytes,
        vec![
            0, 1, // version
            0, 1, // count
            0, 20, // storage offset: 6 + 10 + 2 + 2
            0, 1, 0, 0, 0, 0, 0, 0, 0, 0, // the record, string at +0
            0, 1, // lang tag count
            0, 1, // lang tag string after the 1-byte record string
            65, // "A"
            101, 110, // "en"
        ]
    );
}
