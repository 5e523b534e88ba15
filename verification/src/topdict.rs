//! The PostScript top dictionary: a last-wins fold of parsed dictionary
//! entries into one record of optional fields.  The byte-level entry
//! parser is a separate collaborator; this module owns what the entries
//! mean.

use vstd::prelude::*;

verus! {

/// An index into a font's string table.
#[derive(Clone, Copy, Debug, PartialEq, Eq, Structural)]
pub struct StringId {
    pub value: u16,
}

/// A 16.16 fixed-point number, held as its raw bits.
#[derive(Clone, Copy, Debug, PartialEq, Eq, Structural)]
pub struct Fixed {
    pub bits: i32,
}

/// The registry-ordering-supplement triple of a CID-keyed font.
#[derive(Clone, Copy, Debug, PartialEq)]
pub struct Ros {
    pub registry: Option<StringId>,
    pub ordering: Option<StringId>,
    pub supplement: Option<Fixed>,
}

/// One parsed top-dictionary entry.  Entries this dictionary does not
/// keep are `Other` and fold to nothing.
#[derive(Clone, Copy, Debug, PartialEq)]
pub enum Entry {
    Version(StringId),
    Notice(StringId),
    FullName(StringId),
    FamilyName(StringId),
    Weight(StringId),
    FontBbox([Fixed; 4]),
    CharstringsOffset(usize),
    PrivateDictRange((usize, usize)),
    VariationStoreOffset(usize),
    Copyright(StringId),
    IsFixedPitch(bool),
    ItalicAngle(Fixed),
    UnderlinePosition(Fixed),
    UnderlineThickness(Fixed),
    PaintType(i32),
    CharstringType(i32),
    FontMatrix([Fixed; 6]),
    StrokeWidth(Fixed),
    FdArrayOffset(usize),
    FdSelectOffset(usize),
    Ros { registry: StringId, ordering: StringId, supplement: Fixed },
    PostScript(StringId),
    BaseFontName(StringId),
    CidFontVersion(Fixed),
    CidFontRevision(Fixed),
    CidFontType(i32),
    CidCount(u32),
    UidBase(i32),
    FontName(StringId),
    Encoding(i32),
    Charset(i32),
    UniqueId(i32),
    SyntheticBase(i32),
    Other,
}

/// The assembled top dictionary.
#[derive(Clone, Debug, PartialEq)]
pub struct TopDict {
    pub version: Option<StringId>,
    pub notice: Option<StringId>,
    pub full_name: Option<StringId>,
    pub family_name: Option<StringId>,
    pub weight: Option<StringId>,
    pub font_bbox: Option<[Fixed; 4]>,
    pub charstrings_offset: Option<usize>,
    pub private_dict_range: Option<(usize, usize)>,
    pub variation_store_offset: Option<usize>,
    pub copyright: Option<StringId>,
    pub is_fixed_pitch: Option<bool>,
    pub italic_angle: Option<Fixed>,
    pub underline_position: Option<Fixed>,
    pub underline_thickness: Option<Fixed>,
    pub paint_type: Option<i32>,
    pub charstring_type: Option<i32>,
    pub font_matrix: Option<[Fixed; 6]>,
    pub stroke_width: Option<Fixed>,
    pub fd_array_offset: Option<usize>,
    pub fd_select_offset: Option<usize>,
    pub encoding: Option<i32>,
    pub charset: Option<i32>,
    pub unique_id: Option<i32>,
    pub synthetic_base: Option<i32>,
    pub post_script: Option<StringId>,
    pub base_font_name: Option<StringId>,
    pub ros: Option<Ros>,
    pub cid_font_version: Option<Fixed>,
    pub cid_font_revision: Option<Fixed>,
    pub cid_font_type: Option<i32>,
    pub cid_count: Option<u32>,
    pub uid_base: Option<i32>,
    pub font_name: Option<StringId>,
}

/// The dictionary with every field absent.
pub open spec fn spec_empty_top_dict() -> TopDict {
    TopDict {
        version: None,
        notice: None,
        full_name: None,
        family_name: None,
        weight: None,
        font_bbox: None,
        charstrings_offset: None,
        private_dict_range: None,
        variation_store_offset: None,
        copyright: None,
        is_fixed_pitch: None,
        italic_angle: None,
        underline_position: None,
        underline_thickness: None,
        paint_type: None,
        charstring_type: None,
        font_matrix: None,
        stroke_width: None,
        fd_array_offset: None,
        fd_select_offset: None,
        encoding: None,
        charset: None,
        unique_id: None,
        synthetic_base: None,
        post_script: None,
        base_font_name: None,
        ros: None,
        cid_font_version: None,
        cid_font_revision: None,
        cid_font_type: None,
        cid_count: None,
        uid_base: None,
        font_name: None,
    }
}

/// What one entry sets in the dictionary; a later entry for the same
/// field wins.
pub open spec fn spec_apply_entry(d: TopDict, e: Entry) -> TopDict {
    match e {
        Entry::Version(v) => TopDict { version: Some(v), ..d },
        Entry::Notice(v) => TopDict { notice: Some(v), ..d },
        Entry::FullName(v) => TopDict { full_name: Some(v), ..d },
        Entry::FamilyName(v) => TopDict { family_name: Some(v), ..d },
        Entry::Weight(v) => TopDict { weight: Some(v), ..d },
        Entry::FontBbox(v) => TopDict { font_bbox: Some(v), ..d },
        Entry::CharstringsOffset(v) => TopDict { charstrings_offset: Some(v), ..d },
        Entry::PrivateDictRange(v) => TopDict { private_dict_range: Some(v), ..d },
        Entry::VariationStoreOffset(v) => TopDict { variation_store_offset: Some(v), ..d },
        Entry::Copyright(v) => TopDict { copyright: Some(v), ..d },
        Entry::IsFixedPitch(v) => TopDict { is_fixed_pitch: Some(v), ..d },
        Entry::ItalicAngle(v) => TopDict { italic_angle: Some(v), ..d },
        Entry::UnderlinePosition(v) => TopDict { underline_position: Some(v), ..d },
        Entry::UnderlineThickness(v) => TopDict { underline_thickness: Some(v), ..d },
        Entry::PaintType(v) => TopDict { paint_type: Some(v), ..d },
        Entry::CharstringType(v) => TopDict { charstring_type: Some(v), ..d },
        Entry::FontMatrix(v) => TopDict { font_matrix: Some(v), ..d },
        Entry::StrokeWidth(v) => TopDict { stroke_width: Some(v), ..d },
        Entry::FdArrayOffset(v) => TopDict { fd_array_offset: Some(v), ..d },
        Entry::FdSelectOffset(v) => TopDict { fd_select_offset: Some(v), ..d },
        Entry::Ros { registry, ordering, supplement } => TopDict {
            ros: Some(
                Ros {
                    registry: Some(registry),
                    ordering: Some(ordering),
                    supplement: Some(supplement),
                },
            ),
            ..d
        },
        Entry::PostScript(v) => TopDict { post_script: Some(v), ..d },
        Entry::BaseFontName(v) => TopDict { base_font_name: Some(v), ..d },
        Entry::CidFontVersion(v) => TopDict { cid_font_version: Some(v), ..d },
        Entry::CidFontRevision(v) => TopDict { cid_font_revision: Some(v), ..d },
        Entry::CidFontType(v) => TopDict { cid_font_type: Some(v), ..d },
        Entry::CidCount(v) => TopDict { cid_count: Some(v), ..d },
        Entry::UidBase(v) => TopDict { uid_base: Some(v), ..d },
        Entry::FontName(v) => TopDict { font_name: Some(v), ..d },
        Entry::Encoding(v) => TopDict { encoding: Some(v), ..d },
        Entry::Charset(v) => TopDict { charset: Some(v), ..d },
        Entry::UniqueId(v) => TopDict { unique_id: Some(v), ..d },
        Entry::SyntheticBase(v) => TopDict { synthetic_base: Some(v), ..d },
        Entry::Other => d,
    }
}

/// The dictionary after folding the first `i` entries over the empty
/// one.
pub open spec fn spec_folded(entries: Seq<Entry>, i: int) -> TopDict
    decreases i,
{
    if i <= 0 {
        spec_empty_top_dict()
    } else {
        spec_apply_entry(spec_folded(entries, i - 1), entries[i - 1])
    }
}

impl Default for TopDict {
    /// The dictionary with every field absent.
    fn default() -> (r: TopDict)
        ensures
            r == spec_empty_top_dict(),
    {
        TopDict {
            version: None,
            notice: None,
            full_name: None,
            family_name: None,
            weight: None,
            font_bbox: None,
            charstrings_offset: None,
            private_dict_range: None,
            variation_store_offset: None,
            copyright: None,
            is_fixed_pitch: None,
            italic_angle: None,
            underline_position: None,
            underline_thickness: None,
            paint_type: None,
            charstring_type: None,
            font_matrix: None,
            stroke_width: None,
            fd_array_offset: None,
            fd_select_offset: None,
            encoding: None,
            charset: None,
            unique_id: None,
            synthetic_base: None,
            post_script: None,
            base_font_name: None,
            ros: None,
            cid_font_version: None,
            cid_font_revision: None,
            cid_font_type: None,
            cid_count: None,
            uid_base: None,
            font_name: None,
        }
    }
}

impl TopDict {
    /// Fold a stream of parsed entries into a dictionary, last entry per
    /// field winning; entries the dictionary does not keep are dropped.
    pub fn new(entries: &Vec<Entry>) -> (r: TopDict)
        ensures
            r == spec_folded(entries@, entries@.len() as int),
    {
        let mut top_dict = TopDict::default();
        let mut i: usize = 0;
        while i < entries.len()
            invariant
                i <= entries@.len(),
                top_dict == spec_folded(entries@, i as int),
            decreases entries@.len() - i,
        {
            match entries[i] {
                Entry::Version(version) => {
                    top_dict.version = Some(version);
                },
                Entry::Notice(notice) => {
                    top_dict.notice = Some(notice);
                },
                Entry::FullName(full_name) => {
                    top_dict.full_name = Some(full_name);
                },
                Entry::FamilyName(family_name) => {
                    top_dict.family_name = Some(family_name);
                },
                Entry::Weight(weight) => {
                    top_dict.weight = Some(weight);
                },
                Entry::FontBbox(bbox) => {
                    top_dict.font_bbox = Some(bbox);
                },
                Entry::CharstringsOffset(offset) => {
                    top_dict.charstrings_offset = Some(offset);
                },
                Entry::PrivateDictRange(range) => {
                    top_dict.private_dict_range = Some(range);
                },
                Entry::VariationStoreOffset(offset) => {
                    top_dict.variation_store_offset = Some(offset);
                },
                Entry::Copyright(copyright) => {
                    top_dict.copyright = Some(copyright);
                },
                Entry::IsFixedPitch(flag) => {
                    top_dict.is_fixed_pitch = Some(flag);
                },
                Entry::ItalicAngle(angle) => {
                    top_dict.italic_angle = Some(angle);
                },
                Entry::UnderlinePosition(position) => {
                    top_dict.underline_position = Some(position);
                },
                Entry::UnderlineThickness(thickness) => {
                    top_dict.underline_thickness = Some(thickness);
                },
                Entry::PaintType(paint_type) => {
                    top_dict.paint_type = Some(paint_type);
                },
                Entry::CharstringType(charstring_type) => {
                    top_dict.charstring_type = Some(charstring_type);
                },
                Entry::FontMatrix(matrix) => {
                    top_dict.font_matrix = Some(matrix);
                },
                Entry::StrokeWidth(stroke_width) => {
                    top_dict.stroke_width = Some(stroke_width);
                },
                Entry::FdArrayOffset(offset) => {
                    top_dict.fd_array_offset = Some(offset);
                },
                Entry::FdSelectOffset(offset) => {
                    top_dict.fd_select_offset = Some(offset);
                },
                Entry::Ros { registry, ordering, supplement } => {
                    top_dict.ros = Some(
                        Ros {
                            registry: Some(registry),
                            ordering: Some(ordering),
                            supplement: Some(supplement),
                        },
                    );
                },
                Entry::PostScript(script) => {
                    top_dict.post_script = Some(script);
                },
                Entry::BaseFontName(name) => {
                    top_dict.base_font_name = Some(name);
                },
                Entry::CidFontVersion(version) => {
                    top_dict.cid_font_version = Some(version);
                },
                Entry::CidFontRevision(revision) => {
                    top_dict.cid_font_revision = Some(revision);
                },
                Entry::CidFontType(font_type) => {
                    top_dict.cid_font_type = Some(font_type);
                },
                Entry::CidCount(count) => {
                    top_dict.cid_count = Some(count);
                },
                Entry::UidBase(base) => {
                    top_dict.uid_base = Some(base);
                },
                Entry::FontName(name) => {
                    top_dict.font_name = Some(name);
                },
                Entry::Encoding(encoding) => {
                    top_dict.encoding = Some(encoding);
                },
                Entry::Charset(charset) => {
                    top_dict.charset = Some(charset);
                },
                Entry::UniqueId(id) => {
                    top_dict.unique_id = Some(id);
                },
                Entry::SyntheticBase(base) => {
                    top_dict.synthetic_base = Some(base);
                },
                Entry::Other => {},
            }
            i = i + 1;
        }
        top_dict
    }
}

} // verus!
