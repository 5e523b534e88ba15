//! The bitmask-optional-field record used by glyph positioning: a
//! configuration bitmask of eight flags selects which two-byte signed
//! sub-fields are physically present, in one canonical order.

use vstd::prelude::*;

use crate::read::{
    be_bytes_of_i16, be_u16, i16_of_u16, Cursor, FontData, ReadError,
};

verus! {

/// Flag selecting the horizontal placement field.
pub const X_PLACEMENT: u16 = 0x0001;

/// Flag selecting the vertical placement field.
pub const Y_PLACEMENT: u16 = 0x0002;

/// Flag selecting the horizontal advance field.
pub const X_ADVANCE: u16 = 0x0004;

/// Flag selecting the vertical advance field.
pub const Y_ADVANCE: u16 = 0x0008;

/// Flag selecting the horizontal placement device offset field.
pub const X_PLACEMENT_DEVICE: u16 = 0x0010;

/// Flag selecting the vertical placement device offset field.
pub const Y_PLACEMENT_DEVICE: u16 = 0x0020;

/// Flag selecting the horizontal advance device offset field.
pub const X_ADVANCE_DEVICE: u16 = 0x0040;

/// Flag selecting the vertical advance device offset field.
pub const Y_ADVANCE_DEVICE: u16 = 0x0080;

/// The flag of the field at position `k` in the canonical order.
pub open spec fn flag_at(k: int) -> u16 {
    if k == 0 {
        X_PLACEMENT
    } else if k == 1 {
        Y_PLACEMENT
    } else if k == 2 {
        X_ADVANCE
    } else if k == 3 {
        Y_ADVANCE
    } else if k == 4 {
        X_PLACEMENT_DEVICE
    } else if k == 5 {
        Y_PLACEMENT_DEVICE
    } else if k == 6 {
        X_ADVANCE_DEVICE
    } else {
        Y_ADVANCE_DEVICE
    }
}

/// 1 if the condition holds, else 0.
pub open spec fn bit1(b: bool) -> int {
    if b {
        1
    } else {
        0
    }
}

/// How many of the first `k` fields of the canonical order `bits` selects.
/// `nset(bits, 8)` is the total number of present fields.
pub open spec fn nset(bits: u16, k: int) -> int {
    bit1(k > 0 && bits & X_PLACEMENT != 0) + bit1(k > 1 && bits & Y_PLACEMENT != 0) + bit1(
        k > 2 && bits & X_ADVANCE != 0,
    ) + bit1(k > 3 && bits & Y_ADVANCE != 0) + bit1(k > 4 && bits & X_PLACEMENT_DEVICE != 0)
        + bit1(k > 5 && bits & Y_PLACEMENT_DEVICE != 0) + bit1(k > 6 && bits & X_ADVANCE_DEVICE != 0)
        + bit1(k > 7 && bits & Y_ADVANCE_DEVICE != 0)
}

/// The configuration bitmask of a `ValueRecord`; unknown bits are dropped
/// at construction, so only the eight defined flags are ever set.
#[derive(Clone, Copy, Debug, PartialEq, Eq, Structural)]
pub struct ValueFormat {
    bits: u16,
}

impl ValueFormat {
    /// The raw bit value, as a spec-level projection.
    pub closed spec fn spec_bits(&self) -> u16 {
        self.bits
    }

    /// Build a format from raw bits, dropping undefined bits.
    pub fn new(bits: u16) -> (r: ValueFormat)
        ensures
            r.spec_bits() == bits & 0x00ff,
    {
        ValueFormat { bits: bits & 0x00ff }
    }

    /// The raw bit value.
    pub fn bits(&self) -> (r: u16)
        ensures
            r == self.spec_bits(),
    {
        self.bits
    }

    /// Whether the given flag is set.
    pub fn contains(&self, flag: u16) -> (r: bool)
        ensures
            r == (self.spec_bits() & flag != 0),
    {
        self.bits & flag != 0
    }

    /// The number of bytes required to store a [`ValueRecord`] in this
    /// format: two for each selected field.
    pub fn record_byte_len(&self) -> (r: usize)
        ensures
            r == 2 * nset(self.spec_bits(), 8),
    {
        let mut n: usize = 0;
        if self.bits & X_PLACEMENT != 0 {
            n = n + 2;
        }
        if self.bits & Y_PLACEMENT != 0 {
            n = n + 2;
        }
        if self.bits & X_ADVANCE != 0 {
            n = n + 2;
        }
        if self.bits & Y_ADVANCE != 0 {
            n = n + 2;
        }
        if self.bits & X_PLACEMENT_DEVICE != 0 {
            n = n + 2;
        }
        if self.bits & Y_PLACEMENT_DEVICE != 0 {
            n = n + 2;
        }
        if self.bits & X_ADVANCE_DEVICE != 0 {
            n = n + 2;
        }
        if self.bits & Y_ADVANCE_DEVICE != 0 {
            n = n + 2;
        }
        n
    }
}

/// A positioning adjustment record whose shape is configuration-dependent:
/// each field is present exactly when the corresponding format flag is set.
#[derive(Clone, Debug, PartialEq, Eq)]
pub struct ValueRecord {
    pub x_placement: Option<i16>,
    pub y_placement: Option<i16>,
    pub x_advance: Option<i16>,
    pub y_advance: Option<i16>,
    pub x_placement_device: Option<i16>,
    pub y_placement_device: Option<i16>,
    pub x_advance_device: Option<i16>,
    pub y_advance_device: Option<i16>,
}

/// The record with every field absent.
pub open spec fn spec_empty_record() -> ValueRecord {
    ValueRecord {
        x_placement: None,
        y_placement: None,
        x_advance: None,
        y_advance: None,
        x_placement_device: None,
        y_placement_device: None,
        x_advance_device: None,
        y_advance_device: None,
    }
}

impl Default for ValueRecord {
    /// The record with every field absent.
    fn default() -> (r: Self)
        ensures
            r == spec_empty_record(),
    {
        ValueRecord {
            x_placement: None,
            y_placement: None,
            x_advance: None,
            y_advance: None,
            x_placement_device: None,
            y_placement_device: None,
            x_advance_device: None,
            y_advance_device: None,
        }
    }
}

/// The field of `rec` at position `k` in the canonical order.
pub open spec fn field_at(rec: ValueRecord, k: int) -> Option<i16> {
    if k == 0 {
        rec.x_placement
    } else if k == 1 {
        rec.y_placement
    } else if k == 2 {
        rec.x_advance
    } else if k == 3 {
        rec.y_advance
    } else if k == 4 {
        rec.x_placement_device
    } else if k == 5 {
        rec.y_placement_device
    } else if k == 6 {
        rec.x_advance_device
    } else {
        rec.y_advance_device
    }
}

/// A record matches a format when each field is present exactly when its
/// flag is set.
pub open spec fn record_matches_format(rec: ValueRecord, bits: u16) -> bool {
    forall|k: int| 0 <= k < 8 ==> (#[trigger] field_at(rec, k)).is_some() == (bits & flag_at(k)
        != 0)
}

/// The decoded value of the field at position `k`: when its flag is set it
/// occupies the two bytes after the `nset(bits, k)` fields before it.
pub open spec fn spec_field(data: Seq<u8>, bits: u16, k: int) -> Option<i16> {
    if bits & flag_at(k) != 0 {
        Some(i16_of_u16(be_u16(data[2 * nset(bits, k)], data[2 * nset(bits, k) + 1])))
    } else {
        None
    }
}

/// The record decoded from the start of `data` under format `bits`.
pub open spec fn spec_read_record(data: Seq<u8>, bits: u16) -> ValueRecord {
    ValueRecord {
        x_placement: spec_field(data, bits, 0),
        y_placement: spec_field(data, bits, 1),
        x_advance: spec_field(data, bits, 2),
        y_advance: spec_field(data, bits, 3),
        x_placement_device: spec_field(data, bits, 4),
        y_placement_device: spec_field(data, bits, 5),
        x_advance_device: spec_field(data, bits, 6),
        y_advance_device: spec_field(data, bits, 7),
    }
}

/// The bytes of an optional field: two big-endian bytes when present,
/// nothing when absent.
pub open spec fn opt_field_bytes(f: Option<i16>) -> Seq<u8> {
    match f {
        Some(v) => be_bytes_of_i16(v),
        None => Seq::empty(),
    }
}

/// The canonical byte image of a record: the present fields' big-endian
/// bytes, concatenated in the fixed field order.
pub open spec fn record_bytes(rec: ValueRecord) -> Seq<u8> {
    opt_field_bytes(rec.x_placement) + opt_field_bytes(rec.y_placement) + opt_field_bytes(
        rec.x_advance,
    ) + opt_field_bytes(rec.y_advance) + opt_field_bytes(rec.x_placement_device) + opt_field_bytes(
        rec.y_placement_device,
    ) + opt_field_bytes(rec.x_advance_device) + opt_field_bytes(rec.y_advance_device)
}

impl ValueRecord {
    /// Decode a record from a borrowed byte slice; see [`ValueRecord::read`].
    pub fn read_old(data: &[u8], format: ValueFormat) -> (r: Result<ValueRecord, ReadError>)
        ensures
            data@.len() >= 2 * nset(format.spec_bits(), 8) ==> r == Ok::<ValueRecord, ReadError>(
                spec_read_record(data@, format.spec_bits()),
            ),
            data@.len() < 2 * nset(format.spec_bits(), 8) ==> r == Err::<ValueRecord, ReadError>(
                ReadError::OutOfBounds,
            ),
    {
        let data = FontData::new(vstd::slice::slice_to_vec(data));
        Self::read(data, format)
    }

    /// Decode a record: walk the canonical field order once, consuming two
    /// bytes for each flag that is set.  Fails with `OutOfBounds` exactly
    /// when the buffer is shorter than the format's record byte length.
    pub fn read(data: FontData, format: ValueFormat) -> (r: Result<ValueRecord, ReadError>)
        ensures
            data@.len() >= 2 * nset(format.spec_bits(), 8) ==> r == Ok::<ValueRecord, ReadError>(
                spec_read_record(data@, format.spec_bits()),
            ),
            data@.len() < 2 * nset(format.spec_bits(), 8) ==> r == Err::<ValueRecord, ReadError>(
                ReadError::OutOfBounds,
            ),
    {
        let ghost bits = format.spec_bits();
        let mut this = ValueRecord::default();
        let mut cursor = Cursor::new();

        if format.contains(X_PLACEMENT) {
            match cursor.read_i16(&data) {
                Ok(v) => {
                    this.x_placement = Some(v);
                },
                Err(e) => {
                    return Err(e);
                },
            }
        }
        assert(cursor@ == 2 * nset(bits, 1));
        if format.contains(Y_PLACEMENT) {
            match cursor.read_i16(&data) {
                Ok(v) => {
                    this.y_placement = Some(v);
                },
                Err(e) => {
                    return Err(e);
                },
            }
        }
        assert(cursor@ == 2 * nset(bits, 2));
        if format.contains(X_ADVANCE) {
            match cursor.read_i16(&data) {
                Ok(v) => {
                    this.x_advance = Some(v);
                },
                Err(e) => {
                    return Err(e);
                },
            }
        }
        assert(cursor@ == 2 * nset(bits, 3));
        if format.contains(Y_ADVANCE) {
            match cursor.read_i16(&data) {
                Ok(v) => {
                    this.y_advance = Some(v);
                },
                Err(e) => {
                    return Err(e);
                },
            }
        }
        assert(cursor@ == 2 * nset(bits, 4));
        if format.contains(X_PLACEMENT_DEVICE) {
            match cursor.read_i16(&data) {
                Ok(v) => {
                    this.x_placement_device = Some(v);
                },
                Err(e) => {
                    return Err(e);
                },
            }
        }
        assert(cursor@ == 2 * nset(bits, 5));
        if format.contains(Y_PLACEMENT_DEVICE) {
            match cursor.read_i16(&data) {
                Ok(v) => {
                    this.y_placement_device = Some(v);
                },
                Err(e) => {
                    return Err(e);
                },
            }
        }
        assert(cursor@ == 2 * nset(bits, 6));
        if format.contains(X_ADVANCE_DEVICE) {
            match cursor.read_i16(&data) {
                Ok(v) => {
                    this.x_advance_device = Some(v);
                },
                Err(e) => {
                    return Err(e);
                },
            }
        }
        assert(cursor@ == 2 * nset(bits, 7));
        if format.contains(Y_ADVANCE_DEVICE) {
            match cursor.read_i16(&data) {
                Ok(v) => {
                    this.y_advance_device = Some(v);
                },
                Err(e) => {
                    return Err(e);
                },
            }
        }
        assert(cursor@ == 2 * nset(bits, 8));
        Ok(this)
    }

    /// Decode a record whose layout arguments are a format bitmask.
    pub fn read_with_args(data: FontData, args: &ValueFormat) -> (r: Result<
        ValueRecord,
        ReadError,
    >)
        ensures
            data@.len() >= 2 * nset(args.spec_bits(), 8) ==> r == Ok::<ValueRecord, ReadError>(
                spec_read_record(data@, args.spec_bits()),
            ),
            data@.len() < 2 * nset(args.spec_bits(), 8) ==> r == Err::<ValueRecord, ReadError>(
                ReadError::OutOfBounds,
            ),
    {
        ValueRecord::read(data, *args)
    }

    /// The size of a record in this format, computable before its bytes
    /// exist.
    pub fn compute_size(args: &ValueFormat) -> (r: usize)
        ensures
            r == 2 * nset(args.spec_bits(), 8),
    {
        args.record_byte_len()
    }

    /// Encode the record's present fields in the canonical order, two
    /// big-endian bytes each.
    pub fn encode(&self, format: ValueFormat) -> (r: Vec<u8>)
        requires
            record_matches_format(*self, format.spec_bits()),
        ensures
            r@ == record_bytes(*self),
            r@.len() == 2 * nset(format.spec_bits(), 8),
    {
        let ghost bits = format.spec_bits();
        let ghost rec = *self;
        proof {
            assert(field_at(rec, 0).is_some() == (bits & flag_at(0) != 0));
            assert(field_at(rec, 1).is_some() == (bits & flag_at(1) != 0));
            assert(field_at(rec, 2).is_some() == (bits & flag_at(2) != 0));
            assert(field_at(rec, 3).is_some() == (bits & flag_at(3) != 0));
            assert(field_at(rec, 4).is_some() == (bits & flag_at(4) != 0));
            assert(field_at(rec, 5).is_some() == (bits & flag_at(5) != 0));
            assert(field_at(rec, 6).is_some() == (bits & flag_at(6) != 0));
            assert(field_at(rec, 7).is_some() == (bits & flag_at(7) != 0));
        }
        let mut out: Vec<u8> = Vec::new();
        push_opt_field(&mut out, self.x_placement);
        push_opt_field(&mut out, self.y_placement);
        push_opt_field(&mut out, self.x_advance);
        push_opt_field(&mut out, self.y_advance);
        push_opt_field(&mut out, self.x_placement_device);
        push_opt_field(&mut out, self.y_placement_device);
        push_opt_field(&mut out, self.x_advance_device);
        push_opt_field(&mut out, self.y_advance_device);
        assert(out@ =~= record_bytes(rec));
        out
    }
}

/// Append the two big-endian bytes of a present field, or nothing for an
/// absent one.
fn push_opt_field(out: &mut Vec<u8>, f: Option<i16>)
    ensures
        final(out)@ == old(out)@ + opt_field_bytes(f),
{
    match f {
        Some(v) => {
            let u = crate::read::u16_from_i16(v);
            out.push((u / 256) as u8);
            out.push((u % 256) as u8);
            assert(out@ =~= old(out)@ + opt_field_bytes(f));
        },
        None => {
            assert(out@ =~= old(out)@ + opt_field_bytes(f));
        },
    }
}

/// Law: any record that matches its format survives the encode/decode round
/// trip — decoding the canonical byte image under the same format yields a
/// structurally equal record.
pub proof fn lemma_value_record_round_trip(rec: ValueRecord, bits: u16)
    requires
        record_matches_format(rec, bits),
    ensures
        spec_read_record(record_bytes(rec), bits) == rec,
{
    let data = record_bytes(rec);
    assert(field_at(rec, 0).is_some() == (bits & flag_at(0) != 0));
    assert(field_at(rec, 1).is_some() == (bits & flag_at(1) != 0));
    assert(field_at(rec, 2).is_some() == (bits & flag_at(2) != 0));
    assert(field_at(rec, 3).is_some() == (bits & flag_at(3) != 0));
    assert(field_at(rec, 4).is_some() == (bits & flag_at(4) != 0));
    assert(field_at(rec, 5).is_some() == (bits & flag_at(5) != 0));
    assert(field_at(rec, 6).is_some() == (bits & flag_at(6) != 0));
    assert(field_at(rec, 7).is_some() == (bits & flag_at(7) != 0));
    assert forall|k: int| 0 <= k < 8 implies #[trigger] spec_field(data, bits, k) == field_at(
        rec,
        k,
    ) by {
        lemma_record_field_position(rec, bits, k);
    }
    assert(spec_read_record(data, bits) == rec);
}

/// The byte image of the first `k` fields of the canonical order.
pub open spec fn prefix_bytes(rec: ValueRecord, k: int) -> Seq<u8>
    decreases k,
{
    if k <= 0 {
        Seq::empty()
    } else {
        prefix_bytes(rec, k - 1) + opt_field_bytes(field_at(rec, k - 1))
    }
}

/// For a matching record, the first `k` fields occupy `2 * nset(bits, k)`
/// bytes.
proof fn lemma_prefix_len(rec: ValueRecord, bits: u16, k: int)
    requires
        record_matches_format(rec, bits),
        0 <= k <= 8,
    ensures
        prefix_bytes(rec, k).len() == 2 * nset(bits, k),
    decreases k,
{
    if k > 0 {
        lemma_prefix_len(rec, bits, k - 1);
        assert(field_at(rec, k - 1).is_some() == (bits & flag_at(k - 1) != 0));
    }
}

/// Within any longer prefix, a present field `k` of a matching record
/// stands at byte offset `2 * nset(bits, k)`.
proof fn lemma_prefix_index(rec: ValueRecord, bits: u16, k: int, j: int)
    requires
        record_matches_format(rec, bits),
        0 <= k < 8,
        bits & flag_at(k) != 0,
        k < j <= 8,
    ensures
        prefix_bytes(rec, j)[2 * nset(bits, k)] == opt_field_bytes(field_at(rec, k))[0],
        prefix_bytes(rec, j)[2 * nset(bits, k) + 1] == opt_field_bytes(field_at(rec, k))[1],
    decreases j,
{
    assert(field_at(rec, k).is_some() == (bits & flag_at(k) != 0));
    lemma_prefix_len(rec, bits, k);
    if j == k + 1 {
    } else {
        lemma_prefix_index(rec, bits, k, j - 1);
        lemma_prefix_len(rec, bits, j - 1);
    }
}

/// The canonical byte image is the prefix image of all eight fields.
proof fn lemma_record_bytes_is_prefix(rec: ValueRecord)
    ensures
        record_bytes(rec) == prefix_bytes(rec, 8),
{
    reveal_with_fuel(prefix_bytes, 9);
    assert(record_bytes(rec) =~= prefix_bytes(rec, 8));
}

/// Each present field of a matching record lands in its own two-byte slot
/// of the canonical byte image.
proof fn lemma_record_field_position(rec: ValueRecord, bits: u16, k: int)
    requires
        record_matches_format(rec, bits),
        0 <= k < 8,
    ensures
        spec_field(record_bytes(rec), bits, k) == field_at(rec, k),
{
    assert(field_at(rec, k).is_some() == (bits & flag_at(k) != 0));
    if bits & flag_at(k) != 0 {
        let v = field_at(rec, k)->Some_0;
        lemma_record_bytes_is_prefix(rec);
        lemma_prefix_index(rec, bits, k, 8);
        crate::read::lemma_i16_round_trip(v);
        assert(opt_field_bytes(field_at(rec, k))[0] == be_bytes_of_i16(v)[0]);
        assert(opt_field_bytes(field_at(rec, k))[1] == be_bytes_of_i16(v)[1]);
    }
}

} // verus!
