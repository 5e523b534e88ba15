//! The horizontal metrics table: an argument-typed layout whose trailing
//! section depends on counts supplied by sibling tables.

use vstd::prelude::*;

use crate::read::{be_u16, i16_of_u16, FontData};

verus! {

/// Paired advance width and left side bearing for one glyph.
#[derive(Clone, Copy, Debug, PartialEq, Eq, Structural)]
pub struct LongHorMetric {
    /// Advance width, in font design units.
    pub advance_width: u16,
    /// Glyph left side bearing, in font design units.
    pub lsb: i16,
}

impl LongHorMetric {
    /// Advance width, in font design units.
    pub fn advance_width(&self) -> (r: u16)
        ensures
            r == self.advance_width,
    {
        self.advance_width
    }

    /// Glyph left side bearing, in font design units.
    pub fn lsb(&self) -> (r: i16)
        ensures
            r == self.lsb,
    {
        self.lsb
    }
}

/// How many trailing bearing-only values follow the paired records: the
/// glyph count less the metrics count, saturating at zero.
pub open spec fn spec_extra_lsb_count(num_glyphs: u16, num_metrics: u16) -> int {
    if num_glyphs as int - num_metrics as int >= 0 {
        num_glyphs as int - num_metrics as int
    } else {
        0
    }
}

/// The glyph count less the metrics count, saturating at zero.
pub fn n_glyphs_less_n_metrics(num_glyphs: u16, num_metrics: u16) -> (r: usize)
    ensures
        r == spec_extra_lsb_count(num_glyphs, num_metrics),
{
    num_glyphs.saturating_sub(num_metrics) as usize
}

/// The paired record stored at byte offset `4 * i`.
pub open spec fn spec_metric_at(data: Seq<u8>, i: int) -> LongHorMetric {
    LongHorMetric {
        advance_width: be_u16(data[4 * i], data[4 * i + 1]),
        lsb: i16_of_u16(be_u16(data[4 * i + 2], data[4 * i + 3])),
    }
}

/// The bearing-only value stored after `m` paired records, at byte offset
/// `4 * m + 2 * i`.
pub open spec fn spec_extra_lsb_at(data: Seq<u8>, m: int, i: int) -> i16 {
    i16_of_u16(be_u16(data[4 * m + 2 * i], data[4 * m + 2 * i + 1]))
}

/// The decoded horizontal metrics table: exactly `metrics_count` paired
/// records, then one bearing-only value for each remaining glyph.
pub struct Hmtx {
    h_metrics: Vec<LongHorMetric>,
    left_side_bearings: Vec<i16>,
}

impl Hmtx {
    /// The paired records, as a spec-level projection.
    pub closed spec fn spec_h_metrics(&self) -> Seq<LongHorMetric> {
        self.h_metrics@
    }

    /// The bearing-only values, as a spec-level projection.
    pub closed spec fn spec_left_side_bearings(&self) -> Seq<i16> {
        self.left_side_bearings@
    }

    /// Decode the table under externally supplied counts: `args.0` is the
    /// metrics count and `args.1` the glyph count.  Exactly `args.0` paired
    /// records are read, then the clamped remainder of bearing-only values;
    /// a glyph count below the metrics count yields zero trailing values,
    /// never an underflow.  On success the consumed byte length is returned
    /// beside the table.
    pub fn read_with_args(data: &FontData, args: (u16, u16)) -> (r: Option<(Hmtx, usize)>)
        ensures
            ({
                let m = args.0 as int;
                let extra = spec_extra_lsb_count(args.1, args.0);
                let needed = 4 * m + 2 * extra;
                &&& r.is_some() == (needed <= data@.len())
                &&& r matches Some(p) ==> {
                    &&& p.1 == needed
                    &&& p.0.spec_h_metrics().len() == m
                    &&& p.0.spec_left_side_bearings().len() == extra
                    &&& forall|i: int| 0 <= i < m ==> p.0.spec_h_metrics()[i] == spec_metric_at(
                        data@,
                        i,
                    )
                    &&& forall|i: int| 0 <= i < extra ==> p.0.spec_left_side_bearings()[i]
                        == spec_extra_lsb_at(data@, m, i)
                }
            }),
    {
        let num_metrics: usize = args.0 as usize;
        let num_extra: usize = n_glyphs_less_n_metrics(args.1, args.0);
        let len: usize = data.len();
        if len < 4 * num_metrics || (len - 4 * num_metrics) / 2 < num_extra {
            return None;
        }
        let mut h_metrics: Vec<LongHorMetric> = Vec::new();
        let mut i: usize = 0;
        while i < num_metrics
            invariant
                num_metrics <= 0xffff,
                4 * num_metrics <= data@.len(),
                i <= num_metrics,
                h_metrics@.len() == i,
                forall|j: int| 0 <= j < i ==> h_metrics@[j] == spec_metric_at(data@, j),
            decreases num_metrics - i,
        {
            let advance_width = data.get_u16(4 * i);
            let lsb = data.get_i16(4 * i + 2);
            h_metrics.push(LongHorMetric { advance_width, lsb });
            i = i + 1;
        }
        let mut left_side_bearings: Vec<i16> = Vec::new();
        let mut i: usize = 0;
        while i < num_extra
            invariant
                num_metrics <= 0xffff,
                num_extra <= 0xffff,
                4 * num_metrics + 2 * num_extra <= data@.len(),
                i <= num_extra,
                left_side_bearings@.len() == i,
                forall|j: int| 0 <= j < i ==> left_side_bearings@[j] == spec_extra_lsb_at(
                    data@,
                    num_metrics as int,
                    j,
                ),
            decreases num_extra - i,
        {
            let lsb = data.get_i16(4 * num_metrics + 2 * i);
            left_side_bearings.push(lsb);
            i = i + 1;
        }
        Some((Hmtx { h_metrics, left_side_bearings }, 4 * num_metrics + 2 * num_extra))
    }

    /// Paired advance width and left side bearing values for each glyph,
    /// indexed by glyph identifier.
    pub fn h_metrics(&self) -> (r: &Vec<LongHorMetric>)
        ensures
            r@ == self.spec_h_metrics(),
    {
        &self.h_metrics
    }

    /// Left side bearings for glyphs past the paired records.
    pub fn left_side_bearings(&self) -> (r: &Vec<i16>)
        ensures
            r@ == self.spec_left_side_bearings(),
    {
        &self.left_side_bearings
    }
}

} // verus!
