//! The glyph-variations table header: a fixed header with two forward
//! offsets — to the shared tuple records and to the per-glyph variation
//! data array — followed by the per-glyph offset array and the data
//! blocks themselves.  The layout pass computes every offset from sizes
//! known before a byte is written.

use vstd::prelude::*;

use crate::read::{be_bytes_of_i16, be_bytes_of_u16, be_bytes_of_u32};
use crate::writer::{OffsetMarker, TableWriter, ValidationCtx, Violation};

verus! {

/// One shared tuple: per-axis coordinates as raw 2.14 fixed-point bits.
#[derive(Clone, Debug)]
pub struct Tuple {
    pub values: Vec<i16>,
}

/// Array of tuple records shared across all glyph variation data tables.
#[derive(Clone, Debug)]
pub struct SharedTuples {
    pub tuples: Vec<Tuple>,
}

/// The packed high-4-bit flags / low-12-bit count field of one per-glyph
/// variation data block.
#[derive(Clone, Copy, Debug, PartialEq, Eq, Structural)]
pub struct TupleVariationCount {
    pub bits: u16,
}

/// One tuple variation header: the size of its serialized delta data and
/// the index of its shared tuple.
#[derive(Clone, Copy, Debug, PartialEq, Eq, Structural)]
pub struct TupleVariationHeader {
    pub variation_data_size: u16,
    pub tuple_index: u16,
}

/// One per-glyph variation data block: the packed count field and its
/// tuple variation headers.
#[derive(Clone, Debug)]
pub struct GlyphVariationDataHeader {
    /// A packed field: the high 4 bits are flags, the low 12 bits the
    /// number of tuple variation tables for this glyph.
    pub tuple_variation_count: TupleVariationCount,
    /// Array of tuple variation headers.
    pub tuple_variation_headers: Vec<TupleVariationHeader>,
}

impl GlyphVariationDataHeader {
    /// Walk the block before writing; its headers carry nothing to check.
    pub fn validate_impl(&self, ctx: &mut ValidationCtx)
        ensures
            final(ctx)@ == old(ctx)@,
    {
    }
}

/// The first `i` coordinates of one tuple, big-endian.
pub open spec fn spec_tuple_bytes(vals: Seq<i16>, i: int) -> Seq<u8>
    decreases i,
{
    if i <= 0 {
        Seq::empty()
    } else {
        spec_tuple_bytes(vals, i - 1) + be_bytes_of_i16(vals[i - 1])
    }
}

/// The first `i` shared tuples' bytes, concatenated.
pub open spec fn spec_tuples_bytes(ts: Seq<Tuple>, i: int) -> Seq<u8>
    decreases i,
{
    if i <= 0 {
        Seq::empty()
    } else {
        spec_tuples_bytes(ts, i - 1) + spec_tuple_bytes(ts[i - 1].values@, ts[i - 1].values@.len() as int)
    }
}

/// The byte length of the first `i` shared tuples: two bytes per
/// coordinate.
pub open spec fn spec_tuples_len(ts: Seq<Tuple>, i: int) -> int
    decreases i,
{
    if i <= 0 {
        0
    } else {
        spec_tuples_len(ts, i - 1) + 2 * ts[i - 1].values@.len() as int
    }
}

/// The byte length of one data block: the packed count field plus four
/// bytes per header.
pub open spec fn spec_block_len(g: GlyphVariationDataHeader) -> int {
    2 + 4 * g.tuple_variation_headers@.len() as int
}

/// The byte length of the first `i` data blocks.
pub open spec fn spec_blocks_len(gs: Seq<GlyphVariationDataHeader>, i: int) -> int
    decreases i,
{
    if i <= 0 {
        0
    } else {
        spec_blocks_len(gs, i - 1) + spec_block_len(gs[i - 1])
    }
}

/// The first `i` headers of one block, four bytes each.
pub open spec fn spec_headers_bytes(hs: Seq<TupleVariationHeader>, i: int) -> Seq<u8>
    decreases i,
{
    if i <= 0 {
        Seq::empty()
    } else {
        spec_headers_bytes(hs, i - 1) + be_bytes_of_u16(hs[i - 1].variation_data_size)
            + be_bytes_of_u16(hs[i - 1].tuple_index)
    }
}

/// One data block's bytes: the packed count, then its headers.
pub open spec fn spec_block_bytes(g: GlyphVariationDataHeader) -> Seq<u8> {
    be_bytes_of_u16(g.tuple_variation_count.bits) + spec_headers_bytes(
        g.tuple_variation_headers@,
        g.tuple_variation_headers@.len() as int,
    )
}

/// The first `i` data blocks' bytes, concatenated.
pub open spec fn spec_blocks_bytes(gs: Seq<GlyphVariationDataHeader>, i: int) -> Seq<u8>
    decreases i,
{
    if i <= 0 {
        Seq::empty()
    } else {
        spec_blocks_bytes(gs, i - 1) + spec_block_bytes(gs[i - 1])
    }
}

/// The first `i` entries of the per-glyph offset array: entry `k` is the
/// distance from the data array start to block `k`, so entry `n` is the
/// total data length.
pub open spec fn spec_offsets_bytes(gs: Seq<GlyphVariationDataHeader>, i: int) -> Seq<u8>
    decreases i,
{
    if i <= 0 {
        Seq::empty()
    } else {
        spec_offsets_bytes(gs, i - 1) + be_bytes_of_u32(spec_blocks_len(gs, i - 1) as u32)
    }
}

/// Block prefix lengths only grow.
proof fn lemma_blocks_len_mono(gs: Seq<GlyphVariationDataHeader>, i: int, j: int)
    requires
        0 <= i <= j,
    ensures
        spec_blocks_len(gs, i) <= spec_blocks_len(gs, j),
    decreases j - i,
{
    if i < j {
        lemma_blocks_len_mono(gs, i, j - 1);
    }
}

/// Shared-tuple prefix lengths only grow.
proof fn lemma_tuples_len_mono(ts: Seq<Tuple>, i: int, j: int)
    requires
        0 <= i <= j,
    ensures
        spec_tuples_len(ts, i) <= spec_tuples_len(ts, j),
    decreases j - i,
{
    if i < j {
        lemma_tuples_len_mono(ts, i, j - 1);
    }
}

impl SharedTuples {
    /// Construct a new `SharedTuples`.
    pub fn new(tuples: Vec<Tuple>) -> (r: SharedTuples)
        ensures
            r.tuples == tuples,
    {
        SharedTuples { tuples }
    }

    /// Serialize every tuple's coordinates in order.
    pub fn write_into(&self, writer: &mut TableWriter)
        ensures
            final(writer)@ == old(writer)@ + spec_tuples_bytes(
                self.tuples@,
                self.tuples@.len() as int,
            ),
    {
        let ghost base = writer@;
        let ghost ts = self.tuples@;
        let mut i: usize = 0;
        while i < self.tuples.len()
            invariant
                self.tuples@ == ts,
                i <= ts.len(),
                writer@ == base + spec_tuples_bytes(ts, i as int),
            decreases ts.len() - i,
        {
            let vals: &Vec<i16> = &self.tuples[i].values;
            let ghost b0 = writer@;
            let mut j: usize = 0;
            while j < vals.len()
                invariant
                    vals@ == ts[i as int].values@,
                    j <= vals@.len(),
                    writer@ == b0 + spec_tuple_bytes(vals@, j as int),
                decreases vals@.len() - j,
            {
                writer.write_i16(vals[j]);
                proof {
                    assert(writer@ =~= b0 + spec_tuple_bytes(vals@, j as int + 1));
                }
                j = j + 1;
            }
            proof {
                assert(writer@ =~= base + spec_tuples_bytes(ts, i as int + 1));
            }
            i = i + 1;
        }
    }

    /// Walk the array before writing: its count must fit a 16-bit field.
    pub fn validate_impl(&self, ctx: &mut ValidationCtx)
        ensures
            final(ctx)@ == old(ctx)@ + (if self.tuples@.len() > 65535 {
                seq![Violation::ArrayExceedsMaxLength]
            } else {
                Seq::<Violation>::empty()
            }),
    {
        if self.tuples.len() > 65535 {
            ctx.report(Violation::ArrayExceedsMaxLength);
        }
        assert(ctx@ =~= old(ctx)@ + (if self.tuples@.len() > 65535 {
            seq![Violation::ArrayExceedsMaxLength]
        } else {
            Seq::<Violation>::empty()
        }));
    }
}

/// The table flag word: bit 0 set means long (32-bit) per-glyph offsets.
#[derive(Clone, Copy, Debug, PartialEq, Eq, Structural)]
pub struct GvarFlags {
    pub bits: u16,
}

impl GvarFlags {
    /// Serialize the flag word, big-endian.
    pub fn write_into(&self, writer: &mut TableWriter)
        ensures
            final(writer)@ == old(writer)@ + be_bytes_of_u16(self.bits),
    {
        writer.write_u16(self.bits);
    }
}

/// The glyph-variations table header.
#[derive(Clone, Debug)]
pub struct Gvar {
    /// The number of variation axes for this font.
    pub axis_count: u16,
    /// Offset from the start of this table to the shared tuple records.
    pub shared_tuples: OffsetMarker<SharedTuples>,
    /// The per-glyph variation data blocks the offset array points to.
    pub glyph_variation_data_offsets: Vec<GlyphVariationDataHeader>,
}

impl Gvar {
    /// Construct a new `Gvar`.
    pub fn new(
        axis_count: u16,
        shared_tuples: SharedTuples,
        glyph_variation_data_offsets: Vec<GlyphVariationDataHeader>,
    ) -> (r: Gvar)
        ensures
            r.axis_count == axis_count,
            r.shared_tuples.spec_obj() == shared_tuples,
            r.glyph_variation_data_offsets == glyph_variation_data_offsets,
    {
        Gvar {
            axis_count,
            shared_tuples: OffsetMarker::new(shared_tuples),
            glyph_variation_data_offsets,
        }
    }

    /// Walk the graph before writing: the shared tuples, then the
    /// per-glyph blocks, collecting every violation.
    pub fn validate_impl(&self, ctx: &mut ValidationCtx)
        ensures
            final(ctx)@ == old(ctx)@ + (if self.shared_tuples.spec_obj().tuples@.len() > 65535 {
                seq![Violation::ArrayExceedsMaxLength]
            } else {
                Seq::<Violation>::empty()
            }),
    {
        self.shared_tuples.get().validate_impl(ctx);
        let mut i: usize = 0;
        while i < self.glyph_variation_data_offsets.len()
            invariant
                ctx@ == old(ctx)@ + (if self.shared_tuples.spec_obj().tuples@.len() > 65535 {
                    seq![Violation::ArrayExceedsMaxLength]
                } else {
                    Seq::<Violation>::empty()
                }),
            decreases self.glyph_variation_data_offsets@.len() - i,
        {
            self.glyph_variation_data_offsets[i].validate_impl(ctx);
            i = i + 1;
        }
    }
}


/// The whole encoded table: the 20-byte fixed header (version, axis
/// count, shared tuple count, offset to the shared tuples, glyph count,
/// the long-offset flag, offset to the data array), the per-glyph offset
/// array with its end sentinel, the shared tuples, then the data blocks.
pub open spec fn spec_gvar_encoded(g: Gvar) -> Seq<u8> {
    let gs = g.glyph_variation_data_offsets@;
    let n = gs.len() as int;
    let ts = g.shared_tuples.spec_obj().tuples@;
    be_bytes_of_u32(0x00010000) + be_bytes_of_u16(g.axis_count) + be_bytes_of_u16(
        ts.len() as u16,
    ) + be_bytes_of_u32((20 + 4 * (n + 1)) as u32) + be_bytes_of_u16(n as u16) + be_bytes_of_u16(1)
        + be_bytes_of_u32((20 + 4 * (n + 1) + spec_tuples_len(ts, ts.len() as int)) as u32)
        + spec_offsets_bytes(gs, n + 1) + spec_tuples_bytes(ts, ts.len() as int)
        + spec_blocks_bytes(gs, n)
}

impl Gvar {
    /// Serialize the table in one deterministic layout pass: both header
    /// offsets and every per-glyph offset are computed from sizes known
    /// before any byte is written, then children land exactly where the
    /// offsets say.
    pub fn write_into(&self, writer: &mut TableWriter)
        requires
            self.glyph_variation_data_offsets@.len() <= 65535,
            self.shared_tuples.spec_obj().tuples@.len() <= 65535,
            20 + 4 * (self.glyph_variation_data_offsets@.len() as int + 1) + spec_tuples_len(
                self.shared_tuples.spec_obj().tuples@,
                self.shared_tuples.spec_obj().tuples@.len() as int,
            ) <= 0xffff_ffff,
            spec_blocks_len(
                self.glyph_variation_data_offsets@,
                self.glyph_variation_data_offsets@.len() as int,
            ) <= 0xffff_ffff,
        ensures
            final(writer)@ == old(writer)@ + spec_gvar_encoded(*self),
    {
        let ghost base = writer@;
        let ghost gs = self.glyph_variation_data_offsets@;
        let ghost ts = self.shared_tuples.spec_obj().tuples@;
        let n: usize = self.glyph_variation_data_offsets.len();
        let shared: &SharedTuples = self.shared_tuples.get();
        let tn: usize = shared.tuples.len();
        let mut shared_len: u64 = 0;
        let mut t: usize = 0;
        while t < tn
            invariant
                shared.tuples@ == ts,
                tn == ts.len(),
                t <= tn,
                shared_len == spec_tuples_len(ts, t as int),
                n == gs.len(),
                20 + 4 * (n as int + 1) + spec_tuples_len(ts, ts.len() as int) <= 0xffff_ffff,
            decreases tn - t,
        {
            proof {
                lemma_tuples_len_mono(ts, t as int + 1, ts.len() as int);
                lemma_tuples_len_mono(ts, 0, t as int);
            }
            let vl: usize = shared.tuples[t].values.len();
            shared_len = shared_len + (vl as u64) + (vl as u64);
            t = t + 1;
        }
        writer.write_u32(0x00010000);
        writer.write_u16(self.axis_count);
        writer.write_u16(tn as u16);
        proof {
            lemma_tuples_len_mono(ts, 0, ts.len() as int);
        }
        writer.write_u32((20 + 4 * ((n as u64) + 1)) as u32);
        writer.write_u16(n as u16);
        writer.write_u16(1);
        writer.write_u32((20 + 4 * ((n as u64) + 1) + shared_len) as u32);
        let ghost hdr = writer@;
        let mut cum: u64 = 0;
        let mut k: usize = 0;
        while k < n
            invariant
                self.glyph_variation_data_offsets@ == gs,
                n == gs.len(),
                k <= n,
                cum == spec_blocks_len(gs, k as int),
                spec_blocks_len(gs, gs.len() as int) <= 0xffff_ffff,
                writer@ == hdr + spec_offsets_bytes(gs, k as int),
            decreases n - k,
        {
            proof {
                lemma_blocks_len_mono(gs, k as int, gs.len() as int);
                lemma_blocks_len_mono(gs, k as int + 1, gs.len() as int);
            }
            writer.write_u32(cum as u32);
            proof {
                assert(writer@ =~= hdr + spec_offsets_bytes(gs, k as int + 1));
            }
            let hl: usize = self.glyph_variation_data_offsets[k].tuple_variation_headers.len();
            proof {
                assert(spec_blocks_len(gs, k as int + 1) == cum + 2 + 4 * (hl as int));
            }
            cum = cum + 2 + (hl as u64) * 4;
            k = k + 1;
        }
        proof {
            lemma_blocks_len_mono(gs, k as int, gs.len() as int);
        }
        writer.write_u32(cum as u32);
        proof {
            assert(writer@ =~= hdr + spec_offsets_bytes(gs, n as int + 1));
        }
        shared.write_into(writer);
        let ghost after_tuples = writer@;
        let mut b: usize = 0;
        while b < n
            invariant
                self.glyph_variation_data_offsets@ == gs,
                n == gs.len(),
                b <= n,
                writer@ == after_tuples + spec_blocks_bytes(gs, b as int),
            decreases n - b,
        {
            let block: &GlyphVariationDataHeader = &self.glyph_variation_data_offsets[b];
            let ghost b0 = writer@;
            writer.write_u16(block.tuple_variation_count.bits);
            let hn: usize = block.tuple_variation_headers.len();
            let mut h: usize = 0;
            while h < hn
                invariant
                    block.tuple_variation_headers@ == gs[b as int].tuple_variation_headers@,
                    block.tuple_variation_count == gs[b as int].tuple_variation_count,
                    hn == gs[b as int].tuple_variation_headers@.len(),
                    h <= hn,
                    writer@ == b0 + be_bytes_of_u16(gs[b as int].tuple_variation_count.bits)
                        + spec_headers_bytes(gs[b as int].tuple_variation_headers@, h as int),
                decreases hn - h,
            {
                writer.write_u16(block.tuple_variation_headers[h].variation_data_size);
                writer.write_u16(block.tuple_variation_headers[h].tuple_index);
                proof {
                    assert(writer@ =~= b0 + be_bytes_of_u16(
                        gs[b as int].tuple_variation_count.bits,
                    ) + spec_headers_bytes(gs[b as int].tuple_variation_headers@, h as int + 1));
                }
                h = h + 1;
            }
            proof {
                assert(writer@ =~= after_tuples + spec_blocks_bytes(gs, b as int + 1));
            }
            b = b + 1;
        }
        proof {
            assert(writer@ =~= base + spec_gvar_encoded(*self));
        }
    }
}

} // verus!
