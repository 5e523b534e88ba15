//! The run-length glyph-to-string-identifier map of PostScript-flavoured
//! fonts: three formats share one semantic, assigning a string identifier
//! (SID) to every glyph identifier (GID) from 1 upward.

use vstd::prelude::*;

use crate::read::{be_u16, FontData, ReadError};

verus! {

/// A glyph identifier: a 0-based index into a font's glyph set.
#[derive(Clone, Copy, Debug, PartialEq, Eq, Structural)]
pub struct GlyphId {
    value: u16,
}

impl GlyphId {
    /// The raw identifier, as a spec-level projection.
    pub closed spec fn spec_to_u16(&self) -> u16 {
        self.value
    }

    /// Wrap a raw glyph identifier.
    pub fn new(value: u16) -> (r: GlyphId)
        ensures
            r.spec_to_u16() == value,
    {
        GlyphId { value }
    }

    /// The raw identifier.
    pub fn to_u16(&self) -> (r: u16)
        ensures
            r == self.spec_to_u16(),
    {
        self.value
    }
}

/// A format-1 run: `n_left + 1` consecutive glyphs starting at the internal
/// index equal to `first`, whose SIDs count up from `first`.
#[derive(Clone, Copy, Debug, PartialEq, Eq, Structural)]
pub struct CharsetsRange1 {
    pub first: u16,
    pub n_left: u8,
}

/// A format-2 run, identical to format 1 but with a 16-bit run length.
#[derive(Clone, Copy, Debug, PartialEq, Eq, Structural)]
pub struct CharsetsRange2 {
    pub first: u16,
    pub n_left: u16,
}

/// The format-1 range stored at byte offset `1 + 3 * i`.
pub open spec fn spec_range1_at(data: Seq<u8>, i: int) -> CharsetsRange1 {
    CharsetsRange1 {
        first: be_u16(data[1 + 3 * i], data[1 + 3 * i + 1]),
        n_left: data[1 + 3 * i + 2],
    }
}

/// The format-2 range stored at byte offset `1 + 4 * i`.
pub open spec fn spec_range2_at(data: Seq<u8>, i: int) -> CharsetsRange2 {
    CharsetsRange2 {
        first: be_u16(data[1 + 4 * i], data[1 + 4 * i + 1]),
        n_left: be_u16(data[1 + 4 * i + 2], data[1 + 4 * i + 3]),
    }
}

/// How many format-1 ranges the byte stream holds, discovered by walking it
/// once: ranges are consumed while the running glyph counter is below
/// `num_glyphs`; `None` when the walk runs out of bytes.
pub open spec fn spec_count1(data: Seq<u8>, num_glyphs: int, gid: int, pos: int) -> Option<int>
    decreases num_glyphs - gid,
{
    if gid >= num_glyphs {
        Some(0)
    } else if pos + 3 > data.len() {
        None
    } else {
        let step = data[pos + 2] + 1;
        if gid + step >= num_glyphs {
            Some(1)
        } else {
            match spec_count1(data, num_glyphs, gid + step, pos + 3) {
                Some(c) => Some(1 + c),
                None => None,
            }
        }
    }
}

/// How many format-2 ranges the byte stream holds; as `spec_count1` with
/// four-byte ranges.
pub open spec fn spec_count2(data: Seq<u8>, num_glyphs: int, gid: int, pos: int) -> Option<int>
    decreases num_glyphs - gid,
{
    if gid >= num_glyphs {
        Some(0)
    } else if pos + 4 > data.len() {
        None
    } else {
        let step = be_u16(data[pos + 2], data[pos + 3]) + 1;
        if gid + step >= num_glyphs {
            Some(1)
        } else {
            match spec_count2(data, num_glyphs, gid + step, pos + 4) {
                Some(c) => Some(1 + c),
                None => None,
            }
        }
    }
}

/// One SID per glyph but the reserved first one; zero glyphs clamp to an
/// empty array rather than underflowing.
pub open spec fn spec_clamped_count(num_glyphs: u16) -> int {
    if num_glyphs as int - 1 >= 0 {
        num_glyphs as int - 1
    } else {
        0
    }
}

/// Charsets format 0: one explicit SID per glyph.
#[derive(Debug, Clone, Copy)]
pub struct CharsetsFormat0Marker {
    glyph_byte_len: usize,
}

impl CharsetsFormat0Marker {
    /// The length of the SID array in bytes, as a spec-level projection.
    pub closed spec fn spec_glyph_byte_len(&self) -> int {
        self.glyph_byte_len as int
    }

    /// The byte range of the format discriminant.
    fn format_byte_range(&self) -> (r: core::ops::Range<usize>)
        ensures
            r.start == 0 && r.end == 1,
    {
        let start: usize = 0;
        start..start + 1
    }

    /// The byte range of the SID array.
    fn glyph_byte_range(&self) -> (r: core::ops::Range<usize>)
        requires
            1 + self.spec_glyph_byte_len() <= usize::MAX,
        ensures
            r.start == 1 && r.end == 1 + self.spec_glyph_byte_len(),
    {
        let start: usize = 1;
        start..start + self.glyph_byte_len
    }
}

/// A validated format-0 charset view: the buffer together with its decoded
/// shape.
pub struct CharsetsFormat0 {
    data: FontData,
    shape: CharsetsFormat0Marker,
}

impl CharsetsFormat0 {
    /// The underlying bytes, as a spec-level projection.
    pub closed spec fn spec_data(&self) -> Seq<u8> {
        self.data@
    }

    /// The number of SIDs in the explicit array.
    pub closed spec fn spec_num_sids(&self) -> int {
        self.shape.spec_glyph_byte_len() / 2
    }

    /// The view's declared range lies inside the buffer.
    pub closed spec fn wf(&self) -> bool {
        &&& 1 + self.shape.spec_glyph_byte_len() <= self.spec_data().len()
        &&& self.shape.spec_glyph_byte_len() % 2 == 0
    }

    /// The SID array: element `i` at byte offset `1 + 2 * i`.
    pub open spec fn spec_sids(&self) -> Seq<u16> {
        Seq::new(self.spec_num_sids() as nat, |i: int| be_u16(
            self.spec_data()[1 + 2 * i],
            self.spec_data()[1 + 2 * i + 1],
        ))
    }

    /// Construct the view: the array holds one SID for each glyph but the
    /// reserved first one, and must fit the buffer.  The count is clamped,
    /// so a glyph count of zero never underflows.
    pub fn read(data: FontData, num_glyphs: u16) -> (r: Result<CharsetsFormat0, ReadError>)
        ensures
            r.is_ok() == (1 + 2 * spec_clamped_count(num_glyphs) <= data@.len()),
            r matches Ok(v) ==> v.wf() && v.spec_data() == data@ && v.spec_num_sids()
                == spec_clamped_count(num_glyphs),
            r matches Err(e) ==> e == ReadError::OutOfBounds,
    {
        let n: usize = (num_glyphs as usize).saturating_sub(1);
        let glyph_byte_len: usize = 2 * n;
        if data.len() >= 1 && glyph_byte_len <= data.len() - 1 {
            Ok(CharsetsFormat0 { data, shape: CharsetsFormat0Marker { glyph_byte_len } })
        } else {
            Err(ReadError::OutOfBounds)
        }
    }

    /// The format discriminant byte.
    pub fn format(&self) -> (r: u8)
        requires
            self.wf(),
        ensures
            r == self.spec_data()[0],
    {
        self.data.get_u8(0)
    }

    /// The explicit SID array.
    pub fn glyph(&self) -> (r: Vec<u16>)
        requires
            self.wf(),
        ensures
            r@ == self.spec_sids(),
    {
        let count: usize = self.shape.glyph_byte_len / 2;
        let mut out: Vec<u16> = Vec::new();
        let mut i: usize = 0;
        while i < count
            invariant
                self.wf(),
                count == self.spec_num_sids(),
                2 * count == self.shape.spec_glyph_byte_len(),
                i <= count,
                out@.len() == i,
                forall|j: int| 0 <= j < i ==> out@[j] == self.spec_sids()[j],
            decreases count - i,
        {
            let v = self.data.get_u16(1 + 2 * i);
            out.push(v);
            i = i + 1;
        }
        assert(out@ =~= self.spec_sids());
        out
    }
}

/// Charsets format 1: runs with one-byte lengths.
#[derive(Debug, Clone, Copy)]
pub struct CharsetsFormat1Marker {
    ranges_byte_len: usize,
}

impl CharsetsFormat1Marker {
    /// The length of the range array in bytes, as a spec-level projection.
    pub closed spec fn spec_ranges_byte_len(&self) -> int {
        self.ranges_byte_len as int
    }

    /// The byte range of the format discriminant.
    fn format_byte_range(&self) -> (r: core::ops::Range<usize>)
        ensures
            r.start == 0 && r.end == 1,
    {
        let start: usize = 0;
        start..start + 1
    }

    /// The byte range of the range array.
    fn ranges_byte_range(&self) -> (r: core::ops::Range<usize>)
        requires
            1 + self.spec_ranges_byte_len() <= usize::MAX,
        ensures
            r.start == 1 && r.end == 1 + self.spec_ranges_byte_len(),
    {
        let start: usize = 1;
        start..start + self.ranges_byte_len
    }
}

/// A validated format-1 charset view.
pub struct CharsetsFormat1 {
    data: FontData,
    shape: CharsetsFormat1Marker,
}

impl CharsetsFormat1 {
    /// The underlying bytes, as a spec-level projection.
    pub closed spec fn spec_data(&self) -> Seq<u8> {
        self.data@
    }

    /// The number of ranges the walk discovered.
    pub closed spec fn spec_num_ranges(&self) -> int {
        self.shape.spec_ranges_byte_len() / 3
    }

    /// The view's declared range lies inside the buffer.
    pub closed spec fn wf(&self) -> bool {
        &&& 1 + self.shape.spec_ranges_byte_len() <= self.spec_data().len()
        &&& self.shape.spec_ranges_byte_len() % 3 == 0
    }

    /// The decoded range array.
    pub open spec fn spec_ranges(&self) -> Seq<CharsetsRange1> {
        Seq::new(self.spec_num_ranges() as nat, |i: int| spec_range1_at(self.spec_data(), i))
    }

    /// Construct the view by walking the byte stream once: ranges are
    /// consumed while the running glyph counter, starting at 1, is below
    /// `num_glyphs`.  The walk fails with `OutOfBounds` when it runs out of
    /// bytes; the counter is kept wide, so it never wraps.
    pub fn read_with_args(data: FontData, args: &u16) -> (r: Result<CharsetsFormat1, ReadError>)
        ensures
            r matches Ok(v) ==> {
                &&& v.wf()
                &&& v.spec_data() == data@
                &&& spec_count1(data@, *args as int, 1, 1) == Some(v.spec_num_ranges())
            },
            r matches Err(e) ==> e == ReadError::OutOfBounds,
            r.is_err() == (spec_count1(data@, *args as int, 1, 1) is None || data@.len() < 1),
    {
        let num_glyphs = *args;
        let len: usize = data.len();
        let mut ranges_byte_len: usize = 0;
        let mut gid: u32 = 1;
        let mut pos: usize = 1;
        while gid < num_glyphs as u32
            invariant
                num_glyphs == *args,
                1 <= gid,
                pos == 1 + ranges_byte_len,
                ranges_byte_len % 3 == 0,
                ranges_byte_len > 0 ==> pos <= len,
                len == data@.len(),
                gid <= 0x2_0000,
                spec_count1(data@, num_glyphs as int, 1, 1) == match spec_count1(
                    data@,
                    num_glyphs as int,
                    gid as int,
                    pos as int,
                ) {
                    Some(c) => Some(ranges_byte_len as int / 3 + c),
                    None => None::<int>,
                },
            decreases (if gid < num_glyphs as u32 {
                num_glyphs as int - gid
            } else {
                0
            }),
        {
            if pos > len || len - pos < 3 {
                return Err(ReadError::OutOfBounds);
            }
            let n_left = data.get_u8(pos + 2);
            gid = gid + (n_left as u32) + 1;
            pos = pos + 3;
            ranges_byte_len = ranges_byte_len + 3;
        }
        if len >= 1 && ranges_byte_len <= len - 1 {
            Ok(CharsetsFormat1 { data, shape: CharsetsFormat1Marker { ranges_byte_len } })
        } else {
            Err(ReadError::OutOfBounds)
        }
    }

    /// A constructor that requires additional arguments: the total glyph
    /// count that bounds the walk.
    pub fn read(data: FontData, num_glyphs: u16) -> (r: Result<CharsetsFormat1, ReadError>)
        ensures
            r matches Ok(v) ==> {
                &&& v.wf()
                &&& v.spec_data() == data@
                &&& spec_count1(data@, num_glyphs as int, 1, 1) == Some(v.spec_num_ranges())
            },
            r matches Err(e) ==> e == ReadError::OutOfBounds,
            r.is_err() == (spec_count1(data@, num_glyphs as int, 1, 1) is None || data@.len() < 1),
    {
        let args = num_glyphs;
        Self::read_with_args(data, &args)
    }

    /// The format discriminant byte.
    pub fn format(&self) -> (r: u8)
        requires
            self.wf(),
        ensures
            r == self.spec_data()[0],
    {
        self.data.get_u8(0)
    }

    /// The decoded range array.
    pub fn ranges(&self) -> (r: Vec<CharsetsRange1>)
        requires
            self.wf(),
        ensures
            r@ == self.spec_ranges(),
    {
        let count: usize = self.shape.ranges_byte_len / 3;
        let mut out: Vec<CharsetsRange1> = Vec::new();
        let mut i: usize = 0;
        while i < count
            invariant
                self.wf(),
                count == self.spec_num_ranges(),
                3 * count == self.shape.spec_ranges_byte_len(),
                i <= count,
                out@.len() == i,
                forall|j: int| 0 <= j < i ==> out@[j] == self.spec_ranges()[j],
            decreases count - i,
        {
            let first = self.data.get_u16(1 + 3 * i);
            let n_left = self.data.get_u8(1 + 3 * i + 2);
            out.push(CharsetsRange1 { first, n_left });
            i = i + 1;
        }
        assert(out@ =~= self.spec_ranges());
        out
    }
}

/// Charsets format 2: runs with two-byte lengths.
#[derive(Debug, Clone, Copy)]
pub struct CharsetsFormat2Marker {
    ranges_byte_len: usize,
}

impl CharsetsFormat2Marker {
    /// The length of the range array in bytes, as a spec-level projection.
    pub closed spec fn spec_ranges_byte_len(&self) -> int {
        self.ranges_byte_len as int
    }

    /// The byte range of the format discriminant.
    fn format_byte_range(&self) -> (r: core::ops::Range<usize>)
        ensures
            r.start == 0 && r.end == 1,
    {
        let start: usize = 0;
        start..start + 1
    }

    /// The byte range of the range array.
    fn ranges_byte_range(&self) -> (r: core::ops::Range<usize>)
        requires
            1 + self.spec_ranges_byte_len() <= usize::MAX,
        ensures
            r.start == 1 && r.end == 1 + self.spec_ranges_byte_len(),
    {
        let start: usize = 1;
        start..start + self.ranges_byte_len
    }
}

/// A validated format-2 charset view.
pub struct CharsetsFormat2 {
    data: FontData,
    shape: CharsetsFormat2Marker,
}

impl CharsetsFormat2 {
    /// The underlying bytes, as a spec-level projection.
    pub closed spec fn spec_data(&self) -> Seq<u8> {
        self.data@
    }

    /// The number of ranges the walk discovered.
    pub closed spec fn spec_num_ranges(&self) -> int {
        self.shape.spec_ranges_byte_len() / 4
    }

    /// The view's declared range lies inside the buffer.
    pub closed spec fn wf(&self) -> bool {
        &&& 1 + self.shape.spec_ranges_byte_len() <= self.spec_data().len()
        &&& self.shape.spec_ranges_byte_len() % 4 == 0
    }

    /// The decoded range array.
    pub open spec fn spec_ranges(&self) -> Seq<CharsetsRange2> {
        Seq::new(self.spec_num_ranges() as nat, |i: int| spec_range2_at(self.spec_data(), i))
    }

    /// Construct the view by walking the byte stream once; as format 1 with
    /// four-byte ranges.
    pub fn read_with_args(data: FontData, args: &u16) -> (r: Result<CharsetsFormat2, ReadError>)
        ensures
            r matches Ok(v) ==> {
                &&& v.wf()
                &&& v.spec_data() == data@
                &&& spec_count2(data@, *args as int, 1, 1) == Some(v.spec_num_ranges())
            },
            r matches Err(e) ==> e == ReadError::OutOfBounds,
            r.is_err() == (spec_count2(data@, *args as int, 1, 1) is None || data@.len() < 1),
    {
        let num_glyphs = *args;
        let len: usize = data.len();
        let mut ranges_byte_len: usize = 0;
        let mut gid: u32 = 1;
        let mut pos: usize = 1;
        while gid < num_glyphs as u32
            invariant
                num_glyphs == *args,
                1 <= gid,
                pos == 1 + ranges_byte_len,
                ranges_byte_len % 4 == 0,
                ranges_byte_len > 0 ==> pos <= len,
                len == data@.len(),
                gid <= 0x2_0000,
                spec_count2(data@, num_glyphs as int, 1, 1) == match spec_count2(
                    data@,
                    num_glyphs as int,
                    gid as int,
                    pos as int,
                ) {
                    Some(c) => Some(ranges_byte_len as int / 4 + c),
                    None => None::<int>,
                },
            decreases (if gid < num_glyphs as u32 {
                num_glyphs as int - gid
            } else {
                0
            }),
        {
            if pos > len || len - pos < 4 {
                return Err(ReadError::OutOfBounds);
            }
            let n_left = data.get_u16(pos + 2);
            gid = gid + (n_left as u32) + 1;
            pos = pos + 4;
            ranges_byte_len = ranges_byte_len + 4;
        }
        if len >= 1 && ranges_byte_len <= len - 1 {
            Ok(CharsetsFormat2 { data, shape: CharsetsFormat2Marker { ranges_byte_len } })
        } else {
            Err(ReadError::OutOfBounds)
        }
    }

    /// A constructor that requires additional arguments: the total glyph
    /// count that bounds the walk.
    pub fn read(data: FontData, num_glyphs: u16) -> (r: Result<CharsetsFormat2, ReadError>)
        ensures
            r matches Ok(v) ==> {
                &&& v.wf()
                &&& v.spec_data() == data@
                &&& spec_count2(data@, num_glyphs as int, 1, 1) == Some(v.spec_num_ranges())
            },
            r matches Err(e) ==> e == ReadError::OutOfBounds,
            r.is_err() == (spec_count2(data@, num_glyphs as int, 1, 1) is None || data@.len() < 1),
    {
        let args = num_glyphs;
        Self::read_with_args(data, &args)
    }

    /// The format discriminant byte.
    pub fn format(&self) -> (r: u8)
        requires
            self.wf(),
        ensures
            r == self.spec_data()[0],
    {
        self.data.get_u8(0)
    }

    /// The decoded range array.
    pub fn ranges(&self) -> (r: Vec<CharsetsRange2>)
        requires
            self.wf(),
        ensures
            r@ == self.spec_ranges(),
    {
        let count: usize = self.shape.ranges_byte_len / 4;
        let mut out: Vec<CharsetsRange2> = Vec::new();
        let mut i: usize = 0;
        while i < count
            invariant
                self.wf(),
                count == self.spec_num_ranges(),
                4 * count == self.shape.spec_ranges_byte_len(),
                i <= count,
                out@.len() == i,
                forall|j: int| 0 <= j < i ==> out@[j] == self.spec_ranges()[j],
            decreases count - i,
        {
            let first = self.data.get_u16(1 + 4 * i);
            let n_left = self.data.get_u16(1 + 4 * i + 2);
            out.push(CharsetsRange2 { first, n_left });
            i = i + 1;
        }
        assert(out@ =~= self.spec_ranges());
        out
    }
}


/// A charset table of any of the three formats.
pub enum Charsets {
    Format0(CharsetsFormat0),
    Format1(CharsetsFormat1),
    Format2(CharsetsFormat2),
}

/// The SIDs contributed by one format-1 range: `n_left + 1` values counting
/// up from `first`.
pub open spec fn spec_block1(r: CharsetsRange1) -> Seq<u16> {
    Seq::new((r.n_left + 1) as nat, |j: int| (r.first + j) as u16)
}

/// The SIDs contributed by one format-2 range.
pub open spec fn spec_block2(r: CharsetsRange2) -> Seq<u16> {
    Seq::new((r.n_left + 1) as nat, |j: int| (r.first + j) as u16)
}

/// Every format-1 range expanded in order.
pub open spec fn spec_expand1(ranges: Seq<CharsetsRange1>) -> Seq<u16>
    decreases ranges.len(),
{
    if ranges.len() == 0 {
        Seq::empty()
    } else {
        spec_block1(ranges[0]) + spec_expand1(ranges.skip(1))
    }
}

/// Every format-2 range expanded in order.
pub open spec fn spec_expand2(ranges: Seq<CharsetsRange2>) -> Seq<u16>
    decreases ranges.len(),
{
    if ranges.len() == 0 {
        Seq::empty()
    } else {
        spec_block2(ranges[0]) + spec_expand2(ranges.skip(1))
    }
}

/// Expanding one more range appends its block.
proof fn lemma_expand1_push(s: Seq<CharsetsRange1>, x: CharsetsRange1)
    ensures
        spec_expand1(s.push(x)) == spec_expand1(s) + spec_block1(x),
    decreases s.len(),
{
    if s.len() == 0 {
        assert(s.push(x).skip(1) =~= Seq::<CharsetsRange1>::empty());
        assert(spec_expand1(Seq::<CharsetsRange1>::empty()) == Seq::<u16>::empty());
        assert(spec_expand1(s.push(x)) =~= spec_expand1(s) + spec_block1(x));
    } else {
        assert(s.push(x).skip(1) =~= s.skip(1).push(x));
        lemma_expand1_push(s.skip(1), x);
        assert(spec_expand1(s.push(x)) =~= spec_expand1(s) + spec_block1(x));
    }
}

/// Expanding one more range appends its block.
proof fn lemma_expand2_push(s: Seq<CharsetsRange2>, x: CharsetsRange2)
    ensures
        spec_expand2(s.push(x)) == spec_expand2(s) + spec_block2(x),
    decreases s.len(),
{
    if s.len() == 0 {
        assert(s.push(x).skip(1) =~= Seq::<CharsetsRange2>::empty());
        assert(spec_expand2(Seq::<CharsetsRange2>::empty()) == Seq::<u16>::empty());
        assert(spec_expand2(s.push(x)) =~= spec_expand2(s) + spec_block2(x));
    } else {
        assert(s.push(x).skip(1) =~= s.skip(1).push(x));
        lemma_expand2_push(s.skip(1), x);
        assert(spec_expand2(s.push(x)) =~= spec_expand2(s) + spec_block2(x));
    }
}

/// The first range of the scan order that covers internal index `gid`
/// yields `first + (gid - first)`; scanning past every range yields nothing.
pub open spec fn spec_sid_ranges1(ranges: Seq<CharsetsRange1>, gid: int) -> Option<u16>
    decreases ranges.len(),
{
    if ranges.len() == 0 {
        None
    } else {
        let r = ranges[0];
        if r.first <= gid && gid < r.first + r.n_left + 1 {
            Some((r.first + (gid - r.first)) as u16)
        } else {
            spec_sid_ranges1(ranges.skip(1), gid)
        }
    }
}

/// As `spec_sid_ranges1`, over format-2 ranges.
pub open spec fn spec_sid_ranges2(ranges: Seq<CharsetsRange2>, gid: int) -> Option<u16>
    decreases ranges.len(),
{
    if ranges.len() == 0 {
        None
    } else {
        let r = ranges[0];
        if r.first <= gid && gid < r.first + r.n_left + 1 {
            Some((r.first + (gid - r.first)) as u16)
        } else {
            spec_sid_ranges2(ranges.skip(1), gid)
        }
    }
}

impl Charsets {
    /// The view's declared range lies inside its buffer.
    pub open spec fn wf(&self) -> bool {
        match self {
            Charsets::Format0(t) => t.wf(),
            Charsets::Format1(t) => t.wf(),
            Charsets::Format2(t) => t.wf(),
        }
    }

    /// Every range's span stays inside the 16-bit SID space; trivially true
    /// for the explicit format.
    pub open spec fn ranges_fit(&self) -> bool {
        match self {
            Charsets::Format0(_) => true,
            Charsets::Format1(t) => forall|i: int|
                0 <= i < t.spec_ranges().len() ==> (#[trigger] t.spec_ranges()[i]).first
                    + t.spec_ranges()[i].n_left + 1 <= 65535,
            Charsets::Format2(t) => forall|i: int|
                0 <= i < t.spec_ranges().len() ==> (#[trigger] t.spec_ranges()[i]).first
                    + t.spec_ranges()[i].n_left + 1 <= 65535,
        }
    }

    /// What a successful dispatch hands back for these bytes and glyph
    /// count.
    pub open spec fn spec_read_ok(data: Seq<u8>, num_glyphs: u16, c: Charsets) -> bool {
        match c {
            Charsets::Format0(v) => data[0] == 0 && v.wf() && v.spec_data() == data
                && v.spec_num_sids() == spec_clamped_count(num_glyphs),
            Charsets::Format1(v) => data[0] == 1 && v.wf() && v.spec_data() == data && Some(
                v.spec_num_ranges(),
            ) == spec_count1(data, num_glyphs as int, 1, 1),
            Charsets::Format2(v) => data[0] == 2 && v.wf() && v.spec_data() == data && Some(
                v.spec_num_ranges(),
            ) == spec_count2(data, num_glyphs as int, 1, 1),
        }
    }

    /// Which error, if any, the dispatch yields for these bytes and glyph
    /// count; an unrecognized discriminant always fails, carrying its raw
    /// value.
    pub open spec fn spec_read_err(data: Seq<u8>, num_glyphs: u16) -> Option<ReadError> {
        if data.len() == 0 {
            Some(ReadError::OutOfBounds)
        } else if data[0] == 0 {
            if 1 + 2 * spec_clamped_count(num_glyphs) <= data.len() {
                None
            } else {
                Some(ReadError::OutOfBounds)
            }
        } else if data[0] == 1 {
            if spec_count1(data, num_glyphs as int, 1, 1) is Some {
                None
            } else {
                Some(ReadError::OutOfBounds)
            }
        } else if data[0] == 2 {
            if spec_count2(data, num_glyphs as int, 1, 1) is Some {
                None
            } else {
                Some(ReadError::OutOfBounds)
            }
        } else {
            Some(ReadError::InvalidFormat(data[0] as u32))
        }
    }

    /// Read the format discriminant and construct the matching variant;
    /// exactly the known formats 0, 1 and 2 are accepted.
    pub fn read(data: FontData, num_glyphs: u16) -> (r: Result<Charsets, ReadError>)
        ensures
            r matches Ok(c) ==> Self::spec_read_err(data@, num_glyphs) is None
                && Self::spec_read_ok(data@, num_glyphs, c),
            r matches Err(e) ==> Self::spec_read_err(data@, num_glyphs) == Some(e),
    {
        let format: u8 = match data.read_u8_at(0) {
            Ok(b) => b,
            Err(e) => {
                return Err(e);
            },
        };
        match format {
            0u8 => match CharsetsFormat0::read(data, num_glyphs) {
                Ok(v) => Ok(Charsets::Format0(v)),
                Err(e) => Err(e),
            },
            1u8 => match CharsetsFormat1::read(data, num_glyphs) {
                Ok(v) => Ok(Charsets::Format1(v)),
                Err(e) => Err(e),
            },
            2u8 => match CharsetsFormat2::read(data, num_glyphs) {
                Ok(v) => Ok(Charsets::Format2(v)),
                Err(e) => Err(e),
            },
            other => Err(ReadError::InvalidFormat(other as u32)),
        }
    }

    /// The SID assigned to a glyph.  The internal index is the glyph
    /// identifier less one, and an internal index of exactly zero always
    /// yields SID 0.
    pub open spec fn spec_sid(&self, glyph_id: u16) -> Option<u16> {
        let gid = glyph_id - 1;
        if gid == 0 {
            Some(0)
        } else {
            match self {
                Charsets::Format0(t) => if gid < t.spec_sids().len() {
                    Some(t.spec_sids()[gid])
                } else {
                    None
                },
                Charsets::Format1(t) => spec_sid_ranges1(t.spec_ranges(), gid),
                Charsets::Format2(t) => spec_sid_ranges2(t.spec_ranges(), gid),
            }
        }
    }

    /// Look up the SID for a glyph identifier, or nothing when no range
    /// covers it.  Identifier 0 is reserved and not accepted; range spans
    /// are compared in wide arithmetic, so they never wrap.
    pub fn sid(&self, glyph_id: GlyphId) -> (r: Option<u16>)
        requires
            self.wf(),
            glyph_id.spec_to_u16() >= 1,
        ensures
            r == self.spec_sid(glyph_id.spec_to_u16()),
    {
        let gid: u16 = glyph_id.to_u16() - 1;

        if gid == 0 {
            return Some(0);
        }
        match self {
            Charsets::Format0(sids) => {
                let sids_vec = sids.glyph();
                if (gid as usize) < sids_vec.len() {
                    Some(sids_vec[gid as usize])
                } else {
                    None
                }
            },
            Charsets::Format1(t) => {
                let ranges = t.ranges();
                let ghost rs = t.spec_ranges();
                let ghost g = glyph_id.spec_to_u16();
                assert(rs.skip(0) =~= rs);
                let mut i: usize = 0;
                while i < ranges.len()
                    invariant
                        ranges@ == rs,
                        i <= rs.len(),
                        gid >= 1,
                        gid == g - 1,
                        self.spec_sid(g) == spec_sid_ranges1(rs.skip(i as int), gid as int),
                        glyph_id.spec_to_u16() == g,
                    decreases rs.len() - i,
                {
                    let first: u16 = ranges[i].first;
                    let last: u32 = first as u32 + ranges[i].n_left as u32 + 1;
                    if gid >= first && (gid as u32) < last {
                        return Some(first + (gid - first));
                    }
                    proof {
                        assert(rs.skip(i as int).skip(1) =~= rs.skip(i as int + 1));
                    }
                    i = i + 1;
                }
                proof {
                    assert(rs.skip(rs.len() as int) =~= Seq::<CharsetsRange1>::empty());
                }
                None
            },
            Charsets::Format2(t) => {
                let ranges = t.ranges();
                let ghost rs = t.spec_ranges();
                let ghost g = glyph_id.spec_to_u16();
                assert(rs.skip(0) =~= rs);
                let mut i: usize = 0;
                while i < ranges.len()
                    invariant
                        ranges@ == rs,
                        i <= rs.len(),
                        gid >= 1,
                        gid == g - 1,
                        self.spec_sid(g) == spec_sid_ranges2(rs.skip(i as int), gid as int),
                        glyph_id.spec_to_u16() == g,
                    decreases rs.len() - i,
                {
                    let first: u16 = ranges[i].first;
                    let last: u32 = first as u32 + ranges[i].n_left as u32 + 1;
                    if gid >= first && (gid as u32) < last {
                        return Some(first + (gid - first));
                    }
                    proof {
                        assert(rs.skip(i as int).skip(1) =~= rs.skip(i as int + 1));
                    }
                    i = i + 1;
                }
                proof {
                    assert(rs.skip(rs.len() as int) =~= Seq::<CharsetsRange2>::empty());
                }
                None
            },
        }
    }

    /// The full GID-to-SID array: index 0 holds the implicit SID 0, then
    /// every range (or the explicit array) expanded in order.
    pub open spec fn spec_glyph_order(&self) -> Seq<u16> {
        match self {
            Charsets::Format0(t) => seq![0u16] + t.spec_sids(),
            Charsets::Format1(t) => seq![0u16] + spec_expand1(t.spec_ranges()),
            Charsets::Format2(t) => seq![0u16] + spec_expand2(t.spec_ranges()),
        }
    }

    /// Build the GID-to-SID array by expanding every range in order,
    /// prefixed with the implicit SID 0 for the reserved glyph.
    pub fn glyph_order(&self) -> (r: Vec<u16>)
        requires
            self.wf(),
            self.ranges_fit(),
        ensures
            r@ == self.spec_glyph_order(),
    {
        match self {
            Charsets::Format0(t) => {
                let sids = t.glyph();
                let ghost ss = t.spec_sids();
                let mut out: Vec<u16> = Vec::new();
                out.push(0);
                let mut i: usize = 0;
                while i < sids.len()
                    invariant
                        sids@ == ss,
                        i <= ss.len(),
                        out@.len() == 1 + i,
                        out@[0] == 0u16,
                        forall|j: int| 0 <= j < i ==> out@[1 + j] == ss[j],
                    decreases ss.len() - i,
                {
                    out.push(sids[i]);
                    i = i + 1;
                }
                assert(out@ =~= seq![0u16] + ss);
                out
            },
            Charsets::Format1(t) => {
                let ranges = t.ranges();
                let ghost rs = t.spec_ranges();
                let mut out: Vec<u16> = Vec::new();
                out.push(0);
                assert(rs.take(0) =~= Seq::<CharsetsRange1>::empty());
                assert(spec_expand1(Seq::<CharsetsRange1>::empty()) == Seq::<u16>::empty());
                assert(out@ =~= seq![0u16] + spec_expand1(rs.take(0)));
                let mut i: usize = 0;
                while i < ranges.len()
                    invariant
                        ranges@ == rs,
                        i <= rs.len(),
                        forall|k: int| 0 <= k < rs.len() ==> (#[trigger] rs[k]).first + rs[k].n_left
                            + 1 <= 65535,
                        out@ == seq![0u16] + spec_expand1(rs.take(i as int)),
                    decreases rs.len() - i,
                {
                    let first: u16 = ranges[i].first;
                    let n_left: u8 = ranges[i].n_left;
                    let ghost base = out@;
                    assert(out@ =~= base + Seq::new(0, |t: int| (first + t) as u16));
                    let mut j: u16 = 0;
                    while j < n_left as u16 + 1
                        invariant
                            j <= n_left as u16 + 1,
                            first + n_left + 1 <= 65535,
                            out@ == base + Seq::new(j as nat, |t: int| (first + t) as u16),
                        decreases n_left as int + 1 - j,
                    {
                        out.push(first + j);
                        assert(out@ =~= base + Seq::new((j + 1) as nat, |t: int| (first + t) as u16));
                        j = j + 1;
                    }
                    proof {
                        assert(Seq::new((n_left + 1) as nat, |t: int| (first + t) as u16)
                            =~= spec_block1(rs[i as int]));
                        lemma_expand1_push(rs.take(i as int), rs[i as int]);
                        assert(rs.take(i as int).push(rs[i as int]) =~= rs.take(i as int + 1));
                        assert(out@ =~= seq![0u16] + spec_expand1(rs.take(i as int + 1)));
                    }
                    i = i + 1;
                }
                proof {
                    assert(rs.take(rs.len() as int) =~= rs);
                }
                out
            },
            Charsets::Format2(t) => {
                let ranges = t.ranges();
                let ghost rs = t.spec_ranges();
                let mut out: Vec<u16> = Vec::new();
                out.push(0);
                assert(rs.take(0) =~= Seq::<CharsetsRange2>::empty());
                assert(spec_expand2(Seq::<CharsetsRange2>::empty()) == Seq::<u16>::empty());
                assert(out@ =~= seq![0u16] + spec_expand2(rs.take(0)));
                let mut i: usize = 0;
                while i < ranges.len()
                    invariant
                        ranges@ == rs,
                        i <= rs.len(),
                        forall|k: int| 0 <= k < rs.len() ==> (#[trigger] rs[k]).first + rs[k].n_left
                            + 1 <= 65535,
                        out@ == seq![0u16] + spec_expand2(rs.take(i as int)),
                    decreases rs.len() - i,
                {
                    let first: u16 = ranges[i].first;
                    let n_left: u16 = ranges[i].n_left;
                    let ghost base = out@;
                    assert(out@ =~= base + Seq::new(0, |t: int| (first + t) as u16));
                    let mut j: u32 = 0;
                    while j < n_left as u32 + 1
                        invariant
                            j <= n_left as u32 + 1,
                            first + n_left + 1 <= 65535,
                            out@ == base + Seq::new(j as nat, |t: int| (first + t) as u16),
                        decreases n_left as int + 1 - j,
                    {
                        out.push(first + (j as u16));
                        assert(out@ =~= base + Seq::new((j + 1) as nat, |t: int| (first + t) as u16));
                        j = j + 1;
                    }
                    proof {
                        assert(Seq::new((n_left + 1) as nat, |t: int| (first + t) as u16)
                            =~= spec_block2(rs[i as int]));
                        lemma_expand2_push(rs.take(i as int), rs[i as int]);
                        assert(rs.take(i as int).push(rs[i as int]) =~= rs.take(i as int + 1));
                        assert(out@ =~= seq![0u16] + spec_expand2(rs.take(i as int + 1)));
                    }
                    i = i + 1;
                }
                proof {
                    assert(rs.take(rs.len() as int) =~= rs);
                }
                out
            },
        }
    }
}

} // verus!
