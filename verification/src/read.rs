//! A bounds-checked, immutable window over font bytes, with sequential
//! extraction helpers shared by every table reader.

use vstd::prelude::*;

verus! {

/// Why a read failed.
#[derive(Clone, Copy, Debug, PartialEq, Eq, Structural)]
pub enum ReadError {
    /// A read would have run past the end of the buffer.
    OutOfBounds,
    /// A format discriminant was none of the known values; carries the raw tag.
    InvalidFormat(u32),
    /// A supplied argument is inconsistent with the declared layout.
    InvalidArgument,
}

/// The big-endian unsigned 16-bit value of two bytes.
pub open spec fn be_u16(hi: u8, lo: u8) -> u16 {
    (hi * 256 + lo) as u16
}

/// The signed reading of an unsigned 16-bit value (two's complement).
pub open spec fn i16_of_u16(v: u16) -> i16 {
    if v < 32768 {
        v as i16
    } else {
        (v - 65536) as i16
    }
}

/// The unsigned carrier of a signed 16-bit value (two's complement).
pub open spec fn u16_of_i16(v: i16) -> u16 {
    if v >= 0 {
        v as u16
    } else {
        (v + 65536) as u16
    }
}

/// The two big-endian bytes of an unsigned 16-bit value.
pub open spec fn be_bytes_of_u16(v: u16) -> Seq<u8> {
    seq![(v / 256) as u8, (v % 256) as u8]
}

/// The two big-endian bytes of a signed 16-bit value.
pub open spec fn be_bytes_of_i16(v: i16) -> Seq<u8> {
    be_bytes_of_u16(u16_of_i16(v))
}

/// The four big-endian bytes of an unsigned 32-bit value.
pub open spec fn be_bytes_of_u32(v: u32) -> Seq<u8> {
    seq![
        (v / 0x1000000) as u8,
        ((v / 0x10000) % 256) as u8,
        ((v / 256) % 256) as u8,
        (v % 256) as u8,
    ]
}

/// A 16-bit signed value survives its two-byte big-endian encoding.
pub proof fn lemma_i16_round_trip(v: i16)
    ensures
        i16_of_u16(be_u16(be_bytes_of_i16(v)[0], be_bytes_of_i16(v)[1])) == v,
{
}

/// Convert an unsigned 16-bit carrier to its signed reading.
pub fn i16_from_u16(v: u16) -> (r: i16)
    ensures
        r == i16_of_u16(v),
{
    if v < 32768 {
        v as i16
    } else {
        ((v as i32) - 65536) as i16
    }
}

/// Convert a signed 16-bit value to its unsigned carrier.
pub fn u16_from_i16(v: i16) -> (r: u16)
    ensures
        r == u16_of_i16(v),
{
    if v >= 0 {
        v as u16
    } else {
        ((v as i32) + 65536) as u16
    }
}

/// An immutable byte buffer addressed by absolute offsets; every read is
/// bounds-checked and total.
pub struct FontData {
    bytes: Vec<u8>,
}

impl View for FontData {
    type V = Seq<u8>;

    closed spec fn view(&self) -> Seq<u8> {
        self.bytes@
    }
}

impl FontData {
    /// Wrap an owned byte buffer.
    pub fn new(bytes: Vec<u8>) -> (r: FontData)
        ensures
            r@ == bytes@,
    {
        FontData { bytes }
    }

    /// The number of bytes in the window.
    pub fn len(&self) -> (r: usize)
        ensures
            r == self@.len(),
    {
        self.bytes.len()
    }

    /// Read one byte at a position the caller has proven in bounds.
    pub fn get_u8(&self, pos: usize) -> (r: u8)
        requires
            pos < self@.len(),
        ensures
            r == self@[pos as int],
    {
        self.bytes[pos]
    }

    /// Read a big-endian `u16` at a position the caller has proven in bounds.
    pub fn get_u16(&self, pos: usize) -> (r: u16)
        requires
            pos + 2 <= self@.len(),
        ensures
            r == be_u16(self@[pos as int], self@[pos as int + 1]),
    {
        let n: usize = self.bytes.len();
        assert(pos + 2 <= n);
        let hi = self.bytes[pos];
        let lo = self.bytes[pos + 1];
        (hi as u16) * 256 + (lo as u16)
    }

    /// Read a big-endian `i16` at a position the caller has proven in bounds.
    pub fn get_i16(&self, pos: usize) -> (r: i16)
        requires
            pos + 2 <= self@.len(),
        ensures
            r == i16_of_u16(be_u16(self@[pos as int], self@[pos as int + 1])),
    {
        i16_from_u16(self.get_u16(pos))
    }

    /// Read one byte at `pos`, failing if `pos` is past the end.
    pub fn read_u8_at(&self, pos: usize) -> (r: Result<u8, ReadError>)
        ensures
            pos < self@.len() ==> r == Ok::<u8, ReadError>(self@[pos as int]),
            pos >= self@.len() ==> r == Err::<u8, ReadError>(ReadError::OutOfBounds),
    {
        if pos < self.bytes.len() {
            Ok(self.bytes[pos])
        } else {
            Err(ReadError::OutOfBounds)
        }
    }

    /// Read a big-endian `u16` at `pos`, failing if it would run past the end.
    pub fn read_u16_at(&self, pos: usize) -> (r: Result<u16, ReadError>)
        ensures
            pos + 2 <= self@.len() ==> r == Ok::<u16, ReadError>(
                be_u16(self@[pos as int], self@[pos as int + 1]),
            ),
            pos + 2 > self@.len() ==> r == Err::<u16, ReadError>(ReadError::OutOfBounds),
    {
        if self.bytes.len() >= 2 && pos <= self.bytes.len() - 2 {
            let hi = self.bytes[pos];
            let lo = self.bytes[pos + 1];
            Ok((hi as u16) * 256 + (lo as u16))
        } else {
            Err(ReadError::OutOfBounds)
        }
    }

    /// Read a big-endian `i16` at `pos`, failing if it would run past the end.
    pub fn read_i16_at(&self, pos: usize) -> (r: Result<i16, ReadError>)
        ensures
            pos + 2 <= self@.len() ==> r == Ok::<i16, ReadError>(
                i16_of_u16(be_u16(self@[pos as int], self@[pos as int + 1])),
            ),
            pos + 2 > self@.len() ==> r == Err::<i16, ReadError>(ReadError::OutOfBounds),
    {
        match self.read_u16_at(pos) {
            Ok(v) => Ok(i16_from_u16(v)),
            Err(e) => Err(e),
        }
    }
}

/// A position for sequential extraction from a `FontData`.
pub struct Cursor {
    pos: usize,
}

impl View for Cursor {
    type V = int;

    closed spec fn view(&self) -> int {
        self.pos as int
    }
}

impl Cursor {
    /// A cursor at the start of the buffer.
    pub fn new() -> (r: Cursor)
        ensures
            r@ == 0,
    {
        Cursor { pos: 0 }
    }

    /// The current position.
    pub fn position(&self) -> (r: usize)
        ensures
            r == self@,
    {
        self.pos
    }

    /// Skip `n` bytes without reading them.
    pub fn advance(&mut self, n: usize)
        requires
            old(self)@ + n <= usize::MAX,
        ensures
            final(self)@ == old(self)@ + n,
    {
        self.pos = self.pos + n;
    }

    /// Read the byte under the cursor and step past it; on failure the
    /// cursor does not move.
    pub fn read_u8(&mut self, data: &FontData) -> (r: Result<u8, ReadError>)
        ensures
            old(self)@ + 1 <= data@.len() ==> r == Ok::<u8, ReadError>(data@[old(self)@])
                && final(self)@ == old(self)@ + 1,
            old(self)@ + 1 > data@.len() ==> r == Err::<u8, ReadError>(ReadError::OutOfBounds)
                && final(self)@ == old(self)@,
    {
        let n: usize = data.len();
        match data.read_u8_at(self.pos) {
            Ok(v) => {
                assert(self.pos < n);
                self.pos = self.pos + 1;
                Ok(v)
            },
            Err(e) => Err(e),
        }
    }

    /// Read a big-endian `u16` under the cursor and step past it; on failure
    /// the cursor does not move.
    pub fn read_u16(&mut self, data: &FontData) -> (r: Result<u16, ReadError>)
        ensures
            old(self)@ + 2 <= data@.len() ==> r == Ok::<u16, ReadError>(
                be_u16(data@[old(self)@], data@[old(self)@ + 1]),
            ) && final(self)@ == old(self)@ + 2,
            old(self)@ + 2 > data@.len() ==> r == Err::<u16, ReadError>(ReadError::OutOfBounds)
                && final(self)@ == old(self)@,
    {
        let n: usize = data.len();
        match data.read_u16_at(self.pos) {
            Ok(v) => {
                assert(self.pos + 2 <= n);
                self.pos = self.pos + 2;
                Ok(v)
            },
            Err(e) => Err(e),
        }
    }

    /// Read a big-endian `i16` under the cursor and step past it; on failure
    /// the cursor does not move.
    pub fn read_i16(&mut self, data: &FontData) -> (r: Result<i16, ReadError>)
        ensures
            old(self)@ + 2 <= data@.len() ==> r == Ok::<i16, ReadError>(
                i16_of_u16(be_u16(data@[old(self)@], data@[old(self)@ + 1])),
            ) && final(self)@ == old(self)@ + 2,
            old(self)@ + 2 > data@.len() ==> r == Err::<i16, ReadError>(ReadError::OutOfBounds)
                && final(self)@ == old(self)@,
    {
        let n: usize = data.len();
        match data.read_i16_at(self.pos) {
            Ok(v) => {
                assert(self.pos + 2 <= n);
                self.pos = self.pos + 2;
                Ok(v)
            },
            Err(e) => Err(e),
        }
    }
}

} // verus!
