//! The write path's byte sink and validation report.  Tables append their
//! scalar fields in declaration order; offsets to nested data are computed
//! in a size pass and written where the header expects them, so a
//! serialized table is laid out in one deterministic pass.  Validation
//! collects every structural violation before any bytes are emitted.

use vstd::prelude::*;

use crate::read::{be_bytes_of_i16, be_bytes_of_u16, be_bytes_of_u32};

verus! {

/// An append-only byte buffer for one serialization call.
pub struct TableWriter {
    data: Vec<u8>,
}

impl View for TableWriter {
    type V = Seq<u8>;

    closed spec fn view(&self) -> Seq<u8> {
        self.data@
    }
}

impl TableWriter {
    /// An empty writer.
    pub fn new() -> (r: TableWriter)
        ensures
            r@ == Seq::<u8>::empty(),
    {
        TableWriter { data: Vec::new() }
    }

    /// The number of bytes written so far.
    pub fn len(&self) -> (r: usize)
        ensures
            r == self@.len(),
    {
        self.data.len()
    }

    /// Hand the accumulated bytes out.
    pub fn into_data(self) -> (r: Vec<u8>)
        ensures
            r@ == self@,
    {
        self.data
    }

    /// Append one byte.
    pub fn write_u8(&mut self, v: u8)
        ensures
            final(self)@ == old(self)@.push(v),
    {
        self.data.push(v);
    }

    /// Append a `u16`, big-endian.
    pub fn write_u16(&mut self, v: u16)
        ensures
            final(self)@ == old(self)@ + be_bytes_of_u16(v),
    {
        self.data.push((v / 256) as u8);
        self.data.push((v % 256) as u8);
        assert(self.data@ =~= old(self)@ + be_bytes_of_u16(v));
    }

    /// Append an `i16`, big-endian, two's complement.
    pub fn write_i16(&mut self, v: i16)
        ensures
            final(self)@ == old(self)@ + be_bytes_of_i16(v),
    {
        let u = crate::read::u16_from_i16(v);
        self.write_u16(u);
    }

    /// Append a `u32`, big-endian.
    pub fn write_u32(&mut self, v: u32)
        ensures
            final(self)@ == old(self)@ + be_bytes_of_u32(v),
    {
        self.data.push((v / 0x1000000) as u8);
        self.data.push(((v / 0x10000) % 256) as u8);
        self.data.push(((v / 256) % 256) as u8);
        self.data.push((v % 256) as u8);
        assert(self.data@ =~= old(self)@ + be_bytes_of_u32(v));
    }

    /// Append a borrowed byte slice whole.
    pub fn write_bytes(&mut self, bytes: &[u8])
        ensures
            final(self)@ == old(self)@ + bytes@,
    {
        let n: usize = bytes.len();
        let mut i: usize = 0;
        while i < n
            invariant
                n == bytes@.len(),
                i <= n,
                self.data@ == old(self).data@ + bytes@.take(i as int),
            decreases n - i,
        {
            let b: u8 = *vstd::slice::slice_index_get(bytes, i);
            self.data.push(b);
            assert(self.data@ =~= old(self).data@ + bytes@.take(i as int + 1));
            i = i + 1;
        }
        assert(self.data@ =~= old(self)@ + bytes@);
    }
}

/// A typed forward reference that owns its child table until the layout
/// pass resolves it to a byte distance from its documented base.
#[derive(Clone, Debug)]
pub struct OffsetMarker<T> {
    obj: T,
}

impl<T> OffsetMarker<T> {
    /// The owned child, as a spec-level projection.
    pub closed spec fn spec_obj(&self) -> T {
        self.obj
    }

    /// Wrap a child table.
    pub fn new(obj: T) -> (r: OffsetMarker<T>)
        ensures
            r.spec_obj() == obj,
    {
        OffsetMarker { obj }
    }

    /// Borrow the owned child.
    pub fn get(&self) -> (r: &T)
        ensures
            *r == self.spec_obj(),
    {
        &self.obj
    }
}

/// One structural violation found before serialization.
#[derive(Clone, Copy, Debug, PartialEq, Eq, Structural)]
pub enum Violation {
    /// An array is longer than its 16-bit count field can carry.
    ArrayExceedsMaxLength,
    /// A field required from a table version on is absent; carries the
    /// version that demands it.
    MissingVersionedField(u16),
}

/// The collected violations of one pre-write check: every problem is
/// reported, none stops the walk early.
pub struct ValidationCtx {
    violations: Vec<Violation>,
}

impl View for ValidationCtx {
    type V = Seq<Violation>;

    closed spec fn view(&self) -> Seq<Violation> {
        self.violations@
    }
}

impl ValidationCtx {
    /// An empty report.
    pub fn new() -> (r: ValidationCtx)
        ensures
            r@ == Seq::<Violation>::empty(),
    {
        ValidationCtx { violations: Vec::new() }
    }

    /// Record one violation.
    pub fn report(&mut self, v: Violation)
        ensures
            final(self)@ == old(self)@.push(v),
    {
        self.violations.push(v);
    }

    /// Whether the walk found nothing wrong; only then may bytes be
    /// emitted.
    pub fn is_empty(&self) -> (r: bool)
        ensures
            r == (self@.len() == 0),
    {
        self.violations.len() == 0
    }

    /// The violations found so far.
    pub fn violations(&self) -> (r: &Vec<Violation>)
        ensures
            r@ == self@,
    {
        &self.violations
    }
}

} // verus!
