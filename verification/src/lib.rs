//! A bidirectional binary codec for OpenType font table formats.
//!
//! The read path turns raw font bytes into validated table views through a
//! bounds-checked byte window; the write path builds owned table graphs and
//! serializes them, resolving offsets to nested data in a deterministic
//! layout pass.  Malformed input is rejected, never repaired.

pub mod read;
pub mod topdict;
pub mod charsets;
pub mod glyf;
pub mod gvar;
pub mod hmtx;
pub mod name;
pub mod valuerecord;
pub mod writer;
