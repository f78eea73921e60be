//! The codec in the shape of its NEON form: sixteen-byte lanes, table lookups
//! driven by the lookup tables, four values per encoding step.
//!
//! The lanes are those of [`crate::lanes`], in portable code: nothing here
//! depends on the processor.
pub mod decode;
pub mod encode;
