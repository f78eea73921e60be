//! The codec in the shape of its SSSE3 form: sixteen-byte lanes, byte
//! shuffles driven by the lookup tables, eight values per encoding step, and
//! hooks for a transform of the values.
//!
//! The lanes are those of [`crate::lanes`], in portable code: nothing here
//! depends on the processor.
pub mod decode;
pub mod encode;
