//! The lookup tables that drive the lane codecs.
pub mod compact;
pub mod len;
pub mod shuffle;
