//! The scalar codec: works on every target, and decodes the tail of the
//! vector decoders.
pub mod decode;
pub mod encode;

pub use decode::decode;
pub use encode::encode;
