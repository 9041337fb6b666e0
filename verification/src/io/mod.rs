//! Wire-level model: frames, their encoding, and the framing of a byte
//! stream.

pub mod frame;
pub mod stream;
pub mod wire;

pub use stream::Stream;
