//! Session layer of a network video protocol: frame framing over a byte
//! stream, the capability handshake, per-peer state, the fan-out decisions of
//! a producer and the bounded ingest queues of a consumer.
//!
//! The library opens no socket and starts no thread. A producer's event
//! loop and a consumer's reader thread feed it what they read and carry out
//! what it decides.

pub mod clock;
pub mod error;
pub mod io;
pub mod recv;
pub mod source;

pub use error::Error;
pub use recv::Recv;
pub use source::config::{name, SERVICE_TYPE};
pub use source::peer::HANDSHAKE_TIMEOUT_MS;
pub use source::Source;

use vstd::prelude::*;

verus! {

/// The version of the SDK that a consumer announces.
pub const SDK_VERSION: &'static str = "5.1.1";

/// The platform that a consumer announces.
pub const SDK_PLATFORM: &'static str = "LINUX";

} // verus!
