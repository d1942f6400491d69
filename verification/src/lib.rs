//! Client library for an RTSP-style control protocol used to negotiate a
//! streaming session with an AirPlay receiver.
//!
//! The library covers the pure protocol logic: decoding discovery records
//! into a typed device description, encoding requests into wire frames,
//! incrementally parsing response frames out of a byte stream, and the
//! bookkeeping that correlates concurrent requests with their responses.
//! Socket handling and task scheduling are left to the embedding program.

pub mod discovery;
pub mod features;
pub mod plist_codec;
pub mod rtsp;
pub mod text;

pub use discovery::AirPlayReceiverMediaRemoteMeta;
pub use discovery::AirPlayReceiverMeta;
pub use features::AirPlayFeatures;
pub use features::is_bit_set;
