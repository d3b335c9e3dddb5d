//! Platform-independent operational core of the studio: broadcast reliability
//! decisions, output profiles, the chunk spool, recording headers and the
//! text handling used for diagnostics and transport targets.
pub mod reliability;
pub mod text;
pub mod diagnostics;
pub mod profile;
pub mod transport;
pub mod encoder;
pub mod credentials;
pub mod spool;
pub mod recording;
pub mod session;
pub mod devices;

use vstd::prelude::*;

verus! {

/// Sample rate of the internal programme bus, in Hz.
pub const INTERNAL_SAMPLE_RATE: u32 = 48_000;

/// Number of channels of the internal programme bus.
pub const INTERNAL_CHANNELS: u8 = 2;

} // verus!
