//! Verified core of a smart-bed firmware gateway: the wire codec for the
//! telemetry stream, the typed sensor-record schema, the per-connection
//! telemetry session decoder with batch persistence and item decoding, and
//! the command-channel logic that frames firmware control commands.

pub mod codec;
pub mod command;
pub mod hexfmt;
pub mod schema;
pub mod session;
