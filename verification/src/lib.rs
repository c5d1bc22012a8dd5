//! Streaming ingestion of NMEA-0183 text from a GPS receiver.
//!
//! Raw bytes are framed into lines, every line is kept in a bounded rolling
//! log, and satellites-in-view (GSV) sentences are decoded into satellite
//! records that replace the published snapshot once per read cycle.

pub mod fields;
pub mod gsv;
pub mod log;
pub mod framing;
pub mod state;
pub mod session;
