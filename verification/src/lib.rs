//! Ground-station data handling: framing of serial-port records, decoding of
//! telemetry frames, subscriber bookkeeping for TCP fan-out, and parsing of
//! raw ADS-B receiver output.

pub mod adsb;
pub mod bytes;
pub mod client;
pub mod config;
pub mod decoder;
pub mod frame;
pub mod gps;
pub mod latest;
pub mod tcptx;
pub mod telemetry;
pub mod text;
pub mod websocket;
