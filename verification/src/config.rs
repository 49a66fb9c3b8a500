use vstd::prelude::*;

verus! {

/// The ground station's settings.
#[derive(Debug)]
pub struct Config {
    /// The serial device that the flight computer is attached to.
    pub terminal: String,
    /// The serial line's speed.
    pub baudrate: u32,
    /// Hosts that receive every frame over TCP from the start.
    pub tcp_subscribers: Vec<String>,
    /// The port on subscribers that frames are sent to.
    pub tcp_txport: u32,
    /// The port on which commands and subscription requests arrive.
    pub tcp_rxport: u32,
    /// The port of the WebSocket server.
    pub socket_port: u32,
    /// How long, in milliseconds, a consumer waits before looking for a new frame again.
    pub timeout: u32,
}

} // verus!
