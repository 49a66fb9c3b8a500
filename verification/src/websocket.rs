use vstd::prelude::*;

verus! {

/// The WebSocket side of the ground station: every connected client receives
/// each new frame as one binary message, built by
/// [`crate::frame::outgoing_message`], after a [`crate::frame::FrameTracker`]
/// has found it fresh.
#[derive(Clone, Copy, Debug)]
pub struct Socket {}

} // verus!
