//! Decoders for consumer infrared remote-control signals.
//!
//! A hardware IR front-end delivers a stream of edge events: the polarity of
//! each transition of the demodulated carrier envelope together with the time
//! elapsed since the previous edge, measured in sampler ticks.  The decoders
//! here turn that stream into protocol frames (address, command, repeat flag)
//! in constant memory, with no allocation and no floating point.

use vstd::prelude::*;

pub mod laws;
pub mod multireceiver;
pub mod nec;
pub mod ranges;
pub mod rc5;
pub mod receiver;

verus! {

/// A decode error local to one frame: a pulse width that matches no symbol
/// expected in the current state.  The frame is discarded and the decoder
/// waits for a reset.
#[derive(Debug, Clone, Copy, PartialEq, Eq, Structural)]
pub enum Error {
    Data,
}

/// The status a consumer polls between events.
#[derive(Debug, Clone, Copy, PartialEq, Eq, Structural)]
pub enum Status {
    /// Waiting for the first pulse of a frame.
    Idle,
    /// Inside a frame.
    Receiving,
    /// A complete frame has been received.
    Done,
    /// The current frame was rejected.
    Error(Error),
}

} // verus!
