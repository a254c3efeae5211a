//! Event-driven receiver adapters: each wraps a decoder state machine, feeds
//! it edge events, extracts the command when a frame completes and resets the
//! decoder afterwards and on any error.

use vstd::prelude::*;

use crate::nec::{
    spec_command, spec_event, spec_fresh, spec_nec_ranges, spec_reset, InternalStatus, NecCommand,
    NecReceiverState,
};
use crate::rc5::{
    spec_rc5_command, spec_rc5_event, spec_rc5_fresh, spec_rc5_ranges, spec_rc5_reset,
    Rc5Command, Rc5InternalStatus, Rc5ReceiverState,
};
use crate::Error;

verus! {

/// What one NEC receiver event does: the state after the call and the value
/// returned.  A completed frame is unpacked and the decoder reset; a rejected
/// frame resets the decoder and surfaces the error; anything else leaves the
/// decoder mid-frame and returns no command.
pub open spec fn spec_nec_receiver_event(s: NecReceiverState, dt: u32, rising: bool) -> (
    NecReceiverState,
    Result<Option<NecCommand>, Error>,
) {
    let s1 = spec_event(s, rising, dt);
    match s1.status {
        InternalStatus::Done => (spec_reset(s1), Ok(spec_command(s1))),
        InternalStatus::RepeatDone => (spec_reset(s1), Ok(spec_command(s1))),
        InternalStatus::Error(e) => (spec_reset(s1), Err(e)),
        _ => (s1, Ok(None)),
    }
}

/// An event-driven receiver over the NEC decoder.
#[derive(Debug, Clone, Copy, PartialEq, Eq, Structural)]
pub struct NecReceiver {
    pub state: NecReceiverState,
}

impl NecReceiver {
    /// A receiver for the given sampler frequency.  Fails when the frequency
    /// collapses an acceptance window.
    pub fn new(res: u32) -> (r: Option<NecReceiver>)
        ensures
            spec_nec_ranges(res).wf() ==> r == Some(
                NecReceiver { state: spec_fresh(spec_nec_ranges(res)) },
            ),
            !spec_nec_ranges(res).wf() ==> r == None::<NecReceiver>,
            r matches Some(x) ==> x.state.wf(),
    {
        match NecReceiverState::create(res) {
            Some(state) => Some(NecReceiver { state }),
            None => None,
        }
    }

    /// Feeds one edge event and hands out the decoded command as soon as a
    /// frame completes.  The decoder is reset after a completed frame and
    /// after a rejected one, so the next frame starts clean.
    pub fn event(&mut self, dt: u32, rising: bool) -> (r: Result<Option<NecCommand>, Error>)
        requires
            old(self).state.wf(),
        ensures
            final(self).state == spec_nec_receiver_event(old(self).state, dt, rising).0,
            r == spec_nec_receiver_event(old(self).state, dt, rising).1,
            final(self).state.wf(),
    {
        let st = self.state.event(rising, dt);
        match st {
            InternalStatus::Done => {
                let cmd = self.state.command();
                self.state.reset();
                Ok(cmd)
            },
            InternalStatus::RepeatDone => {
                let cmd = self.state.command();
                self.state.reset();
                Ok(cmd)
            },
            InternalStatus::Error(e) => {
                self.state.reset();
                Err(e)
            },
            _ => Ok(None),
        }
    }
}

/// What one RC-5 receiver event does, in the same shape as the NEC one.
pub open spec fn spec_rc5_receiver_event(s: Rc5ReceiverState, dt: u32, rising: bool) -> (
    Rc5ReceiverState,
    Result<Option<Rc5Command>, Error>,
) {
    let s1 = spec_rc5_event(s, rising, dt);
    match s1.status {
        Rc5InternalStatus::Done => (spec_rc5_reset(s1), Ok(spec_rc5_command(s1))),
        Rc5InternalStatus::Error(e) => (spec_rc5_reset(s1), Err(e)),
        _ => (s1, Ok(None)),
    }
}

/// An event-driven receiver over the RC-5 decoder.
#[derive(Debug, Clone, Copy, PartialEq, Eq, Structural)]
pub struct Rc5Receiver {
    pub state: Rc5ReceiverState,
}

impl Rc5Receiver {
    /// A receiver for the given sampler frequency.  Fails when the frequency
    /// collapses an acceptance window.
    pub fn new(res: u32) -> (r: Option<Rc5Receiver>)
        ensures
            spec_rc5_ranges(res).wf() ==> r == Some(
                Rc5Receiver { state: spec_rc5_fresh(spec_rc5_ranges(res)) },
            ),
            !spec_rc5_ranges(res).wf() ==> r == None::<Rc5Receiver>,
            r matches Some(x) ==> x.state.wf(),
    {
        match Rc5ReceiverState::create(res) {
            Some(state) => Some(Rc5Receiver { state }),
            None => None,
        }
    }

    /// Feeds one edge event and hands out the decoded command as soon as a
    /// frame completes, resetting the decoder after completed and rejected
    /// frames.
    pub fn event(&mut self, dt: u32, rising: bool) -> (r: Result<Option<Rc5Command>, Error>)
        requires
            old(self).state.wf(),
        ensures
            final(self).state == spec_rc5_receiver_event(old(self).state, dt, rising).0,
            r == spec_rc5_receiver_event(old(self).state, dt, rising).1,
            final(self).state.wf(),
    {
        let st = self.state.event(rising, dt);
        match st {
            Rc5InternalStatus::Done => {
                let cmd = self.state.command();
                self.state.reset();
                Ok(cmd)
            },
            Rc5InternalStatus::Error(e) => {
                self.state.reset();
                Err(e)
            },
            _ => Ok(None),
        }
    }
}

} // verus!
