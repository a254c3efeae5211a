//! The multi-protocol receiver: a fixed set of decoders driven in lockstep
//! from one edge source, each slot of the result carrying the command the
//! matching decoder produced on this event, if any.
//!
//! A decoder's error is swallowed here: concurrent decoders legitimately
//! reject frames of the protocols they do not recognize, so an error in one
//! slot is not actionable and the slot simply stays empty.

use vstd::prelude::*;

use crate::nec::NecCommand;
use crate::rc5::Rc5Command;
use crate::receiver::{
    spec_nec_receiver_event, spec_rc5_receiver_event, NecReceiver, Rc5Receiver,
};

verus! {

/// The command union: one variant per protocol a multi-receiver can hold.
#[derive(Debug, Clone, Copy, PartialEq, Eq, Structural)]
pub enum CmdEnum {
    Nec(NecCommand),
    Rc5(Rc5Command),
}

impl From<NecCommand> for CmdEnum {
    fn from(cmd: NecCommand) -> (r: CmdEnum) {
        CmdEnum::Nec(cmd)
    }
}

impl vstd::std_specs::convert::FromSpecImpl<NecCommand> for CmdEnum {
    open spec fn obeys_from_spec() -> bool {
        true
    }

    open spec fn from_spec(cmd: NecCommand) -> CmdEnum {
        CmdEnum::Nec(cmd)
    }
}

impl From<Rc5Command> for CmdEnum {
    fn from(cmd: Rc5Command) -> (r: CmdEnum) {
        CmdEnum::Rc5(cmd)
    }
}

impl vstd::std_specs::convert::FromSpecImpl<Rc5Command> for CmdEnum {
    open spec fn obeys_from_spec() -> bool {
        true
    }

    open spec fn from_spec(cmd: Rc5Command) -> CmdEnum {
        CmdEnum::Rc5(cmd)
    }
}

/// A fixed set of receivers that one multi-receiver drives in lockstep.
pub trait ReceiverWrapper: Sized {
    /// How many decoder slots the set has.
    spec fn spec_slots() -> nat;

    /// Well-formedness of every contained decoder.
    spec fn wf(&self) -> bool;

    /// The sampler frequencies the whole set can be built for: none of the
    /// decoders' acceptance windows may collapse.
    spec fn spec_valid_res(res: u32) -> bool;

    /// The set of fresh receivers at sampler frequency `res`.
    spec fn spec_receivers(res: u32) -> Self;

    /// The set after feeding one edge event to every receiver.
    spec fn spec_event(pre: Self, dt: u32, edge: bool) -> Self;

    /// The command slots the event produces: one per receiver, in order,
    /// empty where the receiver decoded nothing or rejected the frame.
    spec fn spec_commands(pre: Self, dt: u32, edge: bool) -> Seq<Option<CmdEnum>>;

    /// Builds the fresh set.
    fn receivers(res: u32) -> (r: Self)
        requires
            Self::spec_valid_res(res),
        ensures
            r == Self::spec_receivers(res),
            r.wf(),
    ;

    /// Feeds one edge event to every receiver and collects the slots.
    fn event(&mut self, dt: u32, edge: bool) -> (out: Vec<Option<CmdEnum>>)
        requires
            old(self).wf(),
        ensures
            *final(self) == Self::spec_event(*old(self), dt, edge),
            final(self).wf(),
            out@ == Self::spec_commands(*old(self), dt, edge),
            out@.len() == Self::spec_slots(),
    ;
}

/// The pair of a NEC receiver and an RC-5 receiver.
#[derive(Debug, Clone, Copy, PartialEq, Eq, Structural)]
pub struct NecRc5 {
    pub nec: NecReceiver,
    pub rc5: Rc5Receiver,
}

/// The slot a receiver's result contributes: the decoded command mapped into
/// the union, and nothing on an error or mid-frame.
pub open spec fn spec_nec_slot(r: Result<Option<NecCommand>, crate::Error>) -> Option<CmdEnum> {
    match r {
        Ok(Some(c)) => Some(CmdEnum::Nec(c)),
        _ => None,
    }
}

pub open spec fn spec_rc5_slot(r: Result<Option<Rc5Command>, crate::Error>) -> Option<CmdEnum> {
    match r {
        Ok(Some(c)) => Some(CmdEnum::Rc5(c)),
        _ => None,
    }
}

impl ReceiverWrapper for NecRc5 {
    open spec fn spec_slots() -> nat {
        2
    }

    open spec fn wf(&self) -> bool {
        self.nec.state.wf() && self.rc5.state.wf()
    }

    open spec fn spec_valid_res(res: u32) -> bool {
        crate::nec::spec_nec_ranges(res).wf() && crate::rc5::spec_rc5_ranges(res).wf()
    }

    open spec fn spec_receivers(res: u32) -> Self {
        NecRc5 {
            nec: NecReceiver { state: crate::nec::spec_fresh(crate::nec::spec_nec_ranges(res)) },
            rc5: Rc5Receiver {
                state: crate::rc5::spec_rc5_fresh(crate::rc5::spec_rc5_ranges(res)),
            },
        }
    }

    open spec fn spec_event(pre: Self, dt: u32, edge: bool) -> Self {
        NecRc5 {
            nec: NecReceiver { state: spec_nec_receiver_event(pre.nec.state, dt, edge).0 },
            rc5: Rc5Receiver { state: spec_rc5_receiver_event(pre.rc5.state, dt, edge).0 },
        }
    }

    open spec fn spec_commands(pre: Self, dt: u32, edge: bool) -> Seq<Option<CmdEnum>> {
        seq![
            spec_nec_slot(spec_nec_receiver_event(pre.nec.state, dt, edge).1),
            spec_rc5_slot(spec_rc5_receiver_event(pre.rc5.state, dt, edge).1),
        ]
    }

    fn receivers(res: u32) -> (r: Self) {
        let nec = NecReceiver::new(res).unwrap();
        let rc5 = Rc5Receiver::new(res).unwrap();
        NecRc5 { nec, rc5 }
    }

    fn event(&mut self, dt: u32, edge: bool) -> (out: Vec<Option<CmdEnum>>) {
        let a = self.nec.event(dt, edge);
        let b = self.rc5.event(dt, edge);
        let mut out: Vec<Option<CmdEnum>> = Vec::new();
        out.push(
            match a {
                Ok(Some(c)) => Some(CmdEnum::from(c)),
                _ => None,
            },
        );
        out.push(
            match b {
                Ok(Some(c)) => Some(CmdEnum::from(c)),
                _ => None,
            },
        );
        proof {
            assert(out@ =~= Self::spec_commands(*old(self), dt, edge));
        }
        out
    }
}

/// An input pin delivering the demodulated carrier level, implemented by the
/// host around whatever hardware access it has.
pub trait InputPin {
    type Error;

    /// Whether the pin reads low right now.  An IR front-end is active low:
    /// a low pin means the carrier is present.
    fn is_low(&mut self) -> Result<bool, Self::Error>;
}

/// A multi-protocol receiver: a set of receivers and the event source that
/// feeds them.
pub struct MultiReceiver<Receivers: ReceiverWrapper, IN> {
    pub receivers: Receivers,
    pub input: IN,
}

impl<Receivers: ReceiverWrapper, IN> MultiReceiver<Receivers, IN> {
    /// A multi-receiver whose decoders all share the sampler frequency
    /// `res`.
    pub fn new(res: u32, input: IN) -> (r: Self)
        requires
            Receivers::spec_valid_res(res),
        ensures
            r.receivers == Receivers::spec_receivers(res),
            r.receivers.wf(),
            r.input == input,
    {
        MultiReceiver { input, receivers: Receivers::receivers(res) }
    }

    /// Feeds one edge event, supplied by the caller, to every decoder.
    pub fn event_generic(&mut self, dt: u32, edge: bool) -> (out: Vec<Option<CmdEnum>>)
        requires
            old(self).receivers.wf(),
        ensures
            final(self).receivers == Receivers::spec_event(old(self).receivers, dt, edge),
            final(self).receivers.wf(),
            final(self).input == old(self).input,
            out@ == Receivers::spec_commands(old(self).receivers, dt, edge),
            out@.len() == Receivers::spec_slots(),
    {
        self.receivers.event(dt, edge)
    }
}

impl<Receivers: ReceiverWrapper, IN: InputPin> MultiReceiver<Receivers, IN> {
    /// Feeds one edge event whose polarity is sampled from the input pin: a
    /// low pin means the carrier is present, that is a rising envelope edge.
    /// A pin error is propagated verbatim and leaves the decoders untouched.
    pub fn event(&mut self, dt: u32) -> (r: Result<Vec<Option<CmdEnum>>, IN::Error>)
        requires
            old(self).receivers.wf(),
        ensures
            final(self).receivers.wf(),
            match r {
                Ok(out) => exists|edge: bool|
                    {
                        &&& final(self).receivers == #[trigger] Receivers::spec_event(
                            old(self).receivers,
                            dt,
                            edge,
                        )
                        &&& out@ == Receivers::spec_commands(old(self).receivers, dt, edge)
                    },
                Err(_) => final(self).receivers == old(self).receivers,
            },
    {
        let edge = match self.input.is_low() {
            Ok(e) => e,
            Err(e) => {
                return Err(e);
            },
        };
        let out = self.event_generic(dt, edge);
        Ok(out)
    }

    /// The pin behind this receiver, for the host to inspect or reconfigure.
    pub fn pin(&mut self) -> &mut IN {
        &mut self.input
    }
}

} // verus!
