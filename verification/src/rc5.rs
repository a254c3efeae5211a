//! The Philips RC-5 protocol decoder.
//!
//! RC-5 is bi-phase (Manchester) coded: a frame is 14 bits (two start bits, a
//! toggle bit, five address bits, six command bits, MSB first), each bit two
//! half-bit periods of 889 us, with a transition at the bit's midpoint whose
//! direction encodes the bit (rising for one, falling for zero).
//!
//! The decoder counts half-bit periods from the first rising edge, which is
//! the midpoint of the first start bit.  Each edge advances the count by one
//! or two periods according to its measured duration; an edge landing on an
//! even count is a mid-bit transition and samples a bit, an edge landing on
//! an odd count is a bit boundary and samples nothing.

use vstd::prelude::*;

use crate::ranges::InfraRange2;
use crate::Error;
use crate::Status;

verus! {

/// The `(nominal duration, tolerance percent)` pair of each edge distance:
/// one half-bit period and two half-bit periods.
pub open spec fn spec_rc5_tolerances() -> Seq<(u32, u32)> {
    seq![(889u32, 10u32), (1778u32, 10u32)]
}

/// The tolerance table of the RC-5 edge distances: one and two half-bit
/// periods of 889 us.
pub fn rc5_tolerances() -> (r: [(u32, u32); 2])
    ensures
        r@ == spec_rc5_tolerances(),
{
    let r = [(889u32, 10u32), (1778u32, 10u32)];
    proof {
        assert(r@ =~= spec_rc5_tolerances());
    }
    r
}

/// The internal state of the RC-5 state machine.
#[derive(Debug, Clone, Copy, PartialEq, Eq, Structural)]
pub enum Rc5InternalStatus {
    /// Waiting for the first rising edge.
    Idle,
    /// Receiving data; the payload is the index of the next bit to sample.
    Data(u16),
    /// A frame was received.
    Done,
    /// The frame was rejected.
    Error(Error),
}

/// Bit indices held in the status stay at or below 12, and the half-bit
/// count is kept reduced modulo two.
pub open spec fn wf_rc5_status(st: Rc5InternalStatus) -> bool {
    match st {
        Rc5InternalStatus::Data(b) => b <= 12,
        _ => true,
    }
}

/// The observable status behind an internal one.
pub open spec fn spec_rc5_status_of(ns: Rc5InternalStatus) -> Status {
    match ns {
        Rc5InternalStatus::Idle => Status::Idle,
        Rc5InternalStatus::Data(_) => Status::Receiving,
        Rc5InternalStatus::Done => Status::Done,
        Rc5InternalStatus::Error(e) => Status::Error(e),
    }
}

/// A decoded RC-5 frame.
#[derive(Debug, Clone, Copy, PartialEq, Eq, Structural)]
pub struct Rc5Command {
    pub addr: u8,
    pub cmd: u8,
    pub start: u8,
    pub toggle: u8,
}

/// The fields packed in a raw 14-bit buffer: start bits 13..12, toggle bit
/// 11, address bits 10..6, command bits 5..0.
pub open spec fn spec_rc5_unpack(buf: u16) -> Rc5Command {
    Rc5Command {
        addr: ((buf >> 6) & 0x1f) as u8,
        cmd: (buf & 0x3f) as u8,
        start: ((buf >> 12) & 0x3) as u8,
        toggle: ((buf >> 11) & 0x1) as u8,
    }
}

impl Rc5Command {
    /// Splits a raw 14-bit buffer into its fields.
    pub fn unpack(buf: u16) -> (r: Rc5Command)
        ensures
            r == spec_rc5_unpack(buf),
    {
        Rc5Command {
            addr: ((buf >> 6) & 0x1f) as u8,
            cmd: (buf & 0x3f) as u8,
            start: ((buf >> 12) & 0x3) as u8,
            toggle: ((buf >> 11) & 0x1) as u8,
        }
    }
}

/// The state of one RC-5 decoder.
#[derive(Debug, Clone, Copy, PartialEq, Eq, Structural)]
pub struct Rc5ReceiverState {
    /// Current state-machine status.
    pub status: Rc5InternalStatus,
    /// Bits received so far, MSB first.
    pub bitbuf: u16,
    /// Parity of the number of half-bit periods since the starting edge.
    pub clock: u8,
    /// Acceptance windows for one and two half-bit periods.
    pub ranges: InfraRange2,
}

/// One transition of the RC-5 state machine.  The first rising edge is the
/// midpoint of the first start bit: it records that bit and starts the
/// half-bit count.  Every further edge advances the count by the number of
/// half-bit periods its duration spans; a count landing even samples a bit
/// from the edge's direction.  A duration spanning neither one nor two
/// half-bit periods rejects the frame.
pub open spec fn spec_rc5_event(s: Rc5ReceiverState, rising: bool, dt: u32) -> Rc5ReceiverState {
    match s.status {
        Rc5InternalStatus::Idle => {
            if rising {
                Rc5ReceiverState {
                    status: Rc5InternalStatus::Data(12),
                    bitbuf: 0x2000,
                    clock: 0,
                    ..s
                }
            } else {
                s
            }
        },
        Rc5InternalStatus::Data(b) => {
            match s.ranges.spec_find(dt as int) {
                Some(i) => {
                    let clock2 = ((s.clock + i + 1) % 2) as u8;
                    if clock2 == 0 {
                        let buf = if rising {
                            s.bitbuf | (1u16 << b)
                        } else {
                            s.bitbuf
                        };
                        if b == 0 {
                            Rc5ReceiverState {
                                status: Rc5InternalStatus::Done,
                                bitbuf: buf,
                                clock: clock2,
                                ..s
                            }
                        } else {
                            Rc5ReceiverState {
                                status: Rc5InternalStatus::Data((b - 1) as u16),
                                bitbuf: buf,
                                clock: clock2,
                                ..s
                            }
                        }
                    } else {
                        Rc5ReceiverState { clock: clock2, ..s }
                    }
                },
                None => Rc5ReceiverState { status: Rc5InternalStatus::Error(Error::Data), ..s },
            }
        },
        _ => s,
    }
}

/// A fresh state over the given windows.
pub open spec fn spec_rc5_fresh(ranges: InfraRange2) -> Rc5ReceiverState {
    Rc5ReceiverState { status: Rc5InternalStatus::Idle, bitbuf: 0, clock: 0, ranges }
}

/// The windows an RC-5 decoder uses at sampler frequency `hz`.
pub open spec fn spec_rc5_ranges(hz: u32) -> InfraRange2 {
    InfraRange2::spec_new(spec_rc5_tolerances(), hz)
}

/// Reset: back to `Idle` with cleared buffer and count.
pub open spec fn spec_rc5_reset(s: Rc5ReceiverState) -> Rc5ReceiverState {
    Rc5ReceiverState { status: Rc5InternalStatus::Idle, bitbuf: 0, clock: 0, ..s }
}

/// The command held by the decoder: the unpacked buffer after a complete
/// frame, and nothing otherwise.
pub open spec fn spec_rc5_command(s: Rc5ReceiverState) -> Option<Rc5Command> {
    match s.status {
        Rc5InternalStatus::Done => Some(spec_rc5_unpack(s.bitbuf)),
        _ => None,
    }
}

impl Rc5ReceiverState {
    pub open spec fn wf(self) -> bool {
        wf_rc5_status(self.status) && self.clock < 2
    }

    /// A fresh decoder for the given sampler frequency.  Fails when the
    /// frequency collapses one of the acceptance windows.
    pub fn create(samplerate: u32) -> (r: Option<Rc5ReceiverState>)
        ensures
            spec_rc5_ranges(samplerate).wf() ==> r == Some(spec_rc5_fresh(spec_rc5_ranges(samplerate))),
            !spec_rc5_ranges(samplerate).wf() ==> r == None::<Rc5ReceiverState>,
            r matches Some(s) ==> s.wf() && s.ranges.wf(),
    {
        let tols = rc5_tolerances();
        match InfraRange2::new(&tols, samplerate) {
            Some(ranges) => Some(Rc5ReceiverState {
                status: Rc5InternalStatus::Idle,
                bitbuf: 0,
                clock: 0,
                ranges,
            }),
            None => None,
        }
    }

    /// Returns to `Idle` and clears the buffer and the half-bit count.
    pub fn reset(&mut self)
        ensures
            *final(self) == spec_rc5_reset(*old(self)),
            final(self).wf(),
    {
        self.status = Rc5InternalStatus::Idle;
        self.bitbuf = 0;
        self.clock = 0;
    }

    /// Feeds one edge event: `rising` is the polarity of the transition and
    /// `dt` the ticks elapsed since the previous edge.
    pub fn event(&mut self, rising: bool, dt: u32) -> (r: Rc5InternalStatus)
        requires
            old(self).wf(),
        ensures
            *final(self) == spec_rc5_event(*old(self), rising, dt),
            final(self).wf(),
            r == final(self).status,
    {
        match self.status {
            Rc5InternalStatus::Idle => {
                if rising {
                    self.status = Rc5InternalStatus::Data(12);
                    self.bitbuf = 0x2000;
                    self.clock = 0;
                }
            },
            Rc5InternalStatus::Data(b) => {
                match self.ranges.find(dt as u64) {
                    Some(i) => {
                        let periods: u8 = if i == 0 { 1 } else { 2 };
                        self.clock = (self.clock + periods) % 2;
                        if self.clock == 0 {
                            if rising {
                                self.bitbuf = self.bitbuf | (1u16 << b);
                            }
                            if b == 0 {
                                self.status = Rc5InternalStatus::Done;
                            } else {
                                self.status = Rc5InternalStatus::Data(b - 1);
                            }
                        }
                    },
                    None => {
                        self.status = Rc5InternalStatus::Error(Error::Data);
                    },
                }
            },
            _ => {},
        }
        self.status
    }

    /// The command held by the decoder, if a complete frame has been
    /// received.
    pub fn command(&self) -> (r: Option<Rc5Command>)
        ensures
            r == spec_rc5_command(*self),
    {
        match self.status {
            Rc5InternalStatus::Done => Some(Rc5Command::unpack(self.bitbuf)),
            _ => None,
        }
    }

    /// The observable status a consumer polls between events.
    pub fn status(&self) -> (r: Status)
        ensures
            r == spec_rc5_status_of(self.status),
    {
        match self.status {
            Rc5InternalStatus::Idle => Status::Idle,
            Rc5InternalStatus::Data(_) => Status::Receiving,
            Rc5InternalStatus::Done => Status::Done,
            Rc5InternalStatus::Error(e) => Status::Error(e),
        }
    }
}

} // verus!
