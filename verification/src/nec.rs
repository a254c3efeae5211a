//! The NEC protocol decoder.
//!
//! The NEC signal is pulse-distance coded: a leading 9 ms mark and 4.5 ms
//! space (Sync), then 32 data bits LSB first (address low, address
//! complement, command, command complement), each bit a 560 us mark followed
//! by a 560 us (Zero) or 1.69 ms (One) space.  A repeat frame is a 9 ms mark,
//! a 2.25 ms space and a stop mark.
//!
//! Edge events arrive with the space preceding the next mark, so the decoder
//! saves the duration of each mark on the falling edge and classifies the sum
//! of that saved duration and the following space on the rising edge: each
//! symbol is exactly one rising-edge event.

use vstd::prelude::*;

use crate::ranges::InfraRange4;
use crate::Error;
use crate::Status;

verus! {

/// Nominal pulse-distance durations of the NEC protocol, in microseconds.
#[derive(Debug, Clone, Copy, PartialEq, Eq, Structural)]
pub struct NecPulseDistance {
    /// Duration of the header mark.
    pub header_high: u32,
    /// Duration of the header space of a data frame.
    pub header_low: u32,
    /// Duration of the header space of a repeat frame.
    pub repeat_low: u32,
    /// Duration of a data mark.
    pub data_high: u32,
    /// Duration of the space encoding a zero bit.
    pub data_zero_low: u32,
    /// Duration of the space encoding a one bit.
    pub data_one_low: u32,
}

/// The standard NEC timing.
pub open spec fn spec_nec_standard() -> NecPulseDistance {
    NecPulseDistance {
        header_high: 9000,
        header_low: 4500,
        repeat_low: 2250,
        data_high: 560,
        data_zero_low: 560,
        data_one_low: 1690,
    }
}

impl NecPulseDistance {
    /// The standard NEC timing.
    pub fn standard() -> (r: NecPulseDistance)
        ensures
            r == spec_nec_standard(),
    {
        NecPulseDistance {
            header_high: 9000,
            header_low: 4500,
            repeat_low: 2250,
            data_high: 560,
            data_zero_low: 560,
            data_one_low: 1690,
        }
    }
}

/// The `(nominal duration, tolerance percent)` pair of each symbol, in the
/// order Sync, Repeat, Zero, One.  Each nominal duration is the sum of a mark
/// and the space that follows it, since the decoder classifies on that sum.
pub open spec fn spec_tolerances(t: NecPulseDistance) -> Seq<(u32, u32)> {
    seq![
        (((t.header_high + t.header_low) as u32), 10u32),
        (((t.header_high + t.repeat_low) as u32), 10u32),
        (((t.data_high + t.data_zero_low) as u32), 5u32),
        (((t.data_high + t.data_one_low) as u32), 5u32),
    ]
}

/// The tolerance table of the NEC symbol alphabet, in the order Sync, Repeat,
/// Zero, One.
pub fn tolerances(t: &NecPulseDistance) -> (r: [(u32, u32); 4])
    requires
        t.header_high + t.header_low <= u32::MAX,
        t.header_high + t.repeat_low <= u32::MAX,
        t.data_high + t.data_zero_low <= u32::MAX,
        t.data_high + t.data_one_low <= u32::MAX,
    ensures
        r@ == spec_tolerances(*t),
{
    let r = [
        (t.header_high + t.header_low, 10),
        (t.header_high + t.repeat_low, 10),
        (t.data_high + t.data_zero_low, 5),
        (t.data_high + t.data_one_low, 5),
    ];
    proof {
        assert(r@ =~= spec_tolerances(*t));
    }
    r
}

/// The symbol alphabet of the NEC protocol, in window order.
#[derive(Debug, Clone, Copy, PartialEq, Eq, Structural)]
pub enum PulseWidth {
    Sync,
    Repeat,
    Zero,
    One,
    NotAPulseWidth,
}

/// The symbol behind a window index.
pub open spec fn spec_pulse_width_from(v: usize) -> PulseWidth {
    if v == 0 {
        PulseWidth::Sync
    } else if v == 1 {
        PulseWidth::Repeat
    } else if v == 2 {
        PulseWidth::Zero
    } else if v == 3 {
        PulseWidth::One
    } else {
        PulseWidth::NotAPulseWidth
    }
}

impl From<usize> for PulseWidth {
    fn from(v: usize) -> (r: Self) {
        match v {
            0 => PulseWidth::Sync,
            1 => PulseWidth::Repeat,
            2 => PulseWidth::Zero,
            3 => PulseWidth::One,
            _ => PulseWidth::NotAPulseWidth,
        }
    }
}

impl vstd::std_specs::convert::FromSpecImpl<usize> for PulseWidth {
    open spec fn obeys_from_spec() -> bool {
        true
    }

    open spec fn from_spec(v: usize) -> Self {
        spec_pulse_width_from(v)
    }
}

/// The symbol whose window contains `sum` ticks, scanning the windows in
/// order, or `NotAPulseWidth`.
pub open spec fn spec_pulse_width(ranges: InfraRange4, sum: int) -> PulseWidth {
    match ranges.spec_find(sum) {
        Some(i) => spec_pulse_width_from(i),
        None => PulseWidth::NotAPulseWidth,
    }
}

/// `pw` is one of the two data symbols.
pub open spec fn is_data(pw: PulseWidth) -> bool {
    pw == PulseWidth::Zero || pw == PulseWidth::One
}

/// The internal state of the NEC state machine.
#[derive(Debug, Clone, Copy, PartialEq, Eq, Structural)]
pub enum InternalStatus {
    /// Waiting for the first pulse.
    Init,
    /// Receiving the address bits; the payload is the next bit index.
    ReceivingAddr(u16),
    /// Receiving the command bits; the payload is the next bit index.
    ReceivingCmd(u16),
    /// A data frame was received.
    Done,
    /// A repeat frame was received.
    RepeatDone,
    /// The frame was rejected.
    Error(Error),
}

/// The observable status behind an internal one.
pub open spec fn spec_status_of(ns: InternalStatus) -> Status {
    match ns {
        InternalStatus::Init => Status::Idle,
        InternalStatus::Done => Status::Done,
        InternalStatus::RepeatDone => Status::Done,
        InternalStatus::Error(e) => Status::Error(e),
        _ => Status::Receiving,
    }
}

impl From<InternalStatus> for Status {
    fn from(ns: InternalStatus) -> (r: Self) {
        match ns {
            InternalStatus::Init => Status::Idle,
            InternalStatus::Done => Status::Done,
            InternalStatus::RepeatDone => Status::Done,
            InternalStatus::Error(e) => Status::Error(e),
            _ => Status::Receiving,
        }
    }
}

impl vstd::std_specs::convert::FromSpecImpl<InternalStatus> for Status {
    open spec fn obeys_from_spec() -> bool {
        true
    }

    open spec fn from_spec(ns: InternalStatus) -> Self {
        spec_status_of(ns)
    }
}

/// A decoded NEC frame.
#[derive(Debug, Clone, Copy, PartialEq, Eq, Structural)]
pub struct NecCommand {
    pub addr: u16,
    pub cmd: u8,
    pub repeat: bool,
}

/// Unpacking of the raw bit buffers: the decoded frame when the complement
/// checks pass (the high byte of each buffer must be the bitwise complement
/// of its low byte), and nothing otherwise.
pub open spec fn spec_unpack(addr: u16, cmd: u16, repeat: bool) -> Option<NecCommand> {
    let addr_low = (addr & 0xff) as u8;
    let addr_high = (addr >> 8) as u8;
    let cmd_low = (cmd & 0xff) as u8;
    let cmd_high = (cmd >> 8) as u8;
    if addr_high == !addr_low && cmd_high == !cmd_low {
        Some(NecCommand { addr: addr_low as u16, cmd: cmd_low, repeat })
    } else {
        None
    }
}

impl NecCommand {
    /// Verifies the complement invariants of the raw bit buffers and yields
    /// the decoded frame, or nothing on an integrity failure.
    pub fn unpack(addr: u16, cmd: u16, repeat: bool) -> (r: Option<NecCommand>)
        ensures
            r == spec_unpack(addr, cmd, repeat),
    {
        let addr_low = (addr & 0xff) as u8;
        let addr_high = (addr >> 8) as u8;
        let cmd_low = (cmd & 0xff) as u8;
        let cmd_high = (cmd >> 8) as u8;
        if addr_high == !addr_low && cmd_high == !cmd_low {
            Some(NecCommand { addr: addr_low as u16, cmd: cmd_low, repeat })
        } else {
            None
        }
    }
}

/// The state of one NEC decoder.
#[derive(Debug, Clone, Copy, PartialEq, Eq, Structural)]
pub struct NecReceiverState {
    /// Current state-machine status.
    pub status: InternalStatus,
    /// Address bits received so far, LSB first.
    pub bitbuf_addr: u16,
    /// Command bits received so far, LSB first.
    pub bitbuf_cmd: u16,
    /// Acceptance windows for Sync, Repeat, Zero and One.
    pub ranges: InfraRange4,
    /// Address buffer of the most recent complete frame; a repeat frame
    /// resolves against it.
    pub last_addr: u16,
    /// Command buffer of the most recent complete frame.
    pub last_cmd: u16,
    /// Mark duration saved on the most recent falling edge.
    pub dt_save: u32,
}

/// Bit indices held in the status stay below 16.
pub open spec fn wf_status(st: InternalStatus) -> bool {
    match st {
        InternalStatus::ReceivingAddr(b) => b < 16,
        InternalStatus::ReceivingCmd(b) => b < 16,
        _ => true,
    }
}

/// One transition of the NEC state machine.  A falling edge only saves the
/// mark duration; a rising edge classifies the sum of the saved mark and the
/// incoming space and steps the machine.  The raw buffers of a complete frame
/// are retained for repeat resolution exactly when the machine reaches
/// `Done`.
pub open spec fn spec_event(s: NecReceiverState, rising: bool, dt: u32) -> NecReceiverState {
    if !rising {
        NecReceiverState { dt_save: dt, ..s }
    } else {
        let pw = spec_pulse_width(s.ranges, s.dt_save + dt);
        let s0 = NecReceiverState { dt_save: 0, ..s };
        match s.status {
            InternalStatus::Init => {
                if pw == PulseWidth::Sync {
                    NecReceiverState { status: InternalStatus::ReceivingAddr(0), ..s0 }
                } else if pw == PulseWidth::Repeat {
                    NecReceiverState { status: InternalStatus::RepeatDone, ..s0 }
                } else {
                    s0
                }
            },
            InternalStatus::ReceivingAddr(b) => {
                if is_data(pw) {
                    let buf = if pw == PulseWidth::One {
                        s.bitbuf_addr | (1u16 << b)
                    } else {
                        s.bitbuf_addr
                    };
                    if b == 15 {
                        NecReceiverState {
                            status: InternalStatus::ReceivingCmd(0),
                            bitbuf_addr: buf,
                            ..s0
                        }
                    } else {
                        NecReceiverState {
                            status: InternalStatus::ReceivingAddr((b + 1) as u16),
                            bitbuf_addr: buf,
                            ..s0
                        }
                    }
                } else {
                    NecReceiverState { status: InternalStatus::Error(Error::Data), ..s0 }
                }
            },
            InternalStatus::ReceivingCmd(b) => {
                if is_data(pw) {
                    let buf = if pw == PulseWidth::One {
                        s.bitbuf_cmd | (1u16 << b)
                    } else {
                        s.bitbuf_cmd
                    };
                    if b == 15 {
                        NecReceiverState {
                            status: InternalStatus::Done,
                            bitbuf_cmd: buf,
                            last_addr: s.bitbuf_addr,
                            last_cmd: buf,
                            ..s0
                        }
                    } else {
                        NecReceiverState {
                            status: InternalStatus::ReceivingCmd((b + 1) as u16),
                            bitbuf_cmd: buf,
                            ..s0
                        }
                    }
                } else {
                    NecReceiverState { status: InternalStatus::Error(Error::Data), ..s0 }
                }
            },
            _ => s0,
        }
    }
}

/// A fresh state over the given windows.
pub open spec fn spec_fresh(ranges: InfraRange4) -> NecReceiverState {
    NecReceiverState {
        status: InternalStatus::Init,
        bitbuf_addr: 0,
        bitbuf_cmd: 0,
        ranges,
        last_addr: 0,
        last_cmd: 0,
        dt_save: 0,
    }
}

/// The windows a NEC decoder uses at sampler frequency `hz`.
pub open spec fn spec_nec_ranges(hz: u32) -> InfraRange4 {
    InfraRange4::spec_new(spec_tolerances(spec_nec_standard()), hz)
}

/// Reset: the machine returns to `Init` and the working buffers clear, while
/// the windows and the retained frame survive.
pub open spec fn spec_reset(s: NecReceiverState) -> NecReceiverState {
    NecReceiverState { status: InternalStatus::Init, bitbuf_addr: 0, bitbuf_cmd: 0, dt_save: 0, ..s }
}

/// The command a consumer can extract: the unpacked working buffers after a
/// data frame, the unpacked retained buffers after a repeat frame, and
/// nothing otherwise.
pub open spec fn spec_command(s: NecReceiverState) -> Option<NecCommand> {
    match s.status {
        InternalStatus::Done => spec_unpack(s.bitbuf_addr, s.bitbuf_cmd, false),
        InternalStatus::RepeatDone => spec_unpack(s.last_addr, s.last_cmd, true),
        _ => None,
    }
}

impl NecReceiverState {
    pub open spec fn wf(self) -> bool {
        wf_status(self.status)
    }

    /// A fresh decoder for the given sampler frequency.  Fails when the
    /// frequency collapses one of the acceptance windows.
    pub fn create(samplerate: u32) -> (r: Option<NecReceiverState>)
        ensures
            spec_nec_ranges(samplerate).wf() ==> r == Some(spec_fresh(spec_nec_ranges(samplerate))),
            !spec_nec_ranges(samplerate).wf() ==> r == None::<NecReceiverState>,
            r matches Some(s) ==> s.wf() && s.ranges.wf(),
    {
        let pd = NecPulseDistance::standard();
        let tols = tolerances(&pd);
        match InfraRange4::new(&tols, samplerate) {
            Some(ranges) => Some(NecReceiverState {
                status: InternalStatus::Init,
                bitbuf_addr: 0,
                bitbuf_cmd: 0,
                ranges,
                last_addr: 0,
                last_cmd: 0,
                dt_save: 0,
            }),
            None => None,
        }
    }

    /// Returns to `Init` and clears the working buffers.  The consumer owns
    /// this transition: it is called after a command has been read and after
    /// an error.  The retained frame survives so that a following repeat
    /// frame still resolves.
    pub fn reset(&mut self)
        ensures
            *final(self) == spec_reset(*old(self)),
            final(self).wf(),
    {
        self.status = InternalStatus::Init;
        self.bitbuf_addr = 0;
        self.bitbuf_cmd = 0;
        self.dt_save = 0;
    }

    /// Feeds one edge event: `rising` is the polarity of the transition and
    /// `dt` the ticks elapsed since the previous edge.
    pub fn event(&mut self, rising: bool, dt: u32) -> (r: InternalStatus)
        requires
            old(self).wf(),
        ensures
            *final(self) == spec_event(*old(self), rising, dt),
            final(self).wf(),
            r == final(self).status,
    {
        if rising {
            let sum: u64 = (self.dt_save as u64) + (dt as u64);
            let pulsewidth = match self.ranges.find(sum) {
                Some(i) => PulseWidth::from(i),
                None => PulseWidth::NotAPulseWidth,
            };
            match (self.status, pulsewidth) {
                (InternalStatus::Init, PulseWidth::Sync) => {
                    self.status = InternalStatus::ReceivingAddr(0);
                },
                (InternalStatus::Init, PulseWidth::Repeat) => {
                    self.status = InternalStatus::RepeatDone;
                },
                (InternalStatus::Init, _) => {},
                (InternalStatus::ReceivingAddr(b), PulseWidth::One) => {
                    self.bitbuf_addr = self.bitbuf_addr | (1u16 << b);
                    self.status = if b == 15 {
                        InternalStatus::ReceivingCmd(0)
                    } else {
                        InternalStatus::ReceivingAddr(b + 1)
                    };
                },
                (InternalStatus::ReceivingAddr(b), PulseWidth::Zero) => {
                    self.status = if b == 15 {
                        InternalStatus::ReceivingCmd(0)
                    } else {
                        InternalStatus::ReceivingAddr(b + 1)
                    };
                },
                (InternalStatus::ReceivingAddr(_), _) => {
                    self.status = InternalStatus::Error(Error::Data);
                },
                (InternalStatus::ReceivingCmd(b), PulseWidth::One) => {
                    self.bitbuf_cmd = self.bitbuf_cmd | (1u16 << b);
                    if b == 15 {
                        self.last_addr = self.bitbuf_addr;
                        self.last_cmd = self.bitbuf_cmd;
                        self.status = InternalStatus::Done;
                    } else {
                        self.status = InternalStatus::ReceivingCmd(b + 1);
                    }
                },
                (InternalStatus::ReceivingCmd(b), PulseWidth::Zero) => {
                    if b == 15 {
                        self.last_addr = self.bitbuf_addr;
                        self.last_cmd = self.bitbuf_cmd;
                        self.status = InternalStatus::Done;
                    } else {
                        self.status = InternalStatus::ReceivingCmd(b + 1);
                    }
                },
                (InternalStatus::ReceivingCmd(_), _) => {
                    self.status = InternalStatus::Error(Error::Data);
                },
                (InternalStatus::Done, _) => {},
                (InternalStatus::RepeatDone, _) => {},
                (InternalStatus::Error(_), _) => {},
            }
            self.dt_save = 0;
            self.status
        } else {
            self.dt_save = dt;
            self.status
        }
    }

    /// The command held by the decoder, if a complete frame whose integrity
    /// checks pass has been received.
    pub fn command(&self) -> (r: Option<NecCommand>)
        ensures
            r == spec_command(*self),
    {
        match self.status {
            InternalStatus::Done => NecCommand::unpack(self.bitbuf_addr, self.bitbuf_cmd, false),
            InternalStatus::RepeatDone => NecCommand::unpack(self.last_addr, self.last_cmd, true),
            _ => None,
        }
    }

    /// The observable status a consumer polls between events.
    pub fn status(&self) -> (r: Status)
        ensures
            r == spec_status_of(self.status),
    {
        Status::from(self.status)
    }
}

} // verus!
