use infrared::nec::{InternalStatus, NecCommand, NecReceiverState, PulseWidth};
use infrared::ranges::InfraRange4;
use infrared::Status;

/// Events of one NEC frame at a 1 MHz sampler (ticks equal microseconds),
/// for an arbitrary 32-bit payload given as the two raw words.
fn nec_raw_events(w_addr: u16, w_cmd: u16) -> Vec<(bool, u32)> {
    let mut evs: Vec<(bool, u32)> = vec![(false, 9000), (true, 4500)];
    for k in 0..32u32 {
        let bit = if k < 16 {
            (w_addr >> k) & 1 == 1
        } else {
            (w_cmd >> (k - 16)) & 1 == 1
        };
        evs.push((false, 560));
        evs.push((true, if bit { 1690 } else { 560 }));
    }
    evs
}

/// Events of the nominal frame for an address and command, complements
/// included.
fn nec_events(addr: u8, cmd: u8) -> Vec<(bool, u32)> {
    let w_addr = (addr as u16) | (((!addr) as u16) << 8);
    let w_cmd = (cmd as u16) | (((!cmd) as u16) << 8);
    nec_raw_events(w_addr, w_cmd)
}

#[test]
fn nec_frame_decodes_once() {
    let mut state = NecReceiverState::create(1_000_000).unwrap();
    let evs = nec_events(0x04, 0x08);
    for (i, &(rising, dt)) in evs.iter().enumerate() {
        let st = state.event(rising, dt);
        if i + 1 < evs.len() {
            assert!(!matches!(st, InternalStatus::Done));
        } else {
            assert!(matches!(st, InternalStatus::Done));
        }
    }
    assert_eq!(state.status(), Status::Done);
    let cmd = state.command();
    assert_eq!(cmd, Some(NecCommand { addr: 4, cmd: 8, repeat: false }));
}

#[test]
fn nec_repeat_resolves_to_last_frame() {
    let mut state = NecReceiverState::create(1_000_000).unwrap();
    for &(rising, dt) in nec_events(0x04, 0x08).iter() {
        state.event(rising, dt);
    }
    assert_eq!(state.command(), Some(NecCommand { addr: 4, cmd: 8, repeat: false }));
    state.reset();
    // Repeat frame: 9 ms mark, 2.25 ms space, stop mark.
    state.event(false, 9000);
    let st = state.event(true, 2250);
    assert!(matches!(st, InternalStatus::RepeatDone));
    state.event(false, 560);
    assert_eq!(state.status(), Status::Done);
    assert_eq!(state.command(), Some(NecCommand { addr: 4, cmd: 8, repeat: true }));
}

#[test]
fn nec_stretched_bit_rejected_then_clean_frame_decodes() {
    let mut state = NecReceiverState::create(1_000_000).unwrap();
    // Same frame as the basic one, but the first Zero bit's space is
    // stretched by well over the 5 percent tolerance: 800 us instead of 560.
    state.event(false, 9000);
    state.event(true, 4500);
    state.event(false, 560);
    let st = state.event(true, 800);
    assert_eq!(st, InternalStatus::Error(infrared::Error::Data));
    assert_eq!(state.status(), Status::Error(infrared::Error::Data));
    assert_eq!(state.command(), None);
    state.reset();
    let evs = nec_events(0x04, 0x08);
    for &(rising, dt) in evs.iter() {
        state.event(rising, dt);
    }
    assert_eq!(state.command(), Some(NecCommand { addr: 4, cmd: 8, repeat: false }));
}

#[test]
fn nec_integrity_rejection() {
    // Address high byte equal to the low byte instead of its complement:
    // the frame completes internally but yields no command.
    let mut state = NecReceiverState::create(1_000_000).unwrap();
    let w_addr = 0x0404u16;
    let w_cmd = (0x08u16) | (((!0x08u8) as u16) << 8);
    for &(rising, dt) in nec_raw_events(w_addr, w_cmd).iter() {
        state.event(rising, dt);
    }
    assert!(matches!(state.status(), Status::Done));
    assert_eq!(state.command(), None);
}

#[test]
fn nec_reset_matches_fresh_decoder() {
    let mut used = NecReceiverState::create(1_000_000).unwrap();
    // Leave the decoder mid-frame, then reset it.
    used.event(false, 9000);
    used.event(true, 4500);
    used.event(false, 560);
    used.event(true, 1690);
    used.reset();
    let mut fresh = NecReceiverState::create(1_000_000).unwrap();
    // Any prefix of a waveform now drives both identically.
    let evs = nec_events(0x5a, 0xa5);
    for &(rising, dt) in evs.iter().take(17) {
        used.event(rising, dt);
        fresh.event(rising, dt);
    }
    assert_eq!(used.bitbuf_addr, fresh.bitbuf_addr);
    assert_eq!(used.bitbuf_cmd, fresh.bitbuf_cmd);
    assert_eq!(used.dt_save, fresh.dt_save);
    assert_eq!(used.status, fresh.status);
}

#[test]
fn nec_decodes_at_low_sampler_rate() {
    // 20 kHz: 1 tick is 50 us.
    let mut state = NecReceiverState::create(20_000).unwrap();
    let evs = nec_events(0x10, 0x2a);
    for &(rising, dt) in evs.iter() {
        state.event(rising, dt / 50);
    }
    assert_eq!(state.command(), Some(NecCommand { addr: 0x10, cmd: 0x2a, repeat: false }));
}

#[test]
fn nec_create_fails_when_windows_collapse() {
    // At 500 Hz the data windows are zero ticks wide.
    assert!(NecReceiverState::create(500).is_none());
}

#[test]
fn tolerances_sums_marks_and_spaces() {
    let pd = infrared::nec::NecPulseDistance::standard();
    let t = infrared::nec::tolerances(&pd);
    assert_eq!(t, [(13500, 10), (11250, 10), (1120, 5), (2250, 5)]);
}

#[test]
fn ranges_classify_in_window_order() {
    let pd = infrared::nec::NecPulseDistance::standard();
    let t = infrared::nec::tolerances(&pd);
    let r = InfraRange4::new(&t, 1_000_000).unwrap();
    assert_eq!(r.find(13500), Some(0));
    assert_eq!(r.find(11250), Some(1));
    assert_eq!(r.find(1120), Some(2));
    assert_eq!(r.find(2250), Some(3));
    assert_eq!(r.find(5000), None);
    // The sync and repeat windows overlap; the scan order resolves the tie.
    assert_eq!(r.find(12200), Some(0));
}

#[test]
fn pulse_width_from_index() {
    assert_eq!(PulseWidth::from(0), PulseWidth::Sync);
    assert_eq!(PulseWidth::from(1), PulseWidth::Repeat);
    assert_eq!(PulseWidth::from(2), PulseWidth::Zero);
    assert_eq!(PulseWidth::from(3), PulseWidth::One);
    assert_eq!(PulseWidth::from(7), PulseWidth::NotAPulseWidth);
}

#[test]
fn status_from_internal() {
    assert_eq!(Status::from(InternalStatus::Init), Status::Idle);
    assert_eq!(Status::from(InternalStatus::ReceivingAddr(3)), Status::Receiving);
    assert_eq!(Status::from(InternalStatus::ReceivingCmd(3)), Status::Receiving);
    assert_eq!(Status::from(InternalStatus::Done), Status::Done);
    assert_eq!(Status::from(InternalStatus::RepeatDone), Status::Done);
    assert_eq!(
        Status::from(InternalStatus::Error(infrared::Error::Data)),
        Status::Error(infrared::Error::Data)
    );
}

#[test]
fn nec_unpack_checks_both_complements() {
    assert_eq!(
        NecCommand::unpack(0xfb04, 0xf708, false),
        Some(NecCommand { addr: 4, cmd: 8, repeat: false })
    );
    assert_eq!(NecCommand::unpack(0x0404, 0xf708, false), None);
    assert_eq!(NecCommand::unpack(0xfb04, 0x0808, false), None);
}
