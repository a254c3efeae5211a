use infrared::rc5::{Rc5Command, Rc5InternalStatus, Rc5ReceiverState};
use infrared::Status;

/// Edge events of a 14-bit RC-5 frame at a 1 MHz sampler, built from the
/// Manchester timeline: a one is a low half followed by a high half, a zero
/// the opposite, each half 889 us.
fn rc5_events(bits: [bool; 14]) -> Vec<(bool, u32)> {
    let mut evs: Vec<(bool, u32)> = Vec::new();
    let mut level = false;
    let mut last_edge: i64 = -100_000;
    let mut t: i64 = 0;
    for &bit in bits.iter() {
        let halves = if bit { [false, true] } else { [true, false] };
        for &half in halves.iter() {
            if half != level {
                evs.push((half, (t - last_edge) as u32));
                level = half;
                last_edge = t;
            }
            t += 889;
        }
    }
    if level {
        evs.push((false, (t - last_edge) as u32));
    }
    evs
}

/// S1, S2, toggle, five address bits, six command bits, MSB first.
fn rc5_bits(addr: u8, cmd: u8, toggle: bool) -> [bool; 14] {
    let mut bits = [false; 14];
    bits[0] = true;
    bits[1] = true;
    bits[2] = toggle;
    for i in 0..5 {
        bits[3 + i] = (addr >> (4 - i)) & 1 == 1;
    }
    for i in 0..6 {
        bits[8 + i] = (cmd >> (5 - i)) & 1 == 1;
    }
    bits
}

#[test]
fn rc5_frame_decodes() {
    let mut state = Rc5ReceiverState::create(1_000_000).unwrap();
    let evs = rc5_events(rc5_bits(0x05, 0x10, false));
    let mut done_seen = false;
    for &(rising, dt) in evs.iter() {
        let st = state.event(rising, dt);
        if matches!(st, Rc5InternalStatus::Done) {
            done_seen = true;
        }
    }
    assert!(done_seen);
    assert_eq!(
        state.command(),
        Some(Rc5Command { addr: 0x05, cmd: 0x10, start: 3, toggle: 0 })
    );
}

#[test]
fn rc5_toggle_bit_survives() {
    let mut state = Rc5ReceiverState::create(1_000_000).unwrap();
    for &(rising, dt) in rc5_events(rc5_bits(0x1f, 0x3f, true)).iter() {
        state.event(rising, dt);
    }
    assert_eq!(
        state.command(),
        Some(Rc5Command { addr: 0x1f, cmd: 0x3f, start: 3, toggle: 1 })
    );
}

#[test]
fn rc5_bad_pulse_rejected() {
    let mut state = Rc5ReceiverState::create(1_000_000).unwrap();
    state.event(true, 100_000);
    assert_eq!(state.status(), Status::Receiving);
    // Neither one nor two half-bit periods within tolerance.
    let st = state.event(false, 1300);
    assert_eq!(st, Rc5InternalStatus::Error(infrared::Error::Data));
    state.reset();
    assert_eq!(state.status(), Status::Idle);
    for &(rising, dt) in rc5_events(rc5_bits(0x05, 0x10, false)).iter() {
        state.event(rising, dt);
    }
    assert_eq!(
        state.command(),
        Some(Rc5Command { addr: 0x05, cmd: 0x10, start: 3, toggle: 0 })
    );
}

#[test]
fn rc5_unpack_field_layout() {
    // 11 0 00101 010000: start bits, toggle, address 5, command 16.
    let buf: u16 = 0b11_0_00101_010000;
    assert_eq!(
        Rc5Command::unpack(buf),
        Rc5Command { addr: 5, cmd: 16, start: 3, toggle: 0 }
    );
}
