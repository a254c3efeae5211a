use infrared::multireceiver::{CmdEnum, InputPin, MultiReceiver, NecRc5, ReceiverWrapper};
use infrared::nec::NecCommand;
use infrared::receiver::{NecReceiver, Rc5Receiver};
use infrared::Error;

fn nec_events(addr: u8, cmd: u8) -> Vec<(bool, u32)> {
    let w_addr = (addr as u16) | (((!addr) as u16) << 8);
    let w_cmd = (cmd as u16) | (((!cmd) as u16) << 8);
    let mut evs: Vec<(bool, u32)> = vec![(false, 9000), (true, 4500)];
    for k in 0..32u32 {
        let bit = if k < 16 {
            (w_addr >> k) & 1 == 1
        } else {
            (w_cmd >> (k - 16)) & 1 == 1
        };
        evs.push((false, 560));
        evs.push((true, if bit { 1690 } else { 560 }));
    }
    evs
}

#[test]
fn receiver_adapter_emits_and_resets() {
    let mut rx = NecReceiver::new(1_000_000).unwrap();
    let evs = nec_events(0x04, 0x08);
    for (i, &(rising, dt)) in evs.iter().enumerate() {
        let out = rx.event(dt, rising);
        if i + 1 < evs.len() {
            assert_eq!(out, Ok(None));
        } else {
            assert_eq!(out, Ok(Some(NecCommand { addr: 4, cmd: 8, repeat: false })));
        }
    }
    // The adapter reset the decoder, so the same frame decodes again.
    for &(rising, dt) in nec_events(0x04, 0x08).iter().take(10) {
        assert_eq!(rx.event(dt, rising), Ok(None));
    }
}

#[test]
fn receiver_adapter_surfaces_data_error() {
    let mut rx = NecReceiver::new(1_000_000).unwrap();
    assert_eq!(rx.event(9000, false), Ok(None));
    assert_eq!(rx.event(4500, true), Ok(None));
    assert_eq!(rx.event(560, false), Ok(None));
    assert_eq!(rx.event(800, true), Err(Error::Data));
    // The adapter reset the decoder on the error.
    let evs = nec_events(0x01, 0x02);
    let mut last = Ok(None);
    for &(rising, dt) in evs.iter() {
        last = rx.event(dt, rising);
    }
    assert_eq!(last, Ok(Some(NecCommand { addr: 1, cmd: 2, repeat: false })));
}

#[test]
fn rc5_receiver_adapter_rejects_nec_frame() {
    let mut rx = Rc5Receiver::new(1_000_000).unwrap();
    let mut decoded = 0;
    for &(rising, dt) in nec_events(0x04, 0x08).iter() {
        if let Ok(Some(_)) = rx.event(dt, rising) {
            decoded += 1;
        }
    }
    assert_eq!(decoded, 0);
}

#[test]
fn multi_receiver_fills_at_most_one_slot() {
    let mut mr: MultiReceiver<NecRc5, ()> = MultiReceiver::new(1_000_000, ());
    let evs = nec_events(0x04, 0x08);
    for (i, &(rising, dt)) in evs.iter().enumerate() {
        let out = mr.event_generic(dt, rising);
        assert_eq!(out.len(), 2);
        assert!(out[1].is_none());
        if i + 1 < evs.len() {
            assert!(out[0].is_none());
        } else {
            assert_eq!(
                out[0],
                Some(CmdEnum::Nec(NecCommand { addr: 4, cmd: 8, repeat: false }))
            );
        }
    }
    // After the frame was handed out, both slots are empty again.
    let out = mr.event_generic(9000, false);
    assert!(out[0].is_none() && out[1].is_none());
}

#[test]
fn receiver_wrapper_builds_fresh_set() {
    let mut set = NecRc5::receivers(1_000_000);
    let out = set.event(9000, false);
    assert_eq!(out, vec![None, None]);
}

#[test]
fn cmd_enum_from_protocol_commands() {
    let n = NecCommand { addr: 1, cmd: 2, repeat: false };
    assert_eq!(CmdEnum::from(n), CmdEnum::Nec(n));
    let r = infrared::rc5::Rc5Command { addr: 1, cmd: 2, start: 3, toggle: 0 };
    assert_eq!(CmdEnum::from(r), CmdEnum::Rc5(r));
}

fn rc5_events(bits: [bool; 14]) -> Vec<(bool, u32)> {
    let mut evs: Vec<(bool, u32)> = Vec::new();
    let mut level = false;
    let mut last_edge: i64 = -100_000;
    let mut t: i64 = 0;
    for &bit in bits.iter() {
        let halves = if bit { [false, true] } else { [true, false] };
        for &half in halves.iter() {
            if half != level {
                evs.push((half, (t - last_edge) as u32));
                level = half;
                last_edge = t;
            }
            t += 889;
        }
    }
    if level {
        evs.push((false, (t - last_edge) as u32));
    }
    evs
}

#[test]
fn multi_receiver_rc5_waveform_fills_second_slot() {
    let mut bits = [false; 14];
    bits[0] = true;
    bits[1] = true;
    bits[8] = true;
    bits[13] = true;
    // S1 S2 T A4..A0 C5..C0 = 11 0 00000 100001: address 0, command 33.
    let mut mr: MultiReceiver<NecRc5, ()> = MultiReceiver::new(1_000_000, ());
    let mut nec_slots = 0;
    let mut rc5_cmd = None;
    for &(rising, dt) in rc5_events(bits).iter() {
        let out = mr.event_generic(dt, rising);
        if out[0].is_some() {
            nec_slots += 1;
        }
        if let Some(CmdEnum::Rc5(c)) = out[1] {
            rc5_cmd = Some(c);
        }
    }
    assert_eq!(nec_slots, 0);
    assert_eq!(
        rc5_cmd,
        Some(infrared::rc5::Rc5Command { addr: 0, cmd: 33, start: 3, toggle: 0 })
    );
}

/// A pin fed from a recorded level sequence.
struct ReplayPin {
    levels: Vec<bool>,
    at: usize,
    fail: bool,
}

impl InputPin for ReplayPin {
    type Error = u8;

    fn is_low(&mut self) -> Result<bool, u8> {
        if self.fail {
            return Err(17);
        }
        let v = self.levels[self.at];
        self.at += 1;
        Ok(v)
    }
}

#[test]
fn multi_receiver_samples_edges_from_pin() {
    // An IR front-end is active low: a low pin at the moment of the edge
    // means a mark begins, a rising envelope edge.
    let evs = nec_events(0x04, 0x08);
    let pin = ReplayPin { levels: evs.iter().map(|&(rising, _)| rising).collect(), at: 0, fail: false };
    let mut mr: MultiReceiver<NecRc5, ReplayPin> = MultiReceiver::new(1_000_000, pin);
    let mut last: Option<CmdEnum> = None;
    for &(_, dt) in evs.iter() {
        let out = mr.event(dt).unwrap();
        if out[0].is_some() {
            last = out[0];
        }
    }
    assert_eq!(last, Some(CmdEnum::Nec(NecCommand { addr: 4, cmd: 8, repeat: false })));
}

#[test]
fn multi_receiver_propagates_pin_error() {
    let pin = ReplayPin { levels: vec![], at: 0, fail: true };
    let mut mr: MultiReceiver<NecRc5, ReplayPin> = MultiReceiver::new(1_000_000, pin);
    assert_eq!(mr.event(100), Err(17));
    // The pin is reachable for the host to mend.
    mr.pin().fail = false;
    mr.pin().levels = vec![false];
    assert_eq!(mr.event(100), Ok(vec![None, None]));
}
