//! Proved properties of the decoders: how whole waveforms decode, not just
//! single events.

use vstd::prelude::*;

use crate::multireceiver::{NecRc5, ReceiverWrapper};
use crate::ranges::{in_range, spec_ticks, spec_window, spec_window_hi, spec_window_lo};
use crate::nec::{
    is_data, spec_command, spec_event, spec_fresh, spec_nec_ranges, spec_reset, spec_unpack,
    InternalStatus, NecCommand, NecReceiverState, PulseWidth,
};
use crate::rc5::{
    spec_rc5_command, spec_rc5_event, spec_rc5_fresh, spec_rc5_ranges, spec_rc5_reset,
    spec_rc5_unpack, Rc5InternalStatus, Rc5ReceiverState,
};
use crate::Error;

verus! {

/// Folding a sequence of edge events, each a polarity and a tick count, into
/// a NEC decoder state.
pub open spec fn nec_run(s: NecReceiverState, evs: Seq<(bool, u32)>) -> NecReceiverState
    decreases evs.len(),
{
    if evs.len() == 0 {
        s
    } else {
        nec_run(spec_event(s, evs[0].0, evs[0].1), evs.drop_first())
    }
}

/// Running a concatenation runs the two parts in order.
pub proof fn lemma_nec_run_append(s: NecReceiverState, a: Seq<(bool, u32)>, b: Seq<(bool, u32)>)
    ensures
        nec_run(s, a + b) == nec_run(nec_run(s, a), b),
    decreases a.len(),
{
    if a.len() == 0 {
        assert(a + b =~= b);
    } else {
        assert((a + b).drop_first() =~= a.drop_first() + b);
        lemma_nec_run_append(spec_event(s, a[0].0, a[0].1), a.drop_first(), b);
    }
}

/// Folding a sequence of edge events into an RC-5 decoder state.
pub open spec fn rc5_run(s: Rc5ReceiverState, evs: Seq<(bool, u32)>) -> Rc5ReceiverState
    decreases evs.len(),
{
    if evs.len() == 0 {
        s
    } else {
        rc5_run(spec_rc5_event(s, evs[0].0, evs[0].1), evs.drop_first())
    }
}

/// The decoding core of a NEC state: everything that drives the state
/// machine.  The retained frame of a completed transmission is deliberately
/// outside: it feeds repeat resolution only and never influences a
/// transition.
pub open spec fn same_nec_core(a: NecReceiverState, b: NecReceiverState) -> bool {
    &&& a.status == b.status
    &&& a.bitbuf_addr == b.bitbuf_addr
    &&& a.bitbuf_cmd == b.bitbuf_cmd
    &&& a.ranges == b.ranges
    &&& a.dt_save == b.dt_save
}

/// One event preserves core agreement.
pub proof fn lemma_nec_step_core(
    a: NecReceiverState,
    b: NecReceiverState,
    rising: bool,
    dt: u32,
)
    requires
        same_nec_core(a, b),
    ensures
        same_nec_core(spec_event(a, rising, dt), spec_event(b, rising, dt)),
{
}

/// Any run preserves core agreement.
pub proof fn lemma_nec_run_core(
    a: NecReceiverState,
    b: NecReceiverState,
    evs: Seq<(bool, u32)>,
)
    requires
        same_nec_core(a, b),
    ensures
        same_nec_core(nec_run(a, evs), nec_run(b, evs)),
    decreases evs.len(),
{
    if evs.len() != 0 {
        lemma_nec_step_core(a, b, evs[0].0, evs[0].1);
        lemma_nec_run_core(
            spec_event(a, evs[0].0, evs[0].1),
            spec_event(b, evs[0].0, evs[0].1),
            evs.drop_first(),
        );
    }
}

/// Law: a reset decoder fed any prefix of a waveform reaches the same
/// decoding core as a fresh decoder over the same windows fed that prefix.
/// Only the retained frame, which repeat resolution reads, may differ.
pub proof fn lemma_nec_reset_prefix_equiv(s: NecReceiverState, evs: Seq<(bool, u32)>)
    ensures
        same_nec_core(nec_run(spec_reset(s), evs), nec_run(spec_fresh(s.ranges), evs)),
{
    lemma_nec_run_core(spec_reset(s), spec_fresh(s.ranges), evs);
}

/// Law: an RC-5 decoder has no cross-frame memory at all, so after a reset it
/// is exactly a fresh decoder, and any waveform drives the two identically.
pub proof fn lemma_rc5_reset_prefix_equiv(s: Rc5ReceiverState, evs: Seq<(bool, u32)>)
    ensures
        rc5_run(spec_rc5_reset(s), evs) == rc5_run(spec_rc5_fresh(s.ranges), evs),
{
    assert(spec_rc5_reset(s) == spec_rc5_fresh(s.ranges));
}

/// The quotient of a floor division, bracketed by multiples of the divisor.
proof fn lemma_div_bounds(x: int, d: int)
    requires
        0 <= x,
        0 < d,
    ensures
        d * (x / d) <= x < d * (x / d) + d,
{
    vstd::arithmetic::div_mod::lemma_fundamental_div_mod(x, d);
    vstd::arithmetic::div_mod::lemma_mod_bound(x, d);
}

/// At any sampler frequency of at least 20 kHz, the NEC acceptance windows
/// are all non-empty, every tick count involved fits the event type, and the
/// four nominal mark-plus-space sums classify to their own symbols.
pub proof fn lemma_nec_nominal_classification(hz: u32)
    requires
        20_000 <= hz,
    ensures
        spec_nec_ranges(hz).wf(),
        0 <= spec_ticks(560, hz) && spec_ticks(560, hz) < 0x1_0000_0000,
        0 <= spec_ticks(1690, hz) && spec_ticks(1690, hz) < 0x1_0000_0000,
        0 <= spec_ticks(2250, hz) && spec_ticks(2250, hz) < 0x1_0000_0000,
        0 <= spec_ticks(4500, hz) && spec_ticks(4500, hz) < 0x1_0000_0000,
        0 <= spec_ticks(9000, hz) && spec_ticks(9000, hz) < 0x1_0000_0000,
        crate::nec::spec_pulse_width(
            spec_nec_ranges(hz),
            spec_ticks(9000, hz) + spec_ticks(4500, hz),
        ) == PulseWidth::Sync,
        crate::nec::spec_pulse_width(
            spec_nec_ranges(hz),
            spec_ticks(9000, hz) + spec_ticks(2250, hz),
        ) == PulseWidth::Repeat,
        crate::nec::spec_pulse_width(
            spec_nec_ranges(hz),
            spec_ticks(560, hz) + spec_ticks(560, hz),
        ) == PulseWidth::Zero,
        crate::nec::spec_pulse_width(
            spec_nec_ranges(hz),
            spec_ticks(560, hz) + spec_ticks(1690, hz),
        ) == PulseWidth::One,
{
    let h = hz as int;
    // Tick counts of the marks and spaces, and of the four window centres.
    lemma_div_bounds(560 * h, 1_000_000);
    lemma_div_bounds(1690 * h, 1_000_000);
    lemma_div_bounds(2250 * h, 1_000_000);
    lemma_div_bounds(4500 * h, 1_000_000);
    lemma_div_bounds(9000 * h, 1_000_000);
    lemma_div_bounds(1120 * h, 1_000_000);
    lemma_div_bounds(11250 * h, 1_000_000);
    lemma_div_bounds(13500 * h, 1_000_000);
    let c0 = spec_ticks(13500, hz);
    let c1 = spec_ticks(11250, hz);
    let c2 = spec_ticks(1120, hz);
    let c3 = spec_ticks(2250, hz);
    // Window edges.
    lemma_div_bounds(c0 * 90, 100);
    lemma_div_bounds(c0 * 110, 100);
    lemma_div_bounds(c1 * 90, 100);
    lemma_div_bounds(c1 * 110, 100);
    lemma_div_bounds(c2 * 95, 100);
    lemma_div_bounds(c2 * 105, 100);
    lemma_div_bounds(c3 * 95, 100);
    lemma_div_bounds(c3 * 105, 100);
    assert(270 <= c0);
    assert(225 <= c1);
    assert(22 <= c2);
    assert(45 <= c3);
    assert(c0 < 0x1_0000_0000);
    let r = spec_nec_ranges(hz);
    assert(r.r0 == spec_window(13500, 10, hz));
    assert(r.r1 == spec_window(11250, 10, hz));
    assert(r.r2 == spec_window(1120, 5, hz));
    assert(r.r3 == spec_window(2250, 5, hz));
    // The window edges are in u64 range, so the stored bounds are exact.
    assert(0 <= spec_window_lo(13500, 10, hz) < 0x1_0000_0000_0000_0000);
    assert(0 <= spec_window_hi(13500, 10, hz) < 0x1_0000_0000_0000_0000);
    assert(0 <= spec_window_lo(11250, 10, hz) < 0x1_0000_0000_0000_0000);
    assert(0 <= spec_window_hi(11250, 10, hz) < 0x1_0000_0000_0000_0000);
    assert(0 <= spec_window_lo(1120, 5, hz) < 0x1_0000_0000_0000_0000);
    assert(0 <= spec_window_hi(1120, 5, hz) < 0x1_0000_0000_0000_0000);
    assert(0 <= spec_window_lo(2250, 5, hz) < 0x1_0000_0000_0000_0000);
    assert(0 <= spec_window_hi(2250, 5, hz) < 0x1_0000_0000_0000_0000);
    let s_sync = spec_ticks(9000, hz) + spec_ticks(4500, hz);
    let s_rep = spec_ticks(9000, hz) + spec_ticks(2250, hz);
    let s_zero = spec_ticks(560, hz) + spec_ticks(560, hz);
    let s_one = spec_ticks(560, hz) + spec_ticks(1690, hz);
    // Each sum sits within one tick below its window centre.
    assert(c0 - 1 <= s_sync <= c0);
    assert(c1 - 1 <= s_rep <= c1);
    assert(c2 - 1 <= s_zero <= c2);
    assert(c3 - 1 <= s_one <= c3);
    // Membership in the own window.
    assert(in_range(r.r0, s_sync));
    assert(in_range(r.r1, s_rep));
    assert(in_range(r.r2, s_zero));
    assert(in_range(r.r3, s_one));
    // The earlier windows reject the later sums.
    assert(!in_range(r.r0, s_rep));
    assert(!in_range(r.r0, s_zero));
    assert(!in_range(r.r1, s_zero));
    assert(!in_range(r.r0, s_one));
    assert(!in_range(r.r1, s_one));
    assert(!in_range(r.r2, s_one));
}

/// Bit `k` of the 32-bit payload of a NEC frame; the address word carries
/// bits 0 to 15, the command word the rest.
pub open spec fn nec_word_bit(w_addr: u16, w_cmd: u16, k: int) -> bool {
    if k < 16 {
        (w_addr >> (k as u16)) & 1 == 1
    } else {
        (w_cmd >> ((k - 16) as u16)) & 1 == 1
    }
}

/// The low `n` bits of a word.
pub open spec fn low_bits16(w: u16, n: int) -> u16 {
    if n >= 16 {
        w
    } else {
        w & !(0xffffu16 << (n as u16))
    }
}

proof fn lemma_low_bits_zero(w: u16)
    ensures
        low_bits16(w, 0) == 0,
{
    assert(w & !(0xffffu16 << 0u16) == 0u16) by (bit_vector);
}

/// Adding bit `k` of a word to its low `k` bits gives its low `k + 1` bits.
proof fn lemma_low_bits_step(w: u16, k: u16)
    requires
        k < 16,
    ensures
        (w >> k) & 1 == 1 ==> (low_bits16(w, k as int) | (1u16 << k)) == low_bits16(
            w,
            k as int + 1,
        ),
        (w >> k) & 1 != 1 ==> low_bits16(w, k as int) == low_bits16(w, k as int + 1),
{
    if k < 15 {
        let k1: u16 = (k + 1) as u16;
        assert({
            &&& ((w >> k) & 1 == 1 ==> ((w & !(0xffffu16 << k)) | (1u16 << k)) == (w & !(0xffffu16
                << k1)))
            &&& ((w >> k) & 1 != 1 ==> (w & !(0xffffu16 << k)) == (w & !(0xffffu16 << k1)))
        }) by (bit_vector)
            requires
                k < 15u16 && k1 == k + 1,
        ;
    } else {
        assert(k == 15);
        assert({
            &&& ((w >> 15u16) & 1 == 1 ==> ((w & !(0xffffu16 << 15u16)) | (1u16 << 15u16)) == w)
            &&& ((w >> 15u16) & 1 != 1 ==> (w & !(0xffffu16 << 15u16)) == w)
        }) by (bit_vector);
    }
}

/// The machine is mid-frame.
pub open spec fn is_receiving(st: InternalStatus) -> bool {
    st matches InternalStatus::ReceivingAddr(_) || st matches InternalStatus::ReceivingCmd(_)
}

/// The state the machine is in after the sync symbol and `k` data symbols of
/// a frame.
pub open spec fn nec_phase_status(k: int) -> InternalStatus {
    if k < 16 {
        InternalStatus::ReceivingAddr(k as u16)
    } else if k < 32 {
        InternalStatus::ReceivingCmd((k - 16) as u16)
    } else {
        InternalStatus::Done
    }
}

/// One data symbol: a mark-space pair whose sum classifies to bit `k` of the
/// payload advances the machine from the state after `k` symbols to the
/// state after `k + 1`.
proof fn lemma_nec_data_step(
    s: NecReceiverState,
    m: u32,
    p: u32,
    w_addr: u16,
    w_cmd: u16,
    k: int,
)
    requires
        0 <= k < 32,
        s.status == nec_phase_status(k),
        s.bitbuf_addr == low_bits16(w_addr, if k < 16 { k } else { 16 }),
        s.bitbuf_cmd == (if k < 16 { 0u16 } else { low_bits16(w_cmd, k - 16) }),
        s.dt_save == 0,
        crate::nec::spec_pulse_width(s.ranges, m + p) == (if nec_word_bit(w_addr, w_cmd, k) {
            PulseWidth::One
        } else {
            PulseWidth::Zero
        }),
    ensures
        ({
            let s2 = spec_event(spec_event(s, false, m), true, p);
            &&& s2.status == nec_phase_status(k + 1)
            &&& s2.bitbuf_addr == low_bits16(w_addr, if k + 1 < 16 { k + 1 } else { 16 })
            &&& s2.bitbuf_cmd == (if k + 1 < 16 { 0u16 } else { low_bits16(w_cmd, k + 1 - 16) })
            &&& s2.dt_save == 0
            &&& s2.ranges == s.ranges
            &&& s2.last_addr == (if k + 1 == 32 { w_addr } else { s.last_addr })
            &&& s2.last_cmd == (if k + 1 == 32 { w_cmd } else { s.last_cmd })
        }),
{
    if k < 16 {
        lemma_low_bits_step(w_addr, k as u16);
    } else {
        lemma_low_bits_step(w_cmd, (k - 16) as u16);
    }
    if k == 15 {
        lemma_low_bits_zero(w_cmd);
    }
}

/// The shape of a run of data symbols: mark-space pairs whose classified
/// sums spell out the payload bits from bit `k` on.
pub open spec fn data_events(
    ranges: crate::ranges::InfraRange4,
    evs: Seq<(bool, u32)>,
    w_addr: u16,
    w_cmd: u16,
    k: int,
) -> bool
    decreases evs.len(),
{
    if evs.len() == 0 {
        true
    } else if evs.len() == 1 {
        false
    } else {
        &&& evs[0].0 == false
        &&& evs[1].0 == true
        &&& crate::nec::spec_pulse_width(ranges, evs[0].1 + evs[1].1) == (if nec_word_bit(
            w_addr,
            w_cmd,
            k,
        ) {
            PulseWidth::One
        } else {
            PulseWidth::Zero
        })
        &&& data_events(ranges, evs.skip(2), w_addr, w_cmd, k + 1)
    }
}

proof fn lemma_drop2_is_skip2<A>(evs: Seq<A>)
    requires
        evs.len() >= 2,
    ensures
        evs.drop_first().drop_first() == evs.skip(2),
{
    assert(evs.drop_first().drop_first() =~= evs.skip(2));
}

proof fn lemma_take_shift<A>(evs: Seq<A>, i: int)
    requires
        2 <= i <= evs.len(),
    ensures
        evs.take(i).drop_first().drop_first() == evs.skip(2).take(i - 2),
{
    assert(evs.take(i).drop_first().drop_first() =~= evs.skip(2).take(i - 2));
}

/// Unfolding a run over its first two events.
proof fn lemma_nec_run_two(x: NecReceiverState, t: Seq<(bool, u32)>)
    requires
        t.len() >= 2,
    ensures
        nec_run(x, t) == nec_run(
            spec_event(spec_event(x, t[0].0, t[0].1), t[1].0, t[1].1),
            t.drop_first().drop_first(),
        ),
{
    let x1 = spec_event(x, t[0].0, t[0].1);
    assert(nec_run(x, t) == nec_run(x1, t.drop_first()));
    assert(t.drop_first()[0] == t[1]);
    assert(t.drop_first().len() == t.len() - 1);
    assert(nec_run(x1, t.drop_first()) == nec_run(
        spec_event(x1, t[1].0, t[1].1),
        t.drop_first().drop_first(),
    ));
}

/// The data phase, by induction: from the state reached after `k` data
/// symbols, a run of `n` further mark-space pairs whose sums classify to the
/// bits of the payload words advances the machine to the state after `k + n`
/// symbols, filling the buffers with exactly those bits.
#[verifier::rlimit(100)]
pub proof fn lemma_nec_data_phase(
    s: NecReceiverState,
    evs: Seq<(bool, u32)>,
    w_addr: u16,
    w_cmd: u16,
    k: int,
    n: int,
)
    requires
        0 <= k && 0 <= n && k + n <= 32 && k < 32,
        s.status == nec_phase_status(k),
        s.bitbuf_addr == low_bits16(w_addr, if k < 16 { k } else { 16 }),
        s.bitbuf_cmd == (if k < 16 { 0u16 } else { low_bits16(w_cmd, k - 16) }),
        s.dt_save == 0,
        evs.len() == 2 * n,
        data_events(s.ranges, evs, w_addr, w_cmd, k),
    ensures
        ({
            let f = nec_run(s, evs);
            &&& f.status == nec_phase_status(k + n)
            &&& f.bitbuf_addr == low_bits16(w_addr, if k + n < 16 { k + n } else { 16 })
            &&& f.bitbuf_cmd == (if k + n < 16 { 0u16 } else { low_bits16(w_cmd, k + n - 16) })
            &&& f.ranges == s.ranges
            &&& f.dt_save == 0
            &&& f.last_addr == (if k + n == 32 { w_addr } else { s.last_addr })
            &&& f.last_cmd == (if k + n == 32 { w_cmd } else { s.last_cmd })
        }),
    decreases n,
{
    if n > 0 {
        let s1 = spec_event(s, false, evs[0].1);
        let s2 = spec_event(s1, true, evs[1].1);
        lemma_nec_data_step(s, evs[0].1, evs[1].1, w_addr, w_cmd, k);
        let tail = evs.skip(2);
        assert(tail.len() == 2 * (n - 1));
        if n - 1 > 0 {
            lemma_nec_data_phase(s2, tail, w_addr, w_cmd, k + 1, n - 1);
        }
        lemma_nec_run_two(s, evs);
        lemma_drop2_is_skip2(evs);
        assert(nec_run(s, evs) == nec_run(s2, tail));
    }
}

/// Every proper prefix of a data phase leaves the machine mid-frame: no
/// completed frame, no repeat and no error before the last symbol.
#[verifier::rlimit(100)]
pub proof fn lemma_nec_data_phase_prefixes(
    s: NecReceiverState,
    evs: Seq<(bool, u32)>,
    w_addr: u16,
    w_cmd: u16,
    k: int,
    n: int,
)
    requires
        0 <= k && 0 <= n && k + n <= 32 && k < 32,
        s.status == nec_phase_status(k),
        s.bitbuf_addr == low_bits16(w_addr, if k < 16 { k } else { 16 }),
        s.bitbuf_cmd == (if k < 16 { 0u16 } else { low_bits16(w_cmd, k - 16) }),
        s.dt_save == 0,
        evs.len() == 2 * n,
        data_events(s.ranges, evs, w_addr, w_cmd, k),
    ensures
        forall|i: int|
            0 <= i < 2 * n ==> is_receiving((#[trigger] nec_run(s, evs.take(i))).status),
    decreases n,
{
    if n > 0 {
        let s1 = spec_event(s, false, evs[0].1);
        let s2 = spec_event(s1, true, evs[1].1);
        lemma_nec_data_step(s, evs[0].1, evs[1].1, w_addr, w_cmd, k);
        let tail = evs.skip(2);
        assert(tail.len() == 2 * (n - 1));
        if n - 1 > 0 {
            lemma_nec_data_phase_prefixes(s2, tail, w_addr, w_cmd, k + 1, n - 1);
        }
        assert forall|i: int| 0 <= i < 2 * n implies is_receiving(
            (#[trigger] nec_run(s, evs.take(i))).status,
        ) by {
            if i == 0 {
                assert(evs.take(0).len() == 0);
                assert(nec_run(s, evs.take(0)) == s);
            } else if i == 1 {
                let t = evs.take(1);
                assert(t[0] == evs[0]);
                assert(t.len() == 1);
                assert(t.drop_first().len() == 0);
                assert(nec_run(s, t) == nec_run(s1, t.drop_first()));
                assert(nec_run(s, t) == s1);
            } else {
                let t = evs.take(i);
                assert(t.len() == i);
                assert(t[0] == evs[0] && t[1] == evs[1]);
                lemma_nec_run_two(s, t);
                lemma_take_shift(evs, i);
                assert(nec_run(s, t) == nec_run(s2, tail.take(i - 2)));
            }
        }
    }
}

/// An error state absorbs every further event.
pub proof fn lemma_nec_error_absorbs(s: NecReceiverState, evs: Seq<(bool, u32)>)
    requires
        s.status matches InternalStatus::Error(_),
    ensures
        nec_run(s, evs).status == s.status,
    decreases evs.len(),
{
    if evs.len() > 0 {
        lemma_nec_error_absorbs(spec_event(s, evs[0].0, evs[0].1), evs.drop_first());
    }
}

/// A full frame: a sync pair followed by 32 data symbols drives a fresh
/// decoding core to `Done` with the payload words in the buffers, and the
/// machine is neither done nor in error at any earlier point.
#[verifier::rlimit(100)]
pub proof fn lemma_nec_frame(
    s: NecReceiverState,
    evs: Seq<(bool, u32)>,
    w_addr: u16,
    w_cmd: u16,
)
    requires
        s.status == InternalStatus::Init,
        s.bitbuf_addr == 0,
        s.bitbuf_cmd == 0,
        s.dt_save == 0,
        evs.len() == 66,
        evs[0].0 == false,
        evs[1].0 == true,
        crate::nec::spec_pulse_width(s.ranges, evs[0].1 + evs[1].1) == PulseWidth::Sync,
        data_events(s.ranges, evs.skip(2), w_addr, w_cmd, 0),
    ensures
        ({
            let f = nec_run(s, evs);
            &&& f.status == InternalStatus::Done
            &&& f.bitbuf_addr == w_addr
            &&& f.bitbuf_cmd == w_cmd
            &&& f.last_addr == w_addr
            &&& f.last_cmd == w_cmd
            &&& f.ranges == s.ranges
        }),
        forall|i: int|
            0 <= i < 66 ==> {
                let st = (#[trigger] nec_run(s, evs.take(i))).status;
                st != InternalStatus::Done && st != InternalStatus::RepeatDone && !(
                st matches InternalStatus::Error(_))
            },
{
    let s1 = spec_event(s, false, evs[0].1);
    let s2 = spec_event(s1, true, evs[1].1);
    assert(s2.status == InternalStatus::ReceivingAddr(0));
    lemma_low_bits_zero(w_addr);
    let tail = evs.skip(2);
    assert(tail.len() == 64);
    lemma_nec_data_phase(s2, tail, w_addr, w_cmd, 0, 32);
    lemma_nec_data_phase_prefixes(s2, tail, w_addr, w_cmd, 0, 32);
    lemma_nec_run_two(s, evs);
    lemma_drop2_is_skip2(evs);
    assert(nec_run(s, evs) == nec_run(s2, tail));
    assert forall|i: int| 0 <= i < 66 implies {
        let st = (#[trigger] nec_run(s, evs.take(i))).status;
        st != InternalStatus::Done && st != InternalStatus::RepeatDone && !(
        st matches InternalStatus::Error(_))
    } by {
        if i == 0 {
            assert(evs.take(0).len() == 0);
            assert(nec_run(s, evs.take(0)) == s);
        } else if i == 1 {
            let t = evs.take(1);
            assert(t[0] == evs[0]);
            assert(t.len() == 1);
            assert(t.drop_first().len() == 0);
            assert(nec_run(s, t) == nec_run(s1, t.drop_first()));
            assert(nec_run(s, t) == s1);
        } else {
            let t = evs.take(i);
            assert(t.len() == i);
            assert(t[0] == evs[0] && t[1] == evs[1]);
            lemma_nec_run_two(s, t);
            lemma_take_shift(evs, i);
            assert(nec_run(s, t) == nec_run(s2, tail.take(i - 2)));
            assert(is_receiving(nec_run(s2, tail.take(i - 2)).status));
        }
    }
}

/// Tick count as carried in an event.
pub open spec fn tick32(us: u32, hz: u32) -> u32 {
    spec_ticks(us, hz) as u32
}

/// The 16-bit payload word carrying a byte and its bitwise complement, as a
/// valid NEC frame transmits it.
pub open spec fn nec_encode_word(b: u8) -> u16 {
    (b as u16) | (((!b) as u16) << 8u16)
}

/// The nominal data waveform from bit `k` on, at sampler frequency `hz`:
/// 560 us marks, with 560 us or 1690 us spaces by bit value.
pub open spec fn nec_nominal_data(w_addr: u16, w_cmd: u16, hz: u32, k: int) -> Seq<(bool, u32)>
    decreases 32 - k,
{
    if k >= 32 {
        Seq::empty()
    } else {
        seq![
            (false, tick32(560, hz)),
            (
                true,
                if nec_word_bit(w_addr, w_cmd, k) {
                    tick32(1690, hz)
                } else {
                    tick32(560, hz)
                },
            ),
        ] + nec_nominal_data(w_addr, w_cmd, hz, k + 1)
    }
}

/// The nominal waveform of a whole frame: header mark and space, then the 32
/// data symbols of the encoded address and command.
pub open spec fn nec_nominal_events(addr: u8, cmd: u8, hz: u32) -> Seq<(bool, u32)> {
    seq![(false, tick32(9000, hz)), (true, tick32(4500, hz))] + nec_nominal_data(
        nec_encode_word(addr),
        nec_encode_word(cmd),
        hz,
        0,
    )
}

/// The nominal data waveform classifies to exactly the payload bits, at any
/// sampler frequency of at least 20 kHz.
proof fn lemma_nec_nominal_data_events(w_addr: u16, w_cmd: u16, hz: u32, k: int)
    requires
        20_000 <= hz,
        0 <= k <= 32,
    ensures
        nec_nominal_data(w_addr, w_cmd, hz, k).len() == 2 * (32 - k),
        data_events(spec_nec_ranges(hz), nec_nominal_data(w_addr, w_cmd, hz, k), w_addr, w_cmd, k),
    decreases 32 - k,
{
    lemma_nec_nominal_classification(hz);
    if k < 32 {
        lemma_nec_nominal_data_events(w_addr, w_cmd, hz, k + 1);
        let evs = nec_nominal_data(w_addr, w_cmd, hz, k);
        assert(evs[0] == (false, tick32(560, hz)));
        assert(evs[1].0 == true);
        assert(evs.skip(2) =~= nec_nominal_data(w_addr, w_cmd, hz, k + 1));
        assert(tick32(560, hz) as int == spec_ticks(560, hz));
        assert(tick32(1690, hz) as int == spec_ticks(1690, hz));
    }
}

/// The complement checks pass on the encoded words, and unpacking recovers
/// the address and command.
proof fn lemma_nec_encode_unpack(a: u8, c: u8)
    ensures
        spec_unpack(nec_encode_word(a), nec_encode_word(c), false) == Some(
            NecCommand { addr: a as u16, cmd: c, repeat: false },
        ),
        spec_unpack(nec_encode_word(a), nec_encode_word(c), true) == Some(
            NecCommand { addr: a as u16, cmd: c, repeat: true },
        ),
{
    assert(((((a as u16) | (((!a) as u16) << 8u16)) & 0xff) as u8) == a) by (bit_vector);
    assert(((((a as u16) | (((!a) as u16) << 8u16)) >> 8u16) as u8) == !a) by (bit_vector);
    assert(((((c as u16) | (((!c) as u16) << 8u16)) & 0xff) as u8) == c) by (bit_vector);
    assert(((((c as u16) | (((!c) as u16) << 8u16)) >> 8u16) as u8) == !c) by (bit_vector);
}

/// Law: at every sampler frequency of at least 20 kHz, the nominal NEC
/// waveform of a frame yields exactly one completed frame, carrying that
/// frame's address and command.
pub proof fn lemma_nec_nominal_decodes(addr: u8, cmd: u8, hz: u32)
    requires
        20_000 <= hz,
    ensures
        spec_nec_ranges(hz).wf(),
        ({
            let f = nec_run(spec_fresh(spec_nec_ranges(hz)), nec_nominal_events(addr, cmd, hz));
            &&& f.status == InternalStatus::Done
            &&& spec_command(f) == Some(NecCommand { addr: addr as u16, cmd: cmd, repeat: false })
        }),
        forall|i: int|
            0 <= i < 66 ==> (#[trigger] nec_run(
                spec_fresh(spec_nec_ranges(hz)),
                nec_nominal_events(addr, cmd, hz).take(i),
            )).status != InternalStatus::Done,
{
    lemma_nec_nominal_classification(hz);
    let wa = nec_encode_word(addr);
    let wc = nec_encode_word(cmd);
    lemma_nec_nominal_data_events(wa, wc, hz, 0);
    let s0 = spec_fresh(spec_nec_ranges(hz));
    let evs = nec_nominal_events(addr, cmd, hz);
    assert(evs.len() == 66);
    assert(evs[0] == (false, tick32(9000, hz)));
    assert(evs[1] == (true, tick32(4500, hz)));
    assert(evs.skip(2) =~= nec_nominal_data(wa, wc, hz, 0));
    assert(tick32(9000, hz) as int == spec_ticks(9000, hz));
    assert(tick32(4500, hz) as int == spec_ticks(4500, hz));
    lemma_nec_frame(s0, evs, wa, wc);
    lemma_nec_encode_unpack(addr, cmd);
}

/// Law (rejection): if, mid-frame, one data symbol's measured sum classifies
/// to no data symbol, the machine rejects the frame with a data error and
/// stays rejected to the end of the waveform, whatever follows.
#[verifier::rlimit(100)]
pub proof fn lemma_nec_corrupt_symbol_rejected(
    s: NecReceiverState,
    evs: Seq<(bool, u32)>,
    w_addr: u16,
    w_cmd: u16,
    k: int,
)
    requires
        s.status == InternalStatus::Init,
        s.bitbuf_addr == 0,
        s.bitbuf_cmd == 0,
        s.dt_save == 0,
        0 <= k < 32,
        2 + 2 * k + 2 <= evs.len(),
        evs[0].0 == false,
        evs[1].0 == true,
        crate::nec::spec_pulse_width(s.ranges, evs[0].1 + evs[1].1) == PulseWidth::Sync,
        data_events(s.ranges, evs.subrange(2, 2 + 2 * k), w_addr, w_cmd, 0),
        evs[2 + 2 * k].0 == false,
        evs[2 + 2 * k + 1].0 == true,
        !is_data(crate::nec::spec_pulse_width(s.ranges, evs[2 + 2 * k].1 + evs[2 + 2 * k + 1].1)),
    ensures
        nec_run(s, evs).status == InternalStatus::Error(Error::Data),
{
    let s1 = spec_event(s, false, evs[0].1);
    let s2 = spec_event(s1, true, evs[1].1);
    lemma_low_bits_zero(w_addr);
    let mid = evs.subrange(2, 2 + 2 * k);
    lemma_nec_data_phase(s2, mid, w_addr, w_cmd, 0, k);
    let s3 = nec_run(s2, mid);
    let s4 = spec_event(s3, false, evs[2 + 2 * k].1);
    let s5 = spec_event(s4, true, evs[2 + 2 * k + 1].1);
    assert(s5.status == InternalStatus::Error(Error::Data));
    lemma_nec_error_absorbs(s5, evs.skip(2 + 2 * k + 2));
    lemma_nec_run_two(s, evs);
    lemma_drop2_is_skip2(evs);
    assert(nec_run(s, evs) == nec_run(s2, evs.skip(2)));
    assert(evs.skip(2) =~= mid + evs.skip(2 + 2 * k));
    lemma_nec_run_append(s2, mid, evs.skip(2 + 2 * k));
    let rest = evs.skip(2 + 2 * k);
    assert(rest.len() >= 2);
    assert(rest[0] == evs[2 + 2 * k]);
    assert(rest[1] == evs[2 + 2 * k + 1]);
    lemma_nec_run_two(s3, rest);
    lemma_drop2_is_skip2(rest);
    assert(rest.skip(2) =~= evs.skip(2 + 2 * k + 2));
    assert(nec_run(s3, rest) == nec_run(s5, evs.skip(2 + 2 * k + 2)));
}

/// The payload words with bit `k` flipped.
pub open spec fn flip_bit_words(w_addr: u16, w_cmd: u16, k: int) -> (u16, u16) {
    if k < 16 {
        (w_addr ^ (1u16 << (k as u16)), w_cmd)
    } else {
        (w_addr, w_cmd ^ (1u16 << ((k - 16) as u16)))
    }
}

/// Flipping any one bit of an encoded word breaks its complement check.
proof fn lemma_flip_breaks_complement(b: u8, k: u16)
    requires
        k < 16,
    ensures
        ({
            let w = nec_encode_word(b) ^ (1u16 << k);
            ((w >> 8u16) as u8) != !((w & 0xff) as u8)
        }),
{
    assert(((((b as u16) | (((!b) as u16) << 8u16)) ^ (1u16 << k)) >> 8u16) as u8 != !(((((b
        as u16) | (((!b) as u16) << 8u16)) ^ (1u16 << k)) & 0xff) as u8)) by (bit_vector)
        requires
            k < 16u16,
    ;
}

/// Law (integrity): a frame whose 32 data symbols spell a valid command's
/// payload with any single bit flipped still completes, but unpacking rejects
/// it: a frame corrupted into the wrong symbol never yields a wrongly decoded
/// command.
pub proof fn lemma_nec_flipped_bit_no_command(
    s: NecReceiverState,
    evs: Seq<(bool, u32)>,
    addr: u8,
    cmd: u8,
    k: int,
)
    requires
        s.status == InternalStatus::Init,
        s.bitbuf_addr == 0,
        s.bitbuf_cmd == 0,
        s.dt_save == 0,
        0 <= k < 32,
        evs.len() == 66,
        evs[0].0 == false,
        evs[1].0 == true,
        crate::nec::spec_pulse_width(s.ranges, evs[0].1 + evs[1].1) == PulseWidth::Sync,
        data_events(
            s.ranges,
            evs.skip(2),
            flip_bit_words(nec_encode_word(addr), nec_encode_word(cmd), k).0,
            flip_bit_words(nec_encode_word(addr), nec_encode_word(cmd), k).1,
            0,
        ),
    ensures
        nec_run(s, evs).status == InternalStatus::Done,
        spec_command(nec_run(s, evs)) == None::<NecCommand>,
{
    let wa = nec_encode_word(addr);
    let wc = nec_encode_word(cmd);
    let va = flip_bit_words(wa, wc, k).0;
    let vc = flip_bit_words(wa, wc, k).1;
    lemma_nec_frame(s, evs, va, vc);
    lemma_nec_encode_unpack(addr, cmd);
    if k < 16 {
        lemma_flip_breaks_complement(addr, k as u16);
    } else {
        lemma_flip_breaks_complement(cmd, (k - 16) as u16);
        assert((((wa & 0xff) as u8) == addr) && (((wa >> 8u16) as u8) == !addr)) by {
            assert(((((addr as u16) | (((!addr) as u16) << 8u16)) & 0xff) as u8) == addr)
                by (bit_vector);
            assert(((((addr as u16) | (((!addr) as u16) << 8u16)) >> 8u16) as u8) == !addr)
                by (bit_vector);
        }
    }
}

/// At any sampler frequency of at least 20 kHz, the two RC-5 acceptance
/// windows are non-empty and the nominal edge distances of one and two
/// half-bit periods classify to their own windows.
pub proof fn lemma_rc5_nominal_classification(hz: u32)
    requires
        20_000 <= hz,
    ensures
        spec_rc5_ranges(hz).wf(),
        0 <= spec_ticks(889, hz) && spec_ticks(889, hz) < 0x1_0000_0000,
        0 <= spec_ticks(1778, hz) && spec_ticks(1778, hz) < 0x1_0000_0000,
        spec_rc5_ranges(hz).spec_find(spec_ticks(889, hz)) == Some(0usize),
        spec_rc5_ranges(hz).spec_find(spec_ticks(1778, hz)) == Some(1usize),
{
    let h = hz as int;
    lemma_div_bounds(889 * h, 1_000_000);
    lemma_div_bounds(1778 * h, 1_000_000);
    let t0 = spec_ticks(889, hz);
    let t1 = spec_ticks(1778, hz);
    lemma_div_bounds(t0 * 90, 100);
    lemma_div_bounds(t0 * 110, 100);
    lemma_div_bounds(t1 * 90, 100);
    lemma_div_bounds(t1 * 110, 100);
    assert(17 <= t0);
    assert(35 <= t1);
    let r = spec_rc5_ranges(hz);
    assert(r.r0 == spec_window(889, 10, hz));
    assert(r.r1 == spec_window(1778, 10, hz));
    assert(0 <= spec_window_lo(889, 10, hz) < 0x1_0000_0000_0000_0000);
    assert(0 <= spec_window_hi(889, 10, hz) < 0x1_0000_0000_0000_0000);
    assert(0 <= spec_window_lo(1778, 10, hz) < 0x1_0000_0000_0000_0000);
    assert(0 <= spec_window_hi(1778, 10, hz) < 0x1_0000_0000_0000_0000);
    assert(in_range(r.r0, t0));
    assert(!in_range(r.r0, t1));
    assert(in_range(r.r1, t1));
}

/// Bit `i` of a 14-bit RC-5 frame, counted from the first transmitted bit:
/// the frame goes out MSB first, so this is buffer bit `13 - i`.
pub open spec fn rc5_frame_bit(buf: u16, i: int) -> bool {
    (buf >> ((13 - i) as u16)) & 1 == 1
}

/// The buffer with its low `k` bits cleared.
pub open spec fn rc5_high_part(buf: u16, k: u16) -> u16 {
    (buf >> k) << k
}

/// Placing the next frame bit below the already received ones.
proof fn lemma_rc5_high_part_step(buf: u16, k: u16)
    requires
        1 <= k < 16,
    ensures
        (buf >> (k - 1) as u16) & 1 == 1 ==> (rc5_high_part(buf, k) | (1u16 << (k - 1) as u16))
            == rc5_high_part(buf, (k - 1) as u16),
        (buf >> (k - 1) as u16) & 1 != 1 ==> rc5_high_part(buf, k) == rc5_high_part(
            buf,
            (k - 1) as u16,
        ),
{
    let k1: u16 = (k - 1) as u16;
    assert({
        &&& ((buf >> k1) & 1 == 1 ==> (((buf >> k) << k) | (1u16 << k1)) == ((buf >> k1) << k1))
        &&& ((buf >> k1) & 1 != 1 ==> ((buf >> k) << k) == ((buf >> k1) << k1))
    }) by (bit_vector)
        requires
            1 <= k < 16u16 && k1 == k - 1,
    ;
}

/// The nominal RC-5 edge events from the midpoint transition of bit `i - 1`
/// to the end of the frame.  Equal neighbouring bits put a transition on the
/// bit boundary (one half-bit period to it, one more to the next midpoint);
/// unequal neighbours go midpoint to midpoint in one double period.
pub open spec fn rc5_nominal_tail(buf: u16, hz: u32, i: int) -> Seq<(bool, u32)>
    decreases 14 - i,
{
    if i >= 14 {
        Seq::empty()
    } else {
        let prev = rc5_frame_bit(buf, i - 1);
        let cur = rc5_frame_bit(buf, i);
        if cur == prev {
            seq![(!prev, tick32(889, hz)), (cur, tick32(889, hz))] + rc5_nominal_tail(
                buf,
                hz,
                i + 1,
            )
        } else {
            seq![(cur, tick32(1778, hz))] + rc5_nominal_tail(buf, hz, i + 1)
        }
    }
}

/// The nominal waveform of a whole RC-5 frame: the first rising edge is the
/// midpoint of the first start bit, `d0` ticks after whatever came before.
pub open spec fn rc5_nominal_events(buf: u16, hz: u32, d0: u32) -> Seq<(bool, u32)> {
    seq![(true, d0)] + rc5_nominal_tail(buf, hz, 1)
}

/// Unfolding an RC-5 run over its first event.
proof fn lemma_rc5_run_one(x: Rc5ReceiverState, t: Seq<(bool, u32)>)
    requires
        t.len() >= 1,
    ensures
        rc5_run(x, t) == rc5_run(spec_rc5_event(x, t[0].0, t[0].1), t.drop_first()),
{
}

/// The RC-5 data phase, by induction over the frame bits: from the state
/// just after the midpoint of bit `i - 1`, the rest of the nominal waveform
/// drives the machine to `Done` with the whole frame in the buffer.
#[verifier::rlimit(100)]
proof fn lemma_rc5_tail(s: Rc5ReceiverState, buf: u16, hz: u32, i: int)
    requires
        20_000 <= hz,
        1 <= i <= 14,
        s.status == (if i == 14 {
            Rc5InternalStatus::Done
        } else {
            Rc5InternalStatus::Data((13 - i) as u16)
        }),
        s.clock == 0,
        s.bitbuf == rc5_high_part(buf, (14 - i) as u16),
        s.ranges == spec_rc5_ranges(hz),
    ensures
        ({
            let f = rc5_run(s, rc5_nominal_tail(buf, hz, i));
            &&& f.status == Rc5InternalStatus::Done
            &&& f.bitbuf == buf
            &&& f.ranges == s.ranges
        }),
    decreases 14 - i,
{
    lemma_rc5_nominal_classification(hz);
    assert(rc5_high_part(buf, 0u16) == buf) by {
        assert((buf >> 0u16) << 0u16 == buf) by (bit_vector);
    }
    if i < 14 {
        let evs = rc5_nominal_tail(buf, hz, i);
        let prev = rc5_frame_bit(buf, i - 1);
        let cur = rc5_frame_bit(buf, i);
        let k = (14 - i) as u16;
        lemma_rc5_high_part_step(buf, k);
        assert(cur == ((buf >> (k - 1) as u16) & 1 == 1));
        assert(tick32(889, hz) as int == spec_ticks(889, hz));
        assert(tick32(1778, hz) as int == spec_ticks(1778, hz));
        if cur == prev {
            let s1 = spec_rc5_event(s, !prev, tick32(889, hz));
            assert(s1.status == s.status && s1.bitbuf == s.bitbuf && s1.clock == 1);
            let s2 = spec_rc5_event(s1, cur, tick32(889, hz));
            assert(s2.clock == 0);
            assert(s2.status == (if i + 1 == 14 {
                Rc5InternalStatus::Done
            } else {
                Rc5InternalStatus::Data((13 - (i + 1)) as u16)
            }));
            assert(s2.bitbuf == rc5_high_part(buf, (14 - (i + 1)) as u16));
            lemma_rc5_run_one(s, evs);
            assert(evs.drop_first()[0] == evs[1]);
            lemma_rc5_run_one(s1, evs.drop_first());
            lemma_drop2_is_skip2(evs);
            assert(evs.skip(2) =~= rc5_nominal_tail(buf, hz, i + 1));
            lemma_rc5_tail(s2, buf, hz, i + 1);
        } else {
            let s1 = spec_rc5_event(s, cur, tick32(1778, hz));
            assert(s1.clock == 0);
            assert(s1.status == (if i + 1 == 14 {
                Rc5InternalStatus::Done
            } else {
                Rc5InternalStatus::Data((13 - (i + 1)) as u16)
            }));
            assert(s1.bitbuf == rc5_high_part(buf, (14 - (i + 1)) as u16));
            lemma_rc5_run_one(s, evs);
            assert(evs.drop_first() =~= rc5_nominal_tail(buf, hz, i + 1));
            lemma_rc5_tail(s1, buf, hz, i + 1);
        }
    }
}

proof fn lemma_take_shift1<A>(evs: Seq<A>, j: int)
    requires
        1 <= j <= evs.len(),
    ensures
        evs.take(j).drop_first() == evs.drop_first().take(j - 1),
{
    assert(evs.take(j).drop_first() =~= evs.drop_first().take(j - 1));
}

/// Before the last midpoint transition the RC-5 machine is always mid-frame.
#[verifier::rlimit(100)]
proof fn lemma_rc5_tail_prefixes(s: Rc5ReceiverState, buf: u16, hz: u32, i: int)
    requires
        20_000 <= hz,
        1 <= i <= 14,
        s.status == (if i == 14 {
            Rc5InternalStatus::Done
        } else {
            Rc5InternalStatus::Data((13 - i) as u16)
        }),
        s.clock == 0,
        s.bitbuf == rc5_high_part(buf, (14 - i) as u16),
        s.ranges == spec_rc5_ranges(hz),
    ensures
        forall|j: int|
            0 <= j < rc5_nominal_tail(buf, hz, i).len() ==> (#[trigger] rc5_run(
                s,
                rc5_nominal_tail(buf, hz, i).take(j),
            )).status matches Rc5InternalStatus::Data(_),
    decreases 14 - i,
{
    lemma_rc5_nominal_classification(hz);
    if i < 14 {
        let evs = rc5_nominal_tail(buf, hz, i);
        let prev = rc5_frame_bit(buf, i - 1);
        let cur = rc5_frame_bit(buf, i);
        let k = (14 - i) as u16;
        lemma_rc5_high_part_step(buf, k);
        assert(cur == ((buf >> (k - 1) as u16) & 1 == 1));
        assert(tick32(889, hz) as int == spec_ticks(889, hz));
        assert(tick32(1778, hz) as int == spec_ticks(1778, hz));
        if cur == prev {
            let s1 = spec_rc5_event(s, !prev, tick32(889, hz));
            let s2 = spec_rc5_event(s1, cur, tick32(889, hz));
            lemma_rc5_tail_prefixes(s2, buf, hz, i + 1);
            assert(evs.skip(2) =~= rc5_nominal_tail(buf, hz, i + 1));
            assert forall|j: int| 0 <= j < evs.len() implies (#[trigger] rc5_run(
                s,
                evs.take(j),
            )).status matches Rc5InternalStatus::Data(_) by {
                if j == 0 {
                    assert(evs.take(0).len() == 0);
                } else if j == 1 {
                    let t = evs.take(1);
                    assert(t[0] == evs[0]);
                    lemma_rc5_run_one(s, t);
                    assert(t.drop_first().len() == 0);
                } else {
                    let t = evs.take(j);
                    assert(t[0] == evs[0] && t[1] == evs[1]);
                    lemma_rc5_run_one(s, t);
                    lemma_take_shift1(evs, j);
                    assert(t.drop_first()[0] == evs[1]);
                    lemma_rc5_run_one(s1, t.drop_first());
                    lemma_take_shift(evs, j);
                    assert(rc5_run(s, t) == rc5_run(s2, evs.skip(2).take(j - 2)));
                }
            }
        } else {
            let s1 = spec_rc5_event(s, cur, tick32(1778, hz));
            lemma_rc5_tail_prefixes(s1, buf, hz, i + 1);
            assert(evs.drop_first() =~= rc5_nominal_tail(buf, hz, i + 1));
            assert forall|j: int| 0 <= j < evs.len() implies (#[trigger] rc5_run(
                s,
                evs.take(j),
            )).status matches Rc5InternalStatus::Data(_) by {
                if j == 0 {
                    assert(evs.take(0).len() == 0);
                } else {
                    let t = evs.take(j);
                    assert(t[0] == evs[0]);
                    lemma_rc5_run_one(s, t);
                    lemma_take_shift1(evs, j);
                    assert(rc5_run(s, t) == rc5_run(s1, evs.drop_first().take(j - 1)));
                }
            }
        }
    }
}

/// Law: at every sampler frequency of at least 20 kHz, the nominal RC-5
/// waveform of any 14-bit frame whose first start bit is one drives a fresh
/// decoder to a completed frame carrying exactly that frame's fields.
pub proof fn lemma_rc5_nominal_decodes(buf: u16, hz: u32, d0: u32)
    requires
        20_000 <= hz,
        buf < 0x4000,
        (buf >> 13u16) & 1 == 1,
    ensures
        spec_rc5_ranges(hz).wf(),
        ({
            let f = rc5_run(spec_rc5_fresh(spec_rc5_ranges(hz)), rc5_nominal_events(buf, hz, d0));
            &&& f.status == Rc5InternalStatus::Done
            &&& f.bitbuf == buf
            &&& spec_rc5_command(f) == Some(spec_rc5_unpack(buf))
        }),
        forall|i: int|
            0 <= i < rc5_nominal_events(buf, hz, d0).len() ==> (#[trigger] rc5_run(
                spec_rc5_fresh(spec_rc5_ranges(hz)),
                rc5_nominal_events(buf, hz, d0).take(i),
            )).status != Rc5InternalStatus::Done,
{
    lemma_rc5_nominal_classification(hz);
    let s0 = spec_rc5_fresh(spec_rc5_ranges(hz));
    let evs = rc5_nominal_events(buf, hz, d0);
    let s1 = spec_rc5_event(s0, true, d0);
    assert(s1.status == Rc5InternalStatus::Data(12) && s1.bitbuf == 0x2000 && s1.clock == 0);
    assert(s1.bitbuf == rc5_high_part(buf, 13u16)) by {
        assert((buf >> 13u16) & 1 == 1 && buf < 0x4000 ==> (buf >> 13u16) << 13u16 == 0x2000u16)
            by (bit_vector);
    }
    lemma_rc5_run_one(s0, evs);
    assert(evs[0] == (true, d0));
    assert(evs.drop_first() =~= rc5_nominal_tail(buf, hz, 1));
    lemma_rc5_tail(s1, buf, hz, 1);
    lemma_rc5_tail_prefixes(s1, buf, hz, 1);
    assert forall|i: int| 0 <= i < evs.len() implies (#[trigger] rc5_run(
        s0,
        evs.take(i),
    )).status != Rc5InternalStatus::Done by {
        if i == 0 {
            assert(evs.take(0).len() == 0);
        } else {
            let t = evs.take(i);
            assert(t[0] == evs[0]);
            lemma_rc5_run_one(s0, t);
            lemma_take_shift1(evs, i);
            assert(rc5_run(s0, t) == rc5_run(s1, rc5_nominal_tail(buf, hz, 1).take(i - 1)));
        }
    }
}

/// Flipping one bit of a word leaves every other bit in place.
proof fn lemma_xor_bit(w: u16, a: u16, b: u16)
    requires
        a < 16,
        b < 16,
    ensures
        a != b ==> (((w ^ (1u16 << a)) >> b) & 1 == 1) == ((w >> b) & 1 == 1),
        (((w ^ (1u16 << a)) >> a) & 1 == 1) == !((w >> a) & 1 == 1),
{
    assert({
        &&& (a != b ==> ((((w ^ (1u16 << a)) >> b) & 1 == 1) == ((w >> b) & 1 == 1)))
        &&& ((((w ^ (1u16 << a)) >> a) & 1 == 1) == !((w >> a) & 1 == 1))
    }) by (bit_vector)
        requires
            a < 16u16 && b < 16u16,
    ;
}

/// The payload bits after flipping bit `k`: flipped at `k`, untouched
/// elsewhere.
proof fn lemma_flip_bit_words_agree(w_addr: u16, w_cmd: u16, k: int, j: int)
    requires
        0 <= k < 32,
        0 <= j < 32,
    ensures
        j != k ==> nec_word_bit(
            flip_bit_words(w_addr, w_cmd, k).0,
            flip_bit_words(w_addr, w_cmd, k).1,
            j,
        ) == nec_word_bit(w_addr, w_cmd, j),
        nec_word_bit(flip_bit_words(w_addr, w_cmd, k).0, flip_bit_words(w_addr, w_cmd, k).1, k)
            == !nec_word_bit(w_addr, w_cmd, k),
{
    if k < 16 {
        if j < 16 {
            lemma_xor_bit(w_addr, k as u16, j as u16);
        }
        lemma_xor_bit(w_addr, k as u16, k as u16);
    } else {
        if j >= 16 {
            lemma_xor_bit(w_cmd, (k - 16) as u16, (j - 16) as u16);
        }
        lemma_xor_bit(w_cmd, (k - 16) as u16, (k - 16) as u16);
    }
}

/// A run of data symbols spells the same bits for any words that agree on
/// the bits it covers.
proof fn lemma_data_events_same_bits(
    ranges: crate::ranges::InfraRange4,
    d: Seq<(bool, u32)>,
    w1a: u16,
    w1c: u16,
    w2a: u16,
    w2c: u16,
    j: int,
)
    requires
        data_events(ranges, d, w1a, w1c, j),
        forall|p: int|
            j <= p < j + d.len() / 2 ==> #[trigger] nec_word_bit(w1a, w1c, p) == nec_word_bit(
                w2a,
                w2c,
                p,
            ),
    ensures
        data_events(ranges, d, w2a, w2c, j),
    decreases d.len(),
{
    if d.len() >= 2 {
        assert(nec_word_bit(w1a, w1c, j) == nec_word_bit(w2a, w2c, j));
        lemma_data_events_same_bits(ranges, d.skip(2), w1a, w1c, w2a, w2c, j + 1);
    }
}

/// A run of data symbols restricts to its first `m` pairs.
proof fn lemma_data_events_take(
    ranges: crate::ranges::InfraRange4,
    d: Seq<(bool, u32)>,
    w_addr: u16,
    w_cmd: u16,
    j: int,
    m: int,
)
    requires
        data_events(ranges, d, w_addr, w_cmd, j),
        0 <= 2 * m <= d.len(),
    ensures
        data_events(ranges, d.take(2 * m), w_addr, w_cmd, j),
    decreases m,
{
    if m > 0 {
        let t = d.take(2 * m);
        assert(t[0] == d[0] && t[1] == d[1]);
        lemma_take_shift(d, 2 * m);
        assert(t.drop_first().drop_first() == d.skip(2).take(2 * m - 2));
        lemma_drop2_is_skip2(t);
        lemma_data_events_take(ranges, d.skip(2), w_addr, w_cmd, j + 1, m - 1);
        assert(t.skip(2) == d.skip(2).take(2 * (m - 1)));
    }
}

/// Replacing one pair of a data run by a pair classifying to the opposite
/// symbol gives a data run spelling the words with that bit flipped.
#[verifier::rlimit(100)]
proof fn lemma_data_events_with_flip(
    ranges: crate::ranges::InfraRange4,
    d: Seq<(bool, u32)>,
    d2: Seq<(bool, u32)>,
    w_addr: u16,
    w_cmd: u16,
    j: int,
    k: int,
)
    requires
        data_events(ranges, d, w_addr, w_cmd, j),
        d2.len() == d.len(),
        0 <= j <= k < 32,
        j + d.len() / 2 <= 32,
        2 * (k - j) + 1 < d.len(),
        forall|i: int|
            0 <= i < d.len() && i != 2 * (k - j) && i != 2 * (k - j) + 1 ==> #[trigger] d2[i]
                == d[i],
        d2[2 * (k - j)].0 == false,
        d2[2 * (k - j) + 1].0 == true,
        crate::nec::spec_pulse_width(ranges, d2[2 * (k - j)].1 + d2[2 * (k - j) + 1].1) == (
        if nec_word_bit(w_addr, w_cmd, k) {
            PulseWidth::Zero
        } else {
            PulseWidth::One
        }),
    ensures
        data_events(
            ranges,
            d2,
            flip_bit_words(w_addr, w_cmd, k).0,
            flip_bit_words(w_addr, w_cmd, k).1,
            j,
        ),
    decreases d.len(),
{
    let fa = flip_bit_words(w_addr, w_cmd, k).0;
    let fc = flip_bit_words(w_addr, w_cmd, k).1;
    lemma_flip_bit_words_agree(w_addr, w_cmd, k, j);
    assert forall|i: int| 0 <= i < d.len() - 2 && i != 2 * (k - (j + 1)) && i != 2 * (k - (j + 1))
        + 1 implies (#[trigger] d2.skip(2)[i]) == d.skip(2)[i] by {
        assert(d2[i + 2] == d[i + 2]);
    }
    if j == k {
        assert(d2[0].0 == false && d2[1].0 == true);
        assert(nec_word_bit(fa, fc, j) == !nec_word_bit(w_addr, w_cmd, j));
        assert(crate::nec::spec_pulse_width(ranges, d2[0].1 + d2[1].1) == (if nec_word_bit(
            fa,
            fc,
            j,
        ) {
            PulseWidth::One
        } else {
            PulseWidth::Zero
        }));
        // The rest of the run is untouched, and the flipped words agree with
        // the unflipped ones on every later bit.
        assert forall|p: int| j + 1 <= p < j + 1 + d.skip(2).len() / 2 implies #[trigger] nec_word_bit(
            w_addr,
            w_cmd,
            p,
        ) == nec_word_bit(fa, fc, p) by {
            lemma_flip_bit_words_agree(w_addr, w_cmd, k, p);
        }
        lemma_data_events_same_bits(ranges, d.skip(2), w_addr, w_cmd, fa, fc, j + 1);
        assert(d2.skip(2) =~= d.skip(2));
        assert(data_events(ranges, d2.skip(2), fa, fc, j + 1));
    } else {
        assert(d2[0] == d[0] && d2[1] == d[1]);
        assert(crate::nec::spec_pulse_width(ranges, d2[0].1 + d2[1].1) == (if nec_word_bit(
            fa,
            fc,
            j,
        ) {
            PulseWidth::One
        } else {
            PulseWidth::Zero
        }));
        assert(d2.skip(2)[2 * (k - (j + 1))] == d2[2 * (k - j)]);
        assert(d2.skip(2)[2 * (k - (j + 1)) + 1] == d2[2 * (k - j) + 1]);
        lemma_data_events_with_flip(ranges, d.skip(2), d2.skip(2), w_addr, w_cmd, j + 1, k);
    }
}

/// Law: corrupting any single data symbol of a nominal frame by more than
/// the tolerance, so that its mark-space sum no longer classifies to the
/// symbol the frame transmits there, either rejects the frame with a data
/// error or completes a frame that unpacks to nothing.  It never yields a
/// wrongly decoded command.
#[verifier::rlimit(100)]
pub proof fn lemma_nec_single_corruption(
    addr: u8,
    cmd: u8,
    hz: u32,
    k: int,
    evs: Seq<(bool, u32)>,
)
    requires
        20_000 <= hz,
        0 <= k < 32,
        evs.len() == 66,
        forall|i: int|
            0 <= i < 66 && i != 2 * k + 2 && i != 2 * k + 3 ==> #[trigger] evs[i]
                == nec_nominal_events(addr, cmd, hz)[i],
        evs[2 * k + 2].0 == false,
        evs[2 * k + 3].0 == true,
        crate::nec::spec_pulse_width(spec_nec_ranges(hz), evs[2 * k + 2].1 + evs[2 * k + 3].1)
            != (if nec_word_bit(nec_encode_word(addr), nec_encode_word(cmd), k) {
            PulseWidth::One
        } else {
            PulseWidth::Zero
        }),
    ensures
        ({
            let f = nec_run(spec_fresh(spec_nec_ranges(hz)), evs);
            ||| f.status == InternalStatus::Error(Error::Data)
            ||| (f.status == InternalStatus::Done && spec_command(f) == None::<NecCommand>)
        }),
{
    lemma_nec_nominal_classification(hz);
    let ranges = spec_nec_ranges(hz);
    let s0 = spec_fresh(ranges);
    let wa = nec_encode_word(addr);
    let wc = nec_encode_word(cmd);
    let nom = nec_nominal_events(addr, cmd, hz);
    lemma_nec_nominal_data_events(wa, wc, hz, 0);
    let d = nec_nominal_data(wa, wc, hz, 0);
    assert(nom.skip(2) =~= d);
    let d2 = evs.skip(2);
    assert forall|i: int| 0 <= i < 64 && i != 2 * k && i != 2 * k + 1 implies (#[trigger] d2[i])
        == d[i] by {
        assert(evs[i + 2] == nom[i + 2]);
        assert(nom[i + 2] == d[i]);
    }
    assert(d2[2 * k] == evs[2 * k + 2]);
    assert(d2[2 * k + 1] == evs[2 * k + 3]);
    assert(evs[0] == nom[0] && evs[1] == nom[1]);
    assert(evs[0] == (false, tick32(9000, hz)));
    assert(evs[1] == (true, tick32(4500, hz)));
    assert(tick32(9000, hz) as int == spec_ticks(9000, hz));
    assert(tick32(4500, hz) as int == spec_ticks(4500, hz));
    let pw = crate::nec::spec_pulse_width(ranges, evs[2 * k + 2].1 + evs[2 * k + 3].1);
    if is_data(pw) {
        assert(pw == (if nec_word_bit(wa, wc, k) {
            PulseWidth::Zero
        } else {
            PulseWidth::One
        }));
        lemma_data_events_with_flip(ranges, d, d2, wa, wc, 0, k);
        lemma_nec_flipped_bit_no_command(s0, evs, addr, cmd, k);
    } else {
        lemma_data_events_take(ranges, d, wa, wc, 0, k);
        assert(evs.subrange(2, 2 + 2 * k) =~= d.take(2 * k));
        lemma_nec_corrupt_symbol_rejected(s0, evs, wa, wc, k);
    }
}

/// Running a concatenation of RC-5 events runs the two parts in order.
pub proof fn lemma_rc5_run_append(s: Rc5ReceiverState, a: Seq<(bool, u32)>, b: Seq<(bool, u32)>)
    ensures
        rc5_run(s, a + b) == rc5_run(rc5_run(s, a), b),
    decreases a.len(),
{
    if a.len() == 0 {
        assert(a + b =~= b);
    } else {
        assert((a + b).drop_first() =~= a.drop_first() + b);
        lemma_rc5_run_append(spec_rc5_event(s, a[0].0, a[0].1), a.drop_first(), b);
    }
}

/// An RC-5 error state absorbs every further event.
pub proof fn lemma_rc5_error_absorbs(s: Rc5ReceiverState, evs: Seq<(bool, u32)>)
    requires
        s.status matches Rc5InternalStatus::Error(_),
    ensures
        rc5_run(s, evs).status == s.status,
    decreases evs.len(),
{
    if evs.len() > 0 {
        lemma_rc5_error_absorbs(spec_rc5_event(s, evs[0].0, evs[0].1), evs.drop_first());
    }
}

/// Law (rejection): mid-frame, an edge whose measured duration spans neither
/// one nor two half-bit periods within tolerance rejects the RC-5 frame with
/// a data error, and the error survives to the end of the waveform, whatever
/// follows.
pub proof fn lemma_rc5_corrupt_edge_rejected(s: Rc5ReceiverState, evs: Seq<(bool, u32)>, i: int)
    requires
        0 <= i < evs.len(),
        rc5_run(s, evs.take(i)).status matches Rc5InternalStatus::Data(_),
        rc5_run(s, evs.take(i)).ranges.spec_find(evs[i].1 as int) == None::<usize>,
    ensures
        rc5_run(s, evs).status == Rc5InternalStatus::Error(Error::Data),
{
    let m = rc5_run(s, evs.take(i));
    let m2 = spec_rc5_event(m, evs[i].0, evs[i].1);
    assert(m2.status == Rc5InternalStatus::Error(Error::Data));
    assert(evs =~= evs.take(i) + evs.skip(i));
    lemma_rc5_run_append(s, evs.take(i), evs.skip(i));
    assert(evs.skip(i)[0] == evs[i]);
    lemma_rc5_run_one(m, evs.skip(i));
    assert(evs.skip(i).drop_first() =~= evs.skip(i + 1));
    lemma_rc5_error_absorbs(m2, evs.skip(i + 1));
}

/// Law: on any one event, the multi-receiver fills at most one slot whenever
/// the decoders do not both complete a frame on that event, which is the case
/// for decoders recognizing disjoint protocols on one input.
pub proof fn lemma_multi_at_most_one_slot(pre: NecRc5, dt: u32, edge: bool)
    requires
        !({
            &&& spec_event(pre.nec.state, edge, dt).status matches InternalStatus::Done
            &&& spec_rc5_event(
                pre.rc5.state,
                edge,
                dt,
            ).status matches crate::rc5::Rc5InternalStatus::Done
        }) && !({
            &&& spec_event(pre.nec.state, edge, dt).status matches InternalStatus::RepeatDone
            &&& spec_rc5_event(
                pre.rc5.state,
                edge,
                dt,
            ).status matches crate::rc5::Rc5InternalStatus::Done
        }),
    ensures
        ({
            let out = NecRc5::spec_commands(pre, dt, edge);
            !(out[0] is Some && out[1] is Some)
        }),
{
}

} // verus!
