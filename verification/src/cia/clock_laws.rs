//! What the CIA's clocks, alarm and interrupt line do, told by register
//! numbers and register bits.

use crate::cia::laws;
use crate::cia::{CiaId, CiaState};
use vstd::prelude::*;

verus! {

/// The chip's TOD counter and alarm, as the three counter registers write
/// them.
pub open spec fn tod_set(s: CiaState, high: u8, mid: u8, low: u8) -> CiaState {
    s.reg_written(0xA, high).reg_written(0x9, mid).reg_written(0x8, low)
}

/// The chip after `n` pulses of the TOD clock.
pub open spec fn tod_run(s: CiaState, n: nat) -> CiaState
    decreases n,
{
    if n == 0 {
        s
    } else {
        tod_run(s, (n - 1) as nat).tod_ticked()
    }
}

/// The 24-bit counter advances by one per pulse and wraps to zero, and moves
/// nothing else but the alarm's latch.
pub proof fn tod_counts_every_pulse(s: CiaState, n: nat)
    requires
        !s.tod_stopped,
        s.tod < 0x100_0000,
    ensures
        tod_run(s, n).tod == (s.tod + n) % 0x100_0000,
        tod_run(s, n) == (CiaState {
            tod: tod_run(s, n).tod,
            tod_matching: tod_run(s, n).tod_matching,
            icr_data: tod_run(s, n).icr_data,
            ..s
        }),
    decreases n,
{
    if n > 0 {
        tod_counts_every_pulse(s, (n - 1) as nat);
    }
}

/// A counter that was set counts on from there: after its three bytes and
/// `n` pulses, reading its registers spells the written time plus `n`.
pub proof fn a_set_clock_keeps_time(s: CiaState, high: u8, mid: u8, low: u8, n: nat)
    requires
        s.crb & 0x80 == 0,
        s.tod_latched is None,
    ensures
        ({
            let t = tod_run(tod_set(s, high, mid, low), n);
            let (h, t1) = t.reg_read(0xA);
            let (m, t2) = t1.reg_read(0x9);
            let (l, t3) = t2.reg_read(0x8);
            &&& h * 0x1_0000 + m * 0x100 + l == (high * 0x1_0000 + mid * 0x100 + low + n)
                % 0x100_0000
            &&& t3 == t
        }),
{
    laws::tod_writes_are_coherent(s, high, mid, low);
    let set = tod_set(s, high, mid, low);
    tod_counts_every_pulse(set, n);
    assert(set.tod_latched == s.tod_latched) by {
        let s1 = s.reg_written(0xA, high);
        let s2 = s1.reg_written(0x9, mid);
        assert(s1.tod_latched == s.tod_latched && s2.tod_latched == s.tod_latched);
    }
    let t = tod_run(set, n);
    laws::tod_reads_are_coherent(t, t.tod);
    assert((CiaState { tod: t.tod, ..t.reg_read(0xA).1 }) == t.reg_read(0xA).1);
}

/// The alarm goes off when the clock reaches it: with the clock short of the
/// alarm by `n` pulses, the alarm's interrupt source (bit 2) stays as it was
/// until the `n`th, which latches it.
pub proof fn the_alarm_goes_off_on_time(s: CiaState, n: nat, k: nat)
    requires
        !s.tod_stopped,
        s.tod + n == s.tod_alarm,
        s.tod_alarm < 0x100_0000,
        s.tod_matching == (s.tod == s.tod_alarm),
        n > 0,
        k < n,
    ensures
        tod_run(s, k).icr_data == s.icr_data,
        tod_run(s, n).icr_data == s.icr_data | 0x04,
{
    lemma_quiet(s, n, k);
    let m = (n - 1) as nat;
    lemma_quiet(s, n, m);
    tod_counts_every_pulse(s, m);
    lemma_sources(0, 0);
}

proof fn lemma_quiet(s: CiaState, n: nat, k: nat)
    requires
        !s.tod_stopped,
        s.tod + n == s.tod_alarm,
        s.tod_alarm < 0x100_0000,
        s.tod_matching == (s.tod == s.tod_alarm),
        k < n,
    ensures
        tod_run(s, k).icr_data == s.icr_data,
        !tod_run(s, k).tod_matching,
    decreases k,
{
    if k > 0 {
        lemma_quiet(s, n, (k - 1) as nat);
        tod_counts_every_pulse(s, (k - 1) as nat);
    }
}

/// Setting the alarm is done through the same registers with bit 7 of the
/// second control register set, and leaves the time alone.
pub proof fn the_alarm_is_set_beside_the_clock(s: CiaState, high: u8, mid: u8, low: u8)
    requires
        s.crb & 0x80 != 0,
    ensures
        tod_set(s, high, mid, low).tod_alarm == high * 0x1_0000 + mid * 0x100 + low,
        tod_set(s, high, mid, low).tod == s.tod,
        tod_set(s, high, mid, low).tod_stopped == s.tod_stopped,
{
    laws::alarm_writes_leave_the_counter(s, high, mid, low);
}

/// The chip requests an interrupt exactly while some source is both latched
/// and enabled.
pub proof fn only_enabled_sources_interrupt(s: CiaState)
    ensures
        s.requesting() <==> {
            ||| s.icr_data & 0x01 != 0 && s.icr_mask & 0x01 != 0
            ||| s.icr_data & 0x02 != 0 && s.icr_mask & 0x02 != 0
            ||| s.icr_data & 0x04 != 0 && s.icr_mask & 0x04 != 0
            ||| s.icr_data & 0x08 != 0 && s.icr_mask & 0x08 != 0
            ||| s.icr_data & 0x10 != 0 && s.icr_mask & 0x10 != 0
            ||| s.icr_data & 0x20 != 0 && s.icr_mask & 0x20 != 0
            ||| s.icr_data & 0x40 != 0 && s.icr_mask & 0x40 != 0
            ||| s.icr_data & 0x80 != 0 && s.icr_mask & 0x80 != 0
        },
{
    lemma_sources(s.icr_data, s.icr_mask);
}

/// Two sets of sources meet in some bit, and the alarm's is bit 2.
proof fn lemma_sources(d: u8, m: u8)
    ensures
        (d & m != 0) == (d & 0x01 != 0 && m & 0x01 != 0 || d & 0x02 != 0 && m & 0x02 != 0 || d
            & 0x04 != 0 && m & 0x04 != 0 || d & 0x08 != 0 && m & 0x08 != 0 || d & 0x10 != 0 && m
            & 0x10 != 0 || d & 0x20 != 0 && m & 0x20 != 0 || d & 0x40 != 0 && m & 0x40 != 0 || d
            & 0x80 != 0 && m & 0x80 != 0),
        1u8 << 2u8 == 0x04u8,
{
    assert((d & m != 0) == (d & 0x01 != 0 && m & 0x01 != 0 || d & 0x02 != 0 && m & 0x02 != 0 || d
        & 0x04 != 0 && m & 0x04 != 0 || d & 0x08 != 0 && m & 0x08 != 0 || d & 0x10 != 0 && m & 0x10
        != 0 || d & 0x20 != 0 && m & 0x20 != 0 || d & 0x40 != 0 && m & 0x40 != 0 || d & 0x80 != 0
        && m & 0x80 != 0) && 1u8 << 2u8 == 0x04u8) by (bit_vector);
}

/// Timer A moves only while it is started (bit 0) and set to count the
/// E-clock (bit 5 clear); its underflow, and nothing else, latches source 0.
pub proof fn timer_a_runs_when_started(s: CiaState)
    ensures
        s.cra & 0x01 == 0 || s.cra & 0x20 != 0 ==> s.eclock().timer_a == s.timer_a
            && s.eclock().cra == s.cra && s.eclock().icr_data & 0x01 == s.icr_data & 0x01,
        s.cra & 0x01 != 0 && s.cra & 0x20 == 0 && s.timer_a > 0 ==> s.eclock().timer_a == s.timer_a
            - 1 && s.eclock().cra == s.cra && s.eclock().icr_data & 0x01 == s.icr_data & 0x01,
        s.cra & 0x01 != 0 && s.cra & 0x20 == 0 && s.timer_a == 0 ==> s.eclock().timer_a == s.latch_a
            && s.eclock().icr_data & 0x01 != 0 && s.eclock().cra & 0x01 == (if s.cra & 0x08 != 0 {
            0
        } else {
            s.cra & 0x01
        }),
{
    assert(s.eclocks(0) == s);
    assert(s.eclocks(1) == s.eclocks(0).eclock());
    if s.timer_a_counts() {
        if s.timer_a > 0 {
            laws::timer_a_counts_down(s, 1);
        } else {
            laws::timer_a_underflows_and_reloads(s);
        }
    } else {
        laws::idle_timer_a_stays_put(s, 1);
    }
}

/// Timer B, set to count timer A's underflows (bit 6), moves on those
/// E-clocks and on no other; set to count an input that never pulses (bit 5
/// alone) it never moves.
pub proof fn timer_b_counts_what_it_is_set_to(s: CiaState)
    requires
        s.crb & 0x01 != 0,
    ensures
        ({
            let wrapped = s.cra & 0x01 != 0 && s.cra & 0x20 == 0 && s.timer_a == 0;
            let mode = s.crb / 32 % 4;
            &&& mode == 1 || mode >= 2 && !wrapped ==> s.eclock().timer_b == s.timer_b
                && s.eclock().crb == s.crb
            &&& mode == 0 || mode >= 2 && wrapped ==> s.eclock().timer_b == if s.timer_b > 0 {
                s.timer_b - 1
            } else {
                s.latch_b as int
            }
        }),
{
}

/// An E-clock moves the timers, their control bits, the latched sources and
/// the keyboard. Ports, the TOD clock, the alarm, the interrupt mask and both
/// latches stay as they were, and CIA-B has no keyboard.
pub proof fn an_eclock_leaves_the_rest_alone(s: CiaState)
    ensures
        s.eclock() == (CiaState {
            timer_a: s.eclock().timer_a,
            timer_b: s.eclock().timer_b,
            cra: s.eclock().cra,
            crb: s.eclock().crb,
            icr_data: s.eclock().icr_data,
            sdr: s.eclock().sdr,
            keys: s.eclock().keys,
            kbd_delay: s.eclock().kbd_delay,
            kbd_loaded: s.eclock().kbd_loaded,
            ..s
        }),
        s.id == CiaId::B ==> s.eclock().sdr == s.sdr && s.eclock().keys == s.keys
            && s.eclock().kbd_delay == s.kbd_delay && s.eclock().kbd_loaded == s.kbd_loaded,
{
}

/// Writing a timer's two latch bytes touches that timer and its control
/// register alone.
pub proof fn programming_one_timer_leaves_the_other(s: CiaState, low: u8, high: u8)
    ensures
        ({
            let w = s.reg_written(0x4, low).reg_written(0x5, high);
            w == (CiaState { latch_a: w.latch_a, timer_a: w.timer_a, cra: w.cra, ..s })
        }),
        ({
            let w = s.reg_written(0x6, low).reg_written(0x7, high);
            w == (CiaState { latch_b: w.latch_b, timer_b: w.timer_b, crb: w.crb, ..s })
        }),
        s.reg_written(0x4, low) == (CiaState { latch_a: s.reg_written(0x4, low).latch_a, ..s }),
        s.reg_written(0x6, low) == (CiaState { latch_b: s.reg_written(0x6, low).latch_b, ..s }),
{
}

/// Whole E-clocks' worth of CPU cycles run exactly that many E-clocks, and
/// cycles short of one are carried.
pub proof fn cycles_make_eclocks(s: CiaState, k: u32, rest: u32, per_eclock: u32)
    requires
        s.carry == 0,
        rest < per_eclock,
        k * per_eclock + rest <= u32::MAX,
    ensures
        s.ticked((k * per_eclock + rest) as u32, per_eclock) == (CiaState { carry: rest, ..s })
            .eclocks(k as nat),
{
    let total = (k * per_eclock + rest) as u32;
    vstd::arithmetic::div_mod::lemma_fundamental_div_mod_converse(
        total as int,
        per_eclock as int,
        k as int,
        rest as int,
    );
}

/// Writing a control register without its load strobe (bit 4) leaves the
/// count where it was, so a timer that is stopped and started again goes on
/// from there; with the strobe the count restarts from the latch. Nothing
/// else changes.
pub proof fn a_control_write_keeps_the_count(s: CiaState, value: u8)
    ensures
        value & 0x10 == 0 ==> s.reg_written(0xE, value) == (CiaState { cra: value & 0xEF, ..s }),
        value & 0x10 != 0 ==> s.reg_written(0xE, value) == (CiaState {
            cra: value & 0xEF,
            timer_a: s.latch_a,
            ..s
        }),
        value & 0x10 == 0 ==> s.reg_written(0xF, value) == (CiaState { crb: value & 0xEF, ..s }),
        value & 0x10 != 0 ==> s.reg_written(0xF, value) == (CiaState {
            crb: value & 0xEF,
            timer_b: s.latch_b,
            ..s
        }),
{
    laws::plain_registers_hold_what_is_written(s, 0, value);
}

/// Setting the clock or the alarm onto the other's time sets the alarm off
/// then and there, if they were apart before.
pub proof fn setting_onto_the_alarm_sets_it_off(s: CiaState, which: u8, value: u8)
    requires
        which == 0x8 || which == 0x9 || which == 0xA,
        s.tod_matching == (s.tod == s.tod_alarm),
    ensures
        ({
            let w = s.reg_written(which, value);
            &&& w.icr_data == (if w.tod == w.tod_alarm && s.tod != s.tod_alarm {
                s.icr_data | 0x04
            } else {
                s.icr_data
            })
            &&& w.tod_matching == (w.tod == w.tod_alarm)
        }),
{
    lemma_sources(0, 0);
}

/// Masking interrupts touches the mask alone, and acknowledging them the
/// latched sources alone.
pub proof fn the_interrupt_register_does_one_thing(s: CiaState, value: u8)
    ensures
        s.reg_written(0xD, value) == (CiaState { icr_mask: s.reg_written(0xD, value).icr_mask, ..s
        }),
        s.reg_read(0xD).1 == (CiaState { icr_data: 0, ..s }),
{
}

/// A timer that is stopped stays where it was: `k` E-clocks into its count,
/// stopped through its control register (start and load bits clear) and left
/// alone for `n` more, its registers spell its count less `k`.
pub proof fn a_stopped_timer_reads_where_it_stopped(s: CiaState, control: u8, k: nat, n: nat)
    requires
        control & 0x01 == 0,
        control & 0x10 == 0,
    ensures
        s.cra & 0x01 != 0 && s.cra & 0x20 == 0 && k <= s.timer_a ==> laws::spelled_count(
            s.eclocks(k).reg_written(0xE, control).eclocks(n),
            0x4,
            0x5,
        ) == s.timer_a - k,
        s.crb & 0x01 != 0 && s.crb / 32 % 4 == 0 && k <= s.timer_b ==> laws::spelled_count(
            s.eclocks(k).reg_written(0xF, control).eclocks(n),
            0x6,
            0x7,
        ) == s.timer_b - k,
{
    laws::kept_control_bits(control);
    if s.timer_a_counts() && k <= s.timer_a {
        laws::timer_a_counts_down(s, k);
        laws::idle_timer_a_stays_put(s.eclocks(k).reg_written(0xE, control), n);
    }
    if s.crb & 0x01 != 0 && s.crb / 32 % 4 == 0 && k <= s.timer_b {
        laws::timer_b_counts_down(s, k);
        idle_timer_b_stays_put(s.eclocks(k).reg_written(0xF, control), n);
    }
}

/// A timer B that is not started never moves and never latches its source.
pub proof fn idle_timer_b_stays_put(s: CiaState, n: nat)
    requires
        s.crb & 0x01 == 0,
    ensures
        s.eclocks(n).timer_b == s.timer_b,
        s.eclocks(n).crb == s.crb,
    decreases n,
{
    if n > 0 {
        idle_timer_b_stays_put(s, (n - 1) as nat);
    }
}

} // verus!
