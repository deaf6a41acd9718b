//! What holds of a CIA across register accesses and clock ticks.

use crate::cia;
use crate::cia::{
    icr, reg, CiaId, CiaState, CRA_LOAD, CRA_RUNMODE, CRA_SPMODE, CRA_START, CRB_ALARM, CRB_LOAD,
    CRB_RUNMODE, CRB_START, KEYBOARD_HANDSHAKE_TICKS,
};
use vstd::prelude::*;

verus! {

/// Latching one source leaves every other bit of the ICR as it was.
proof fn lemma_icr_bits(data: u8)
    ensures
        (data | (1u8 << icr::TA)) & 0x01 != 0,
        (data | (1u8 << icr::TB)) & 0x01 == data & 0x01,
        (data | (1u8 << icr::SP)) & 0x01 == data & 0x01,
        (data | (1u8 << icr::TA)) & 0x02 == data & 0x02,
        (data | (1u8 << icr::TB)) & 0x02 != 0,
        (data | (1u8 << icr::SP)) & 0x02 == data & 0x02,
        (data | (1u8 << icr::TA)) & 0x08 == data & 0x08,
        (data | (1u8 << icr::TB)) & 0x08 == data & 0x08,
        (data | (1u8 << icr::SP)) & 0x08 != 0,
{
    assert((data | (1u8 << 0u8)) & 0x01 != 0 && (data | (1u8 << 1u8)) & 0x01 == data & 0x01 && (data
        | (1u8 << 3u8)) & 0x01 == data & 0x01 && (data | (1u8 << 0u8)) & 0x02 == data & 0x02 && (
    data | (1u8 << 1u8)) & 0x02 != 0 && (data | (1u8 << 3u8)) & 0x02 == data & 0x02 && (data | (1u8
        << 0u8)) & 0x08 == data & 0x08 && (data | (1u8 << 1u8)) & 0x08 == data & 0x08 && (data | (
    1u8 << 3u8)) & 0x08 != 0) by (bit_vector);
}

/// Clearing a control bit leaves the others, and the bit reads 0.
proof fn lemma_control_bits(value: u8)
    ensures
        (value & !CRA_START) & CRA_START == 0,
        (value & !CRA_START) & CRA_SPMODE == value & CRA_SPMODE,
        (value & !CRA_LOAD) & CRA_LOAD == 0,
        (value & !0x10u8) & 0x01 == value & 0x01,
        (value & !0x10u8) & 0x20 == value & 0x20,
        value & 0x60 == 0 ==> (value & !0x10u8) / 32 % 4 == 0,
        value & !0x10u8 == value & 0xEF,
{
    assert((value & !0x01u8) & 0x01 == 0 && (value & !0x01u8) & 0x40 == value & 0x40 && (value
        & !0x10u8) & 0x10 == 0 && (value & !0x10u8) & 0x01 == value & 0x01 && (value & !0x10u8)
        & 0x20 == value & 0x20 && (value & 0x60 == 0 ==> (value & !0x10u8) / 32 % 4 == 0) && value
        & !0x10u8 == value & 0xEF) by (bit_vector);
}

/// A control register keeps its start bit whatever the strobe.
pub(crate) proof fn kept_control_bits(value: u8)
    ensures
        (value & !0x10u8) & 0x01 == value & 0x01,
{
    lemma_control_bits(value);
}

/// Running `m` E-clocks and then `n` more is running `m + n`.
pub proof fn eclocks_add_up(s: CiaState, m: nat, n: nat)
    ensures
        s.eclocks(m).eclocks(n) == s.eclocks(m + n),
    decreases n,
{
    if n > 0 {
        eclocks_add_up(s, m, (n - 1) as nat);
    }
}

/// An E-clock neither reads nor moves the CPU-clock remainder.
proof fn lemma_eclocks_carry(s: CiaState, carry: u32, n: nat)
    ensures
        (CiaState { carry, ..s }).eclocks(n) == (CiaState { carry, ..s.eclocks(n) }),
    decreases n,
{
    if n > 0 {
        lemma_eclocks_carry(s, carry, (n - 1) as nat);
    }
}

/// However a stretch of CPU time is cut into ticks, no E-clock is gained or
/// lost.
pub proof fn ticks_lose_no_time(s: CiaState, first: u32, second: u32, per_eclock: u32)
    requires
        per_eclock > 0,
        s.carry + first + second <= u32::MAX,
    ensures
        s.ticked(first, per_eclock).ticked(second, per_eclock) == s.ticked(
            (first + second) as u32,
            per_eclock,
        ),
{
    let per = per_eclock as int;
    let a = s.carry + first;
    let kept = a % per;
    let b = kept + second;
    vstd::arithmetic::div_mod::lemma_fundamental_div_mod(a, per);
    vstd::arithmetic::div_mod::lemma_mod_bound(a, per);
    vstd::arithmetic::div_mod::lemma_div_pos_is_pos(a, per);
    vstd::arithmetic::div_mod::lemma_div_pos_is_pos(b, per);
    assert(kept <= a) by (nonlinear_arith)
        requires
            a == per * (a / per) + kept,
            per > 0,
            a / per >= 0,
    ;
    assert(a + second == per * (a / per) + b);
    vstd::arithmetic::div_mod::lemma_hoist_over_denominator(b, a / per, per as nat);
    vstd::arithmetic::mul::lemma_mul_is_commutative(per, a / per);
    vstd::arithmetic::div_mod::lemma_mod_multiples_vanish(a / per, b, per);
    let total = a + second;
    assert(total / per == a / per + b / per);
    assert(total % per == b % per);
    let x = (a / per) as nat;
    let y = (b / per) as nat;
    let s0 = CiaState { carry: kept as u32, ..s };
    lemma_eclocks_carry(s, kept as u32, x);
    lemma_eclocks_carry(s, (total % per) as u32, x + y);
    let mid = s.ticked(first, per_eclock);
    assert(mid == s0.eclocks(x));
    assert(mid.carry == kept);
    lemma_eclocks_carry(mid, (b % per) as u32, y);
    lemma_eclocks_carry(s.eclocks(x), kept as u32, y);
    eclocks_add_up(s, x, y);
}

/// Counting down takes one E-clock per step, and raises nothing: after `k`
/// E-clocks, `k` no more than the counter held, a running timer A holds `k`
/// less.
pub proof fn timer_a_counts_down(s: CiaState, k: nat)
    requires
        s.timer_a_counts(),
        k <= s.timer_a,
    ensures
        s.eclocks(k).timer_a == s.timer_a - k,
        s.eclocks(k).latch_a == s.latch_a,
        s.eclocks(k).cra == s.cra,
        s.eclocks(k).icr_data & 0x01 == s.icr_data & 0x01,
    decreases k,
{
    if k > 0 {
        timer_a_counts_down(s, (k - 1) as nat);
        let prev = s.eclocks((k - 1) as nat);
        lemma_icr_bits(prev.icr_data);
        lemma_icr_bits(prev.timer_a_stepped().icr_data);
        lemma_icr_bits(prev.timer_a_stepped().timer_b_stepped(prev.timer_a_underflows()).icr_data);
    }
}

/// A running timer A underflows one E-clock after reaching zero: it reloads
/// from the latch and latches TA. A one-shot timer stops there; a continuous
/// one keeps running, so its period is the latch plus one.
pub proof fn timer_a_underflows_and_reloads(s: CiaState)
    requires
        s.timer_a_counts(),
    ensures
        s.eclocks(s.timer_a as nat + 1).timer_a == s.latch_a,
        s.eclocks(s.timer_a as nat + 1).icr_data & 0x01 != 0,
        s.cra & CRA_RUNMODE != 0 ==> s.eclocks(s.timer_a as nat + 1).cra & CRA_START == 0,
        s.cra & CRA_RUNMODE == 0 ==> s.eclocks(s.timer_a as nat + 1).cra == s.cra,
{
    timer_a_counts_down(s, s.timer_a as nat);
    let prev = s.eclocks(s.timer_a as nat);
    lemma_icr_bits(prev.icr_data);
    lemma_icr_bits(prev.timer_a_stepped().icr_data);
    lemma_icr_bits(prev.timer_a_stepped().timer_b_stepped(prev.timer_a_underflows()).icr_data);
    lemma_control_bits(prev.cra);
}

/// A timer A that is stopped, or set to count CNT pulses, never moves and
/// never latches TA.
pub proof fn idle_timer_a_stays_put(s: CiaState, n: nat)
    requires
        !s.timer_a_counts(),
    ensures
        s.eclocks(n).timer_a == s.timer_a,
        s.eclocks(n).cra == s.cra,
        s.eclocks(n).icr_data & 0x01 == s.icr_data & 0x01,
    decreases n,
{
    if n > 0 {
        idle_timer_a_stays_put(s, (n - 1) as nat);
        let prev = s.eclocks((n - 1) as nat);
        lemma_icr_bits(prev.icr_data);
        lemma_icr_bits(prev.timer_b_stepped(false).icr_data);
    }
}

/// On the E-clock, timer B counts down exactly as timer A does, whatever
/// timer A is doing.
pub proof fn timer_b_counts_down(s: CiaState, k: nat)
    requires
        s.crb & CRB_START != 0,
        s.crb / 32 % 4 == 0,
        k <= s.timer_b,
    ensures
        s.eclocks(k).timer_b == s.timer_b - k,
        s.eclocks(k).latch_b == s.latch_b,
        s.eclocks(k).crb == s.crb,
        s.eclocks(k).icr_data & 0x02 == s.icr_data & 0x02,
    decreases k,
{
    if k > 0 {
        timer_b_counts_down(s, (k - 1) as nat);
        let prev = s.eclocks((k - 1) as nat);
        lemma_icr_bits(prev.icr_data);
        lemma_icr_bits(prev.timer_a_stepped().icr_data);
        lemma_icr_bits(prev.timer_a_stepped().timer_b_stepped(prev.timer_a_underflows()).icr_data);
    }
}

/// On the E-clock, timer B underflows one E-clock after reaching zero, with
/// the same reload, interrupt and one-shot stop as timer A.
pub proof fn timer_b_underflows_and_reloads(s: CiaState)
    requires
        s.crb & CRB_START != 0,
        s.crb / 32 % 4 == 0,
    ensures
        s.eclocks(s.timer_b as nat + 1).timer_b == s.latch_b,
        s.eclocks(s.timer_b as nat + 1).icr_data & 0x02 != 0,
        s.crb & CRB_RUNMODE != 0 ==> s.eclocks(s.timer_b as nat + 1).crb & CRB_START == 0,
        s.crb & CRB_RUNMODE == 0 ==> s.eclocks(s.timer_b as nat + 1).crb == s.crb,
{
    timer_b_counts_down(s, s.timer_b as nat);
    let prev = s.eclocks(s.timer_b as nat);
    lemma_icr_bits(prev.timer_a_stepped().icr_data);
    lemma_icr_bits(prev.timer_a_stepped().timer_b_stepped(prev.timer_a_underflows()).icr_data);
    lemma_control_bits(prev.crb);
}

/// Cascaded, timer B moves on exactly those E-clocks on which timer A
/// underflows.
pub proof fn timer_b_cascades(s: CiaState)
    requires
        s.crb & CRB_START != 0,
        s.crb / 32 % 4 >= 2,
    ensures
        !s.timer_a_underflows() ==> s.eclock().timer_b == s.timer_b,
        s.timer_a_underflows() && s.timer_b > 0 ==> s.eclock().timer_b == s.timer_b - 1,
        s.timer_a_underflows() && s.timer_b == 0 ==> s.eclock().timer_b == s.latch_b
            && s.eclock().icr_data & 0x02 != 0,
{
    lemma_icr_bits(s.timer_a_stepped().icr_data);
    lemma_icr_bits(s.timer_a_stepped().timer_b_stepped(s.timer_a_underflows()).icr_data);
}

/// A write of the high latch byte loads a stopped timer at once; in one-shot
/// mode it also starts it; a running continuous timer only has its latch
/// changed.
pub proof fn high_byte_write_programs_the_timer(s: CiaState, low: u8, high: u8)
    ensures
        ({
            let w = s.reg_written(reg::TALO, low).reg_written(reg::TAHI, high);
            &&& w.latch_a == 256 * high + low
            &&& s.reg_written(reg::TALO, low).cra == s.cra
            &&& s.cra & CRA_RUNMODE != 0 ==> w.timer_a == w.latch_a && w.cra & CRA_START != 0
            &&& s.cra & CRA_RUNMODE == 0 ==> w.cra == s.cra
            &&& s.cra & CRA_RUNMODE == 0 && s.cra & CRA_START == 0 ==> w.timer_a == w.latch_a
            &&& s.cra & CRA_RUNMODE == 0 && s.cra & CRA_START != 0 ==> w.timer_a == s.timer_a
        }),
        ({
            let w = s.reg_written(reg::TBLO, low).reg_written(reg::TBHI, high);
            &&& w.latch_b == 256 * high + low
            &&& s.reg_written(reg::TBLO, low).crb == s.crb
            &&& s.crb & CRB_RUNMODE != 0 ==> w.timer_b == w.latch_b && w.crb & CRB_START != 0
            &&& s.crb & CRB_RUNMODE == 0 ==> w.crb == s.crb
            &&& s.crb & CRB_RUNMODE == 0 && s.crb & CRB_START == 0 ==> w.timer_b == w.latch_b
            &&& s.crb & CRB_RUNMODE == 0 && s.crb & CRB_START != 0 ==> w.timer_b == s.timer_b
        }),
{
    let cra = s.cra;
    let crb = s.crb;
    assert((cra | 0x01) & 0x01 != 0 && (crb | 0x01) & 0x01 != 0) by (bit_vector);
}

/// The LOAD strobe reloads the counter and is never stored.
pub proof fn load_is_a_strobe(s: CiaState, value: u8)
    ensures
        s.reg_written(reg::CRA, value).cra & CRA_LOAD == 0,
        s.reg_written(reg::CRB, value).crb & CRB_LOAD == 0,
        value & CRA_LOAD != 0 ==> s.reg_written(reg::CRA, value).timer_a == s.latch_a,
        value & CRB_LOAD != 0 ==> s.reg_written(reg::CRB, value).timer_b == s.latch_b,
{
    lemma_control_bits(value);
}

/// Reading ICR returns the latched sources, reports in bit 7 whether the
/// chip was requesting, and acknowledges: nothing is latched afterwards and
/// nothing requested.
pub proof fn icr_read_acknowledges(s: CiaState)
    requires
        s.icr_data < 0x80,
    ensures
        s.reg_read(reg::ICR).0 & 0x7F == s.icr_data,
        (s.reg_read(reg::ICR).0 & 0x80 != 0) == s.requesting(),
        s.reg_read(reg::ICR).1.icr_data == 0,
        !s.reg_read(reg::ICR).1.requesting(),
{
    let data = s.icr_data;
    let mask = s.icr_mask;
    assert((data | (1u8 << 7u8)) & 0x7F == data && (data | (1u8 << 7u8)) & 0x80 != 0 && data & 0x7F
        == data && data & 0x80 == 0 && 0u8 & mask == 0) by (bit_vector)
        requires
            data < 0x80,
    ;
}

/// An ICR write sets or clears exactly the mask bits it names.
pub proof fn icr_write_touches_named_bits(s: CiaState, value: u8, bit: u8)
    requires
        bit < 5,
    ensures
        ({
            let named = value & (1u8 << bit) != 0;
            let after = s.reg_written(reg::ICR, value).icr_mask & (1u8 << bit) != 0;
            after == if named {
                value & 0x80 != 0
            } else {
                s.icr_mask & (1u8 << bit) != 0
            }
        }),
{
    let mask = s.icr_mask;
    assert(((mask | (value & 0x1F)) & (1u8 << bit) != 0) == (value & (1u8 << bit) != 0 || mask & (
    1u8 << bit) != 0) && ((mask & !(value & 0x1F)) & (1u8 << bit) != 0) == (value & (1u8 << bit)
        == 0 && mask & (1u8 << bit) != 0)) by (bit_vector)
        requires
            bit < 5,
    ;
}

/// A TOD read sequence is coherent: once the high byte has been read with no
/// snapshot held, the middle and low bytes come from that same value,
/// whatever the counter has become (`later` in place of it), and the low
/// byte's read releases the snapshot.
pub proof fn tod_reads_are_coherent(s: CiaState, later: u32)
    requires
        s.tod_latched is None,
        s.tod < 0x100_0000,
    ensures
        ({
            let (high, s1) = s.reg_read(reg::TODHI);
            let (mid, s2) = (CiaState { tod: later, ..s1 }).reg_read(reg::TODMID);
            let (low, s3) = s2.reg_read(reg::TODLO);
            &&& s.tod == high * 65536 + mid * 256 + low
            &&& s3 == (CiaState { tod: later, ..s })
        }),
{
}

/// Replacing all three bytes of a 24-bit counter, high to low, spells the new
/// value.
proof fn lemma_tod_bytes(value: u32, high: u8, mid: u8, low: u8)
    ensures
        cia::with_tod_byte(
            cia::with_tod_byte(cia::with_tod_byte(value, reg::TODHI, high), reg::TODMID, mid),
            reg::TODLO,
            low,
        ) == high * 65536 + mid * 256 + low,
{
    let v1 = cia::with_tod_byte(value, reg::TODHI, high);
    assert(v1 / 65536 % 256 == high);
    let v2 = cia::with_tod_byte(v1, reg::TODMID, mid);
    assert(v2 / 256 % 65536 == high * 256 + mid);
}

/// Writing high, middle and low byte sets the counter; it does not move from
/// the high byte's write until the low byte's, and runs afterwards.
pub proof fn tod_writes_are_coherent(s: CiaState, high: u8, mid: u8, low: u8)
    requires
        s.crb & CRB_ALARM == 0,
    ensures
        ({
            let s1 = s.reg_written(reg::TODHI, high);
            let s2 = s1.reg_written(reg::TODMID, mid);
            let s3 = s2.reg_written(reg::TODLO, low);
            &&& s1.tod_ticked() == s1
            &&& s2.tod_ticked() == s2
            &&& s3.tod == high * 65536 + mid * 256 + low
            &&& !s3.tod_stopped
            &&& s3.tod_alarm == s.tod_alarm
        }),
{
    lemma_tod_bytes(s.tod, high, mid, low);
    let s1 = s.reg_written(reg::TODHI, high);
    assert(s1.tod == cia::with_tod_byte(s.tod, reg::TODHI, high) && s1.tod_stopped && s1.crb
        == s.crb && s1.tod_alarm == s.tod_alarm);
    let s2 = s1.reg_written(reg::TODMID, mid);
    assert(s2.tod == cia::with_tod_byte(s1.tod, reg::TODMID, mid) && s2.tod_stopped && s2.crb
        == s.crb && s2.tod_alarm == s.tod_alarm);
}

/// With CRB bit 7 set the same three writes set the alarm, and the counter
/// is untouched and keeps running as it was.
pub proof fn alarm_writes_leave_the_counter(s: CiaState, high: u8, mid: u8, low: u8)
    requires
        s.crb & CRB_ALARM != 0,
    ensures
        ({
            let w = s.reg_written(reg::TODHI, high).reg_written(reg::TODMID, mid).reg_written(
                reg::TODLO,
                low,
            );
            &&& w.tod_alarm == high * 65536 + mid * 256 + low
            &&& w.tod == s.tod
            &&& w.tod_stopped == s.tod_stopped
        }),
{
    lemma_tod_bytes(s.tod_alarm, high, mid, low);
    let s1 = s.reg_written(reg::TODHI, high);
    assert(s1.tod_alarm == cia::with_tod_byte(s.tod_alarm, reg::TODHI, high) && s1.crb == s.crb
        && s1.tod == s.tod && s1.tod_stopped == s.tod_stopped);
    let s2 = s1.reg_written(reg::TODMID, mid);
    assert(s2.tod_alarm == cia::with_tod_byte(s1.tod_alarm, reg::TODMID, mid) && s2.crb == s.crb
        && s2.tod == s.tod && s2.tod_stopped == s.tod_stopped);
}

/// The alarm fires on the transition into equality only: a tick latches
/// ALRM exactly when it brings a counter that was not on the alarm onto it,
/// and looking again while it stays there latches nothing more.
pub proof fn alarm_fires_on_the_edge(s: CiaState)
    requires
        s.tod_matching == (s.tod == s.tod_alarm),
        !s.tod_stopped,
    ensures
        ({
            let t = s.tod_ticked();
            let hit = t.tod == t.tod_alarm && s.tod != s.tod_alarm;
            &&& t.tod_matching == (t.tod == t.tod_alarm)
            &&& t.icr_data == if hit {
                s.icr_data | (1u8 << icr::ALRM)
            } else {
                s.icr_data
            }
            &&& t.alarm_checked() == t
        }),
{
}

/// The wire byte determines the keycode: inverting it and rotating it right
/// one bit gives the keycode back.
pub proof fn wire_byte_decodes(raw: u8)
    ensures
        ({
            let inverted = 0xFF - cia::on_wire(raw);
            raw == inverted / 2 + inverted % 2 * 128
        }),
        cia::on_wire(raw) == !((raw << 1) | (raw >> 7)),
{
    assert((0xFF - (raw % 128 * 2 + raw / 128)) as u8 == !((raw << 1) | (raw >> 7)))
        by (bit_vector);
}

/// A delivered keycode is safe: until SDR is read, no E-clock overwrites it
/// and none of the queue is consumed.
pub proof fn unread_keycode_is_kept(s: CiaState, n: nat)
    requires
        s.kbd_loaded,
        s.kbd_delay == 0,
    ensures
        s.eclocks(n).sdr == s.sdr,
        s.eclocks(n).keys == s.keys,
        s.eclocks(n).kbd_loaded,
        s.eclocks(n).kbd_delay == 0,
    decreases n,
{
    if n > 0 {
        unread_keycode_is_kept(s, (n - 1) as nat);
    }
}

/// While software drives the handshake (SPMODE set) nothing is delivered.
pub proof fn output_mode_holds_the_keyboard(s: CiaState, n: nat)
    requires
        s.cra & CRA_SPMODE != 0,
    ensures
        s.eclocks(n).sdr == s.sdr,
        s.eclocks(n).keys == s.keys,
        s.eclocks(n).kbd_delay == s.kbd_delay,
        s.eclocks(n).kbd_loaded == s.kbd_loaded,
        s.eclocks(n).cra & CRA_SPMODE != 0,
    decreases n,
{
    if n > 0 {
        output_mode_holds_the_keyboard(s, (n - 1) as nat);
        lemma_control_bits(s.eclocks((n - 1) as nat).cra);
    }
}

/// While a byte is shifting in, nothing has reached SDR yet.
proof fn lemma_shifting(s: CiaState, k: nat)
    requires
        s.id == CiaId::A,
        s.cra & CRA_SPMODE == 0,
        s.kbd_delay == 0,
        !s.kbd_loaded,
        s.keys.len() > 0,
        0 < k < KEYBOARD_HANDSHAKE_TICKS,
    ensures
        s.eclocks(k).sdr == s.sdr,
        s.eclocks(k).keys == s.keys,
        s.eclocks(k).kbd_delay == KEYBOARD_HANDSHAKE_TICKS - k,
        !s.eclocks(k).kbd_loaded,
        s.eclocks(k).cra & CRA_SPMODE == 0,
        s.eclocks(k).id == CiaId::A,
        s.eclocks(k).icr_data & 0x08 == s.icr_data & 0x08,
    decreases k,
{
    let prev = s.eclocks((k - 1) as nat);
    if k > 1 {
        lemma_shifting(s, (k - 1) as nat);
    } else {
        assert(prev == s);
    }
    lemma_control_bits(prev.cra);
    lemma_icr_bits(prev.icr_data);
    lemma_icr_bits(prev.timer_a_stepped().icr_data);
}

/// A queued keycode is delivered after the handshake delay and not before:
/// the oldest one, encoded, with the SP interrupt latched, and the rest of
/// the queue in order.
pub proof fn queued_keycode_is_delivered(s: CiaState, k: nat)
    requires
        s.id == CiaId::A,
        s.cra & CRA_SPMODE == 0,
        s.kbd_delay == 0,
        !s.kbd_loaded,
        s.keys.len() > 0,
        k <= KEYBOARD_HANDSHAKE_TICKS,
    ensures
        k < KEYBOARD_HANDSHAKE_TICKS ==> s.eclocks(k).sdr == s.sdr && s.eclocks(k).keys == s.keys
            && s.eclocks(k).icr_data & 0x08 == s.icr_data & 0x08,
        k == KEYBOARD_HANDSHAKE_TICKS ==> s.eclocks(k).sdr == cia::on_wire(s.keys[0]) && s.eclocks(
            k,
        ).keys == s.keys.drop_first() && s.eclocks(k).kbd_loaded && s.eclocks(k).kbd_delay == 0
            && s.eclocks(k).icr_data & 0x08 != 0,
{
    if k == KEYBOARD_HANDSHAKE_TICKS {
        let prev = s.eclocks((k - 1) as nat);
        lemma_shifting(s, (k - 1) as nat);
        lemma_control_bits(prev.cra);
        lemma_icr_bits(prev.icr_data);
        lemma_icr_bits(prev.timer_a_stepped().icr_data);
        lemma_icr_bits(
            prev.timer_a_stepped().timer_b_stepped(prev.timer_a_underflows()).icr_data,
        );
    } else if k > 0 {
        lemma_shifting(s, k);
    }
}

/// Reading SDR returns the delivered byte and lets the next one start.
pub proof fn sdr_read_unblocks_the_keyboard(s: CiaState)
    ensures
        s.reg_read(reg::SDR) == (s.sdr, CiaState { kbd_loaded: false, ..s }),
{
}

/// The overlay is asserted out of reset on CIA-A, never on CIA-B, and is
/// released by clearing PRA bit 0.
pub proof fn reset_asserts_the_overlay(value: u8)
    requires
        value & 0x01 == 0,
    ensures
        cia::reset_state(CiaId::A).pra & 0x01 != 0,
        cia::reset_state(CiaId::A).reg_written(reg::PRA, value).pra & 0x01 == 0,
        !cia::reset_state(CiaId::A).requesting(),
        !cia::reset_state(CiaId::B).requesting(),
{
    assert(1u8 & 0x01 != 0 && 0u8 & 0u8 == 0) by (bit_vector);
}

/// A port write always reaches the latch, whatever the direction bits; a
/// read takes each bit from the latch where it is an output and from the pin
/// where it is an input.
pub proof fn ports_follow_their_direction(s: CiaState, value: u8, bit: u8)
    requires
        bit < 8,
    ensures
        ({
            let w = s.reg_written(reg::PRA, value);
            &&& w.pra == value
            &&& (w.reg_read(reg::PRA).0 & (1u8 << bit) != 0) == if s.ddra & (1u8 << bit) != 0 {
                value & (1u8 << bit) != 0
            } else {
                s.pra_input & (1u8 << bit) != 0
            }
        }),
        ({
            let w = s.reg_written(reg::PRB, value);
            &&& w.prb == value
            &&& (w.reg_read(reg::PRB).0 & (1u8 << bit) != 0) == if s.ddrb & (1u8 << bit) != 0 {
                value & (1u8 << bit) != 0
            } else {
                s.prb_input & (1u8 << bit) != 0
            }
        }),
{
    lemma_port_bit(value, s.ddra, s.pra_input, bit);
    lemma_port_bit(value, s.ddrb, s.prb_input, bit);
}

/// A port bit comes from the latch where it is an output, else from the pin.
proof fn lemma_port_bit(latch: u8, direction: u8, pins: u8, bit: u8)
    requires
        bit < 8,
    ensures
        (((latch & direction) | (pins & !direction)) & (1u8 << bit) != 0) == if direction & (1u8
            << bit) != 0 {
            latch & (1u8 << bit) != 0
        } else {
            pins & (1u8 << bit) != 0
        },
{
    assert((((latch & direction) | (pins & !direction)) & (1u8 << bit) != 0) == if direction & (1u8
        << bit) != 0 {
        latch & (1u8 << bit) != 0
    } else {
        pins & (1u8 << bit) != 0
    }) by (bit_vector)
        requires
            bit < 8,
    ;
}

/// The count that the two registers of a timer spell, high byte first.
pub open spec fn spelled_count(s: CiaState, low: u8, high: u8) -> int {
    256 * s.reg_read(high).0 + s.reg_read(low).0
}

/// A running timer reads as what is left of its count: `k` E-clocks after it
/// held `n`, its two registers spell `n - k`, and reading them disturbs
/// nothing.
pub proof fn running_timers_read_as_counting(s: CiaState, k: nat)
    ensures
        s.timer_a_counts() && k <= s.timer_a ==> spelled_count(s.eclocks(k), reg::TALO, reg::TAHI)
            == s.timer_a - k,
        s.crb & CRB_START != 0 && s.crb / 32 % 4 == 0 && k <= s.timer_b ==> spelled_count(
            s.eclocks(k),
            reg::TBLO,
            reg::TBHI,
        ) == s.timer_b - k,
        s.reg_read(reg::TALO).1 == s,
        s.reg_read(reg::TAHI).1 == s,
        s.reg_read(reg::TBLO).1 == s,
        s.reg_read(reg::TBHI).1 == s,
{
    if s.timer_a_counts() && k <= s.timer_a {
        timer_a_counts_down(s, k);
    }
    if s.crb & CRB_START != 0 && s.crb / 32 % 4 == 0 && k <= s.timer_b {
        timer_b_counts_down(s, k);
    }
}

/// A stopped timer that is programmed and started counts down from what was
/// written: after its two latch bytes and its control register, and `k`
/// E-clocks, its registers spell the written count less `k`.
pub proof fn programmed_timers_read_as_counting(
    s: CiaState,
    low: u8,
    high: u8,
    control: u8,
    k: nat,
)
    requires
        control & 0x01 != 0,
        control & 0x10 == 0,
        k <= 256 * high + low,
    ensures
        s.cra & 0x01 == 0 && s.cra & 0x08 == 0 && control & 0x20 == 0 ==> spelled_count(
            s.reg_written(reg::TALO, low).reg_written(reg::TAHI, high).reg_written(
                reg::CRA,
                control,
            ).eclocks(k),
            reg::TALO,
            reg::TAHI,
        ) == 256 * high + low - k,
        s.crb & 0x01 == 0 && s.crb & 0x08 == 0 && control & 0x60 == 0 ==> spelled_count(
            s.reg_written(reg::TBLO, low).reg_written(reg::TBHI, high).reg_written(
                reg::CRB,
                control,
            ).eclocks(k),
            reg::TBLO,
            reg::TBHI,
        ) == 256 * high + low - k,
{
    lemma_control_bits(control);
    let a = s.reg_written(reg::TALO, low).reg_written(reg::TAHI, high).reg_written(
        reg::CRA,
        control,
    );
    let b = s.reg_written(reg::TBLO, low).reg_written(reg::TBHI, high).reg_written(
        reg::CRB,
        control,
    );
    high_byte_write_programs_the_timer(s, low, high);
    running_timers_read_as_counting(a, k);
    running_timers_read_as_counting(b, k);
}

/// A register with no side effects holds what is written to it and nothing
/// else changes; a control register drops only the LOAD strobe; the serial
/// register is written as it is read; and only the low four bits of a
/// register number count.
pub proof fn plain_registers_hold_what_is_written(s: CiaState, reg: u8, value: u8)
    ensures
        s.reg_written(reg::DDRA, value).reg_read(reg::DDRA) == (
            value,
            s.reg_written(reg::DDRA, value),
        ),
        s.reg_written(reg::DDRB, value).reg_read(reg::DDRB) == (
            value,
            s.reg_written(reg::DDRB, value),
        ),
        s.reg_written(reg::DDRA, value) == (CiaState { ddra: value, ..s }),
        s.reg_written(reg::DDRB, value) == (CiaState { ddrb: value, ..s }),
        s.reg_written(reg::CRA, value).reg_read(reg::CRA).0 == value & 0xEF,
        s.reg_written(reg::CRB, value).reg_read(reg::CRB).0 == value & 0xEF,
        s.reg_written(reg::SDR, value).reg_read(reg::SDR).0 == value,
        s.reg_read(reg) == s.reg_read((reg % 16) as u8),
        s.reg_written(reg, value) == s.reg_written((reg % 16) as u8, value),
{
    assert(value & !0x10u8 == value & 0xEF) by {
        lemma_control_bits(value);
    }
}

/// A queued key reaches the guest: the serial register, read after the
/// handshake delay, holds the key's code rotated left and inverted, and
/// reading it lets the next key start.
pub proof fn keys_reach_the_guest(s: CiaState)
    requires
        s.id == CiaId::A,
        s.cra & 0x40 == 0,
        s.kbd_delay == 0,
        !s.kbd_loaded,
        s.keys.len() > 0,
    ensures
        ({
            let t = s.eclocks(KEYBOARD_HANDSHAKE_TICKS as nat);
            let (wire, next) = t.reg_read(reg::SDR);
            let code = s.keys[0];
            &&& wire == !((code << 1) | (code >> 7))
            &&& !next.kbd_loaded
            &&& next.keys == s.keys.drop_first()
            &&& t.reg_read(reg::ICR).0 & 0x08 != 0
        }),
{
    queued_keycode_is_delivered(s, KEYBOARD_HANDSHAKE_TICKS as nat);
    wire_byte_decodes(s.keys[0]);
    let d = s.eclocks(KEYBOARD_HANDSHAKE_TICKS as nat).icr_data;
    assert(d & 0x08 != 0 ==> (d | (1u8 << 7u8)) & 0x08 != 0) by (bit_vector);
}

} // verus!
