//! Minimal custom-chip register file (`$DFF000`).
//!
//! Only the registers the OS spins on or reads for identification are
//! implemented; everything else falls through to open bus. There is no
//! timing model and no DMA: this is a register file plus a free-running beam
//! counter driven by the frame clock.

use vstd::prelude::*;

pub mod intbit;
pub mod laws;
pub mod reg;

verus! {

/// Frame clock: PAL 50 Hz, 312 lines, 227 colour clocks a line.
pub const PAL_LINES_PER_FRAME: u32 = 312;

pub const PAL_COLOUR_CLOCKS_PER_LINE: u32 = 227;

/// ECS Agnus identification bits reported in the high byte of `VPOSR`.
pub const VPOSR_AGNUS_ID: u16 = 0x2000;

/// The custom-chip register file.
#[derive(Clone, Copy)]
pub struct Chipset {
    /// Interrupt enable mask (`INTENA`), bit 14 is the master enable.
    pub intena: u16,
    /// Interrupt request latch (`INTREQ`).
    pub intreq: u16,
    /// DMA control latch (`DMACON`). No DMA is performed.
    pub dmacon: u16,
    /// Audio/disk control latch (`ADKCON`). Latched, never acted on.
    pub adkcon: u16,
    /// Free-running raster line within the frame, from the frame clock.
    pub vpos: u32,
    /// Free-running horizontal position within the line.
    pub hpos: u32,
    /// CPU-clock remainder carried between `tick` calls.
    pub carry: u32,
    /// Frames completed since reset.
    pub frames: u64,
    /// Mouse/joystick position registers, fed from host input.
    pub joy0dat: u16,
    pub joy1dat: u16,
    /// Potentiometer register; mouse buttons read back through `POTGOR`.
    pub potgor: u16,
}

/// The shared set/clear write convention: bit 15 decides whether the
/// remaining bits are set or cleared in the target register.
pub open spec fn setclr(current: u16, value: u16) -> u16 {
    if value & 0x8000 != 0 {
        current | (value & 0x7FFF)
    } else {
        current & !(value & 0x7FFF)
    }
}

/// The 68k level of a set of active interrupt bits: the highest set bit
/// wins. Bits 0-2 are level 1, 3-4 level 2, 5-6 level 3, 7-8 level 4, 9-10
/// level 5, 11-13 level 6, and anything above requests nothing.
pub open spec fn level_of(active: u16) -> u8 {
    if active == 0 {
        0
    } else if active < 0x0008 {
        1
    } else if active < 0x0020 {
        2
    } else if active < 0x0080 {
        3
    } else if active < 0x0200 {
        4
    } else if active < 0x0800 {
        5
    } else if active < 0x4000 {
        6
    } else {
        0
    }
}

impl Chipset {
    /// What a register read returns.
    pub open spec fn reg_value(self, offset: u16) -> u16 {
        if offset == reg::VPOSR {
            (VPOSR_AGNUS_ID + self.vpos / 256 % 2) as u16
        } else if offset == reg::VHPOSR {
            (self.vpos % 256 * 256 + self.hpos % 256) as u16
        } else if offset == reg::INTENAR {
            self.intena
        } else if offset == reg::INTREQR {
            self.intreq
        } else if offset == reg::DMACONR {
            self.dmacon
        } else if offset == reg::ADKCONR {
            self.adkcon
        } else if offset == reg::JOY0DAT {
            self.joy0dat
        } else if offset == reg::JOY1DAT {
            self.joy1dat
        } else if offset == reg::POTGOR {
            self.potgor
        } else if offset == reg::SERDATR {
            0x2000
        } else if offset == reg::DSKBYTR {
            0x0000
        } else {
            0xFFFF
        }
    }

    /// The register file after a write.
    pub open spec fn written(self, offset: u16, value: u16) -> Chipset {
        if offset == reg::INTENA {
            Chipset { intena: setclr(self.intena, value), ..self }
        } else if offset == reg::INTREQ {
            Chipset { intreq: setclr(self.intreq, value), ..self }
        } else if offset == reg::DMACON {
            Chipset { dmacon: setclr(self.dmacon, value), ..self }
        } else if offset == reg::ADKCON {
            Chipset { adkcon: setclr(self.adkcon, value), ..self }
        } else {
            self
        }
    }

    /// The beam after the end of a line: the next line, or the top of the
    /// next frame, which raises VERTB.
    pub open spec fn line_done(self) -> Chipset {
        let hpos = (self.hpos - PAL_COLOUR_CLOCKS_PER_LINE) as u32;
        if self.vpos + 1 >= PAL_LINES_PER_FRAME {
            Chipset {
                hpos,
                vpos: 0,
                frames: (self.frames + 1) as u64,
                intreq: self.intreq | (1u16 << intbit::VERTB),
                ..self
            }
        } else {
            Chipset { hpos, vpos: (self.vpos + 1) as u32, ..self }
        }
    }

    /// The beam once its horizontal position is back inside a line.
    pub open spec fn settled(self) -> Chipset
        decreases self.hpos,
    {
        if self.hpos < PAL_COLOUR_CLOCKS_PER_LINE {
            self
        } else {
            self.line_done().settled()
        }
    }

    /// The chipset after `cpu_clocks` CPU cycles.
    pub open spec fn ticked(self, cpu_clocks: u32, per_colour_clock: u32) -> Chipset {
        let total = (self.carry + cpu_clocks) as u32;
        (Chipset {
            carry: total % per_colour_clock,
            hpos: (self.hpos + total / per_colour_clock) as u32,
            ..self
        }).settled()
    }

    /// How many frames end while the beam settles.
    pub open spec fn frames_ahead(self) -> int {
        let line = if self.vpos < PAL_LINES_PER_FRAME {
            self.vpos as int
        } else {
            311
        };
        (line + self.hpos / 227) / 312
    }

    /// A beam inside the frame.
    pub open spec fn in_frame(self) -> bool {
        self.hpos < PAL_COLOUR_CLOCKS_PER_LINE && self.vpos < PAL_LINES_PER_FRAME
    }
}

impl Default for Chipset {
    /// Every register clear.
    fn default() -> (chipset: Self)
        ensures
            chipset == (Chipset {
                intena: 0,
                intreq: 0,
                dmacon: 0,
                adkcon: 0,
                vpos: 0,
                hpos: 0,
                carry: 0,
                frames: 0,
                joy0dat: 0,
                joy1dat: 0,
                potgor: 0,
            }),
    {
        Chipset {
            intena: 0,
            intreq: 0,
            dmacon: 0,
            adkcon: 0,
            vpos: 0,
            hpos: 0,
            carry: 0,
            frames: 0,
            joy0dat: 0,
            joy1dat: 0,
            potgor: 0,
        }
    }
}

impl Chipset {
    /// A chipset out of reset. `POTGOR` reads all-ones when no pot inputs
    /// are pulled low, which is what "no buttons pressed" looks like.
    pub fn new() -> (chipset: Self)
        ensures
            chipset == (Chipset {
                intena: 0,
                intreq: 0,
                dmacon: 0,
                adkcon: 0,
                vpos: 0,
                hpos: 0,
                carry: 0,
                frames: 0,
                joy0dat: 0,
                joy1dat: 0,
                potgor: 0xFFFF,
            }),
    {
        let mut chipset: Chipset = Chipset::default();
        chipset.potgor = 0xFFFF;
        chipset
    }

    /// Read a register. `offset` is the offset within `$DFF000`.
    ///
    /// There is no disk and no serial hardware: both report "idle, nothing
    /// to do" so their drivers settle instead of spinning. Unimplemented
    /// registers return `$FFFF` (open bus).
    pub fn read(&mut self, offset: u16) -> (value: u16)
        ensures
            *final(self) == *old(self),
            value == old(self).reg_value(offset),
    {
        match offset {
            reg::VPOSR => self.vposr(),
            reg::VHPOSR => self.vhposr(),
            reg::INTENAR => self.intena,
            reg::INTREQR => self.intreq,
            reg::DMACONR => self.dmacon,
            reg::ADKCONR => self.adkcon,
            reg::JOY0DAT => self.joy0dat,
            reg::JOY1DAT => self.joy1dat,
            reg::POTGOR => self.potgor,
            reg::SERDATR => 0x2000,
            reg::DSKBYTR => 0x0000,
            _ => 0xFFFF,
        }
    }

    /// Write a register. Unimplemented registers are silently discarded.
    pub fn write(&mut self, offset: u16, value: u16)
        ensures
            *final(self) == old(self).written(offset, value),
    {
        match offset {
            reg::INTENA => self.intena = apply_setclr(self.intena, value),
            reg::INTREQ => self.intreq = apply_setclr(self.intreq, value),
            reg::DMACON => self.dmacon = apply_setclr(self.dmacon, value),
            reg::ADKCON => self.adkcon = apply_setclr(self.adkcon, value),
            _ => {},
        }
    }

    /// `VPOSR`: Agnus ID in the high byte, bit 0 is vertical position bit 8.
    fn vposr(&self) -> (value: u16)
        ensures
            value == self.reg_value(reg::VPOSR),
    {
        VPOSR_AGNUS_ID + (self.vpos / 256 % 2) as u16
    }

    /// `VHPOSR`: vertical position low byte, horizontal position low byte.
    fn vhposr(&self) -> (value: u16)
        ensures
            value == self.reg_value(reg::VHPOSR),
    {
        (self.vpos % 256 * 256 + self.hpos % 256) as u16
    }

    /// Raise an interrupt source (used by the CIAs and by cards).
    pub fn raise_int(&mut self, bit: u16)
        requires
            bit < 16,
        ensures
            *final(self) == (Chipset {
                intreq: old(self).intreq | (1u16 << bit),
                ..*old(self)
            }),
    {
        self.intreq = self.intreq | (1u16 << bit);
    }

    /// The 68k interrupt level the chipset is currently requesting, 0 for
    /// none. Nothing is requested without the master enable.
    pub fn pending_level(&self) -> (level: u8)
        ensures
            level == (if self.intena & 0x4000 == 0 {
                0
            } else {
                level_of(self.intena & self.intreq)
            }),
            self.intena & 0x4000 == 0 || self.intena & self.intreq == 0 ==> level == 0,
            forall|bit: u16|
                self.intena & 0x4000 != 0 && bit < 14 && #[trigger] ((self.intena & self.intreq)
                    >> bit) == 1 ==> level == (if bit < 3 {
                    1int
                } else if bit < 11 {
                    (bit + 1) / 2
                } else {
                    6
                }),
    {
        proof {
            let active = self.intena & self.intreq;
            assert forall|bit: u16|
                self.intena & 0x4000 != 0 && bit < 14 && #[trigger] (active >> bit)
                    == 1 implies level_of(active) == (if bit < 3 {
                1int
            } else if bit < 11 {
                (bit + 1) / 2
            } else {
                6
            }) by {
                highest_bit_decides_the_level(active, bit);
            }
        }
        if self.intena & 0x4000 == 0 {
            return 0;
        }
        let active: u16 = self.intena & self.intreq;
        if active == 0 {
            0
        } else if active < 0x0008 {
            1
        } else if active < 0x0020 {
            2
        } else if active < 0x0080 {
            3
        } else if active < 0x0200 {
            4
        } else if active < 0x0800 {
            5
        } else if active < 0x4000 {
            6
        } else {
            0
        }
    }

    /// Advance the frame clock by `cpu_clocks` CPU cycles.
    ///
    /// Returns `true` when a frame boundary was crossed, which the caller
    /// turns into VERTB. One clock feeds the beam counter, VERTB and the
    /// renderer.
    pub fn tick(&mut self, cpu_clocks: u32, cpu_clocks_per_colour_clock: u32) -> (wrapped: bool)
        requires
            cpu_clocks_per_colour_clock > 0,
            old(self).carry + cpu_clocks <= u32::MAX,
            old(self).hpos + (old(self).carry + cpu_clocks) / cpu_clocks_per_colour_clock as int
                <= u32::MAX,
            ({
                let moved = advanced(*old(self), cpu_clocks, cpu_clocks_per_colour_clock);
                &&& moved.frames + moved.frames_ahead() <= u64::MAX
                &&& moved.vpos < u32::MAX || moved.hpos < PAL_COLOUR_CLOCKS_PER_LINE
            }),
        ensures
            *final(self) == old(self).ticked(cpu_clocks, cpu_clocks_per_colour_clock),
            wrapped == (final(self).frames != old(self).frames),
            final(self).carry < cpu_clocks_per_colour_clock,
            final(self).hpos < PAL_COLOUR_CLOCKS_PER_LINE,
    {
        let total: u32 = self.carry + cpu_clocks;
        let colour_clocks: u32 = total / cpu_clocks_per_colour_clock;
        self.carry = total % cpu_clocks_per_colour_clock;
        assert(self.carry < cpu_clocks_per_colour_clock) by (nonlinear_arith)
            requires
                self.carry == total as int % cpu_clocks_per_colour_clock as int,
                cpu_clocks_per_colour_clock > 0,
        ;
        let mut wrapped = false;
        self.hpos = self.hpos + colour_clocks;
        let ghost start = *self;
        while self.hpos >= PAL_COLOUR_CLOCKS_PER_LINE
            invariant
                self.settled() == start.settled(),
                self.vpos < u32::MAX || self.hpos < PAL_COLOUR_CLOCKS_PER_LINE,
                self.carry == start.carry,
                start.frames == old(self).frames,
                start.frames <= self.frames,
                self.frames + self.frames_ahead() <= u64::MAX,
                wrapped == (self.frames != start.frames),
            decreases self.hpos,
        {
            self.hpos = self.hpos - PAL_COLOUR_CLOCKS_PER_LINE;
            self.vpos = self.vpos + 1;
            if self.vpos >= PAL_LINES_PER_FRAME {
                self.vpos = 0;
                self.frames = self.frames + 1;
                wrapped = true;
                self.raise_int(intbit::VERTB);
            }
        }
        wrapped
    }
}

/// Apply the shared set/clear write convention.
fn apply_setclr(current: u16, value: u16) -> (updated: u16)
    ensures
        updated == setclr(current, value),
{
    let bits: u16 = value & 0x7FFF;
    if value & 0x8000 != 0 {
        current | bits
    } else {
        current & !bits
    }
}

/// A set/clear write touches exactly the bits it names: with bit 15 they
/// are all set, without it all cleared, and every other bit stays.
pub proof fn setclr_touches_named_bits(current: u16, value: u16, bit: u16)
    by (bit_vector)
    requires
        bit < 15,
    ensures
        (value >> bit) & 1 == 1 && value & 0x8000 != 0 ==> (setclr(current, value) >> bit) & 1
            == 1,
        (value >> bit) & 1 == 1 && value & 0x8000 == 0 ==> (setclr(current, value) >> bit) & 1
            == 0,
        (value >> bit) & 1 == 0 ==> (setclr(current, value) >> bit) & 1 == (current >> bit) & 1,
        (setclr(current, value) >> 15) & 1 == (current >> 15) & 1,
        (value >> bit) & 1 == 0 || (value >> bit) & 1 == 1,
{
}

/// The highest active bit alone decides the level.
pub proof fn highest_bit_decides_the_level(active: u16, bit: u16)
    by (bit_vector)
    requires
        bit < 16,
        active >> bit == 1,
    ensures
        level_of(active) == level_of(1u16 << bit),
        level_of(active) == (if bit <= 2 {
            1
        } else if bit <= 4 {
            2
        } else if bit <= 6 {
            3
        } else if bit <= 8 {
            4
        } else if bit <= 10 {
            5
        } else if bit <= 13 {
            6
        } else {
            0u8
        }),
{
}

/// The beam's position in colour clocks since the start of frame zero.
pub open spec fn beam_clock(c: Chipset) -> int {
    (c.frames * 312 + c.vpos) * 227 + c.hpos
}

/// Raising VERTB again changes nothing.
proof fn lemma_raised_twice(requests: u16)
    ensures
        (requests | (1u16 << intbit::VERTB)) | (1u16 << intbit::VERTB) == requests | (1u16
            << intbit::VERTB),
{
    assert((requests | (1u16 << 5)) | (1u16 << 5) == requests | (1u16 << 5)) by (bit_vector);
}

/// The beam sweeps the frame at a constant rate: from a line inside the
/// frame, settling keeps its position counted in colour clocks, ends inside
/// the frame, and raises VERTB exactly when a frame ended.
pub proof fn beam_sweeps_the_frame(c: Chipset)
    requires
        c.vpos < PAL_LINES_PER_FRAME,
        c.frames + c.frames_ahead() <= u64::MAX,
    ensures
        c.settled().in_frame(),
        beam_clock(c.settled()) == beam_clock(c),
        c.settled().frames == c.frames + c.frames_ahead(),
        c.settled().frames == c.frames ==> c.settled().intreq == c.intreq,
        c.settled().frames != c.frames ==> c.settled().intreq == c.intreq | (1u16
            << intbit::VERTB),
        c.settled().carry == c.carry,
    decreases c.hpos,
{
    if c.hpos >= PAL_COLOUR_CLOCKS_PER_LINE {
        let next = c.line_done();
        beam_sweeps_the_frame(next);
        lemma_raised_twice(c.intreq);
    }
}

/// No CPU cycle is lost or counted twice: what a tick adds to the beam, in
/// colour clocks, and to the carried remainder is exactly the cycles it was
/// given.
pub proof fn ticks_lose_no_time(c: Chipset, cpu_clocks: u32, per_colour_clock: u32)
    requires
        per_colour_clock > 0,
        c.vpos < PAL_LINES_PER_FRAME,
        c.carry + cpu_clocks <= u32::MAX,
        c.hpos + (c.carry + cpu_clocks) / per_colour_clock as int <= u32::MAX,
        c.frames + advanced(c, cpu_clocks, per_colour_clock).frames_ahead() <= u64::MAX,
    ensures
        ({
            let after = c.ticked(cpu_clocks, per_colour_clock);
            &&& after.in_frame()
            &&& after.carry < per_colour_clock
            &&& beam_clock(after) * per_colour_clock + after.carry == beam_clock(c)
                * per_colour_clock + c.carry + cpu_clocks
        }),
{
    let total = (c.carry + cpu_clocks) as u32;
    let gained = total / per_colour_clock;
    let moved = advanced(c, cpu_clocks, per_colour_clock);
    beam_sweeps_the_frame(moved);
    let per = per_colour_clock as int;
    vstd::arithmetic::div_mod::lemma_fundamental_div_mod(total as int, per);
    vstd::arithmetic::div_mod::lemma_mod_bound(total as int, per);
    let start = beam_clock(c);
    assert(beam_clock(moved) == start + gained);
    assert((start + gained) * per == start * per + per * gained) by (nonlinear_arith);
}

/// The frames that have ended once the beam settles are the whole frames of
/// its position in colour clocks.
proof fn lemma_frames_by_clock(c: Chipset)
    requires
        c.vpos < PAL_LINES_PER_FRAME,
    ensures
        c.frames + c.frames_ahead() == beam_clock(c) / 70824,
{
}

/// Settling the beam moves nothing but the beam, the frame count and VERTB.
proof fn lemma_settled_keeps(c: Chipset)
    ensures
        c.settled().intena == c.intena,
        c.settled().dmacon == c.dmacon,
        c.settled().adkcon == c.adkcon,
        c.settled().carry == c.carry,
        c.settled().joy0dat == c.joy0dat,
        c.settled().joy1dat == c.joy1dat,
        c.settled().potgor == c.potgor,
    decreases c.hpos,
{
    if c.hpos >= PAL_COLOUR_CLOCKS_PER_LINE {
        lemma_settled_keeps(c.line_done());
    }
}

/// The beam before it settles: what a tick has added to it.
pub open spec fn advanced(c: Chipset, cpu_clocks: u32, per_colour_clock: u32) -> Chipset {
    let total = (c.carry + cpu_clocks) as u32;
    Chipset {
        carry: total % per_colour_clock,
        hpos: (c.hpos + total / per_colour_clock) as u32,
        ..c
    }
}

/// How a span of time is cut into ticks makes no difference: two ticks leave
/// the chipset exactly where one tick of their sum does.
pub proof fn ticks_add_up(c: Chipset, first: u32, second: u32, per_colour_clock: u32)
    requires
        per_colour_clock > 0,
        c.in_frame(),
        c.carry + first + second <= u32::MAX,
        c.hpos + (c.carry + first + second) / per_colour_clock as int <= u32::MAX,
        c.frames + advanced(c, (first + second) as u32, per_colour_clock).frames_ahead()
            <= u64::MAX,
    ensures
        c.ticked(first, per_colour_clock).ticked(second, per_colour_clock) == c.ticked(
            (first + second) as u32,
            per_colour_clock,
        ),
{
    let per = per_colour_clock as int;
    let (a, b) = (c.carry + first, c.carry + first + second);
    let sum = (first + second) as u32;
    let whole = c.ticked(sum, per_colour_clock);
    let half = c.ticked(first, per_colour_clock);
    vstd::arithmetic::div_mod::lemma_div_is_ordered(a, b, per);
    vstd::arithmetic::div_mod::lemma_fundamental_div_mod(a, per);
    vstd::arithmetic::div_mod::lemma_mod_bound(a, per);
    lemma_frames_by_clock(advanced(c, first, per_colour_clock));
    lemma_frames_by_clock(advanced(c, sum, per_colour_clock));
    ticks_lose_no_time(c, first, per_colour_clock);
    ticks_lose_no_time(c, sum, per_colour_clock);
    lemma_settled_keeps(advanced(c, first, per_colour_clock));
    lemma_settled_keeps(advanced(c, sum, per_colour_clock));
    beam_sweeps_the_frame(advanced(c, first, per_colour_clock));
    beam_sweeps_the_frame(advanced(c, sum, per_colour_clock));
    assert(half.carry == a % per);
    let rest = half.carry + second;
    assert(a / per + rest / per == b / per) by {
        assert(b == rest + per * (a / per));
        vstd::arithmetic::div_mod::lemma_hoist_over_denominator(rest, a / per, per as nat);
        assert(per * (a / per) == (a / per) * per) by (nonlinear_arith);
    }
    assert(rest / per >= 0) by {
        vstd::arithmetic::div_mod::lemma_div_pos_is_pos(rest, per);
    }
    assert(beam_clock(half) == beam_clock(c) + a / per);
    lemma_frames_by_clock(advanced(half, second, per_colour_clock));
    ticks_lose_no_time(half, second, per_colour_clock);
    lemma_settled_keeps(advanced(half, second, per_colour_clock));
    beam_sweeps_the_frame(advanced(half, second, per_colour_clock));
    let twice = half.ticked(second, per_colour_clock);
    assert(beam_clock(twice) == beam_clock(c) + a / per + rest / per);
    assert(beam_clock(whole) == beam_clock(c) + b / per);
    assert(twice.carry == whole.carry) by {
        let (x, y) = (beam_clock(twice), beam_clock(whole));
        assert(x == y);
        assert(x * per == y * per);
    }
    lemma_raised_twice(c.intreq);
}

} // verus!
