//! The Cirrus Logic CL-GD542x register model, the chip underneath this
//! machine's graphics cards.
//!
//! It is deliberately not a VGA card: no text mode, no font or attribute
//! machinery, no BIOS. A board built on this chip powers up behind the
//! Amiga's native video and the RTG driver programs a packed-pixel mode
//! from scratch.
//!
//! Chip and board are kept separate. [`Cirrus542x`] is the register model
//! on its own: the VGA port map, the Cirrus extensions, VRAM and
//! `decoded_mode`. It knows nothing about AUTOCONFIG, product numbers or
//! window layout; a board module (e.g. [`crate::graffity`]) wraps it.

use crate::OPEN_BUS_BYTE;
use vstd::prelude::*;

pub mod bitblt;
pub mod blit_laws;
pub mod blit_mode;
pub mod blit_modeext;
pub mod blit_status;
pub mod crtc11;
pub mod idx;
pub mod laws;
pub mod mode;
pub mod mode_laws;
pub mod port;
pub mod port_laws;
pub mod sr12;

pub use crate::cirrus::bitblt::apply_rop;
pub use crate::cirrus::mode::{DecodedMode, PixelDepth};

verus! {

/// Which CL-GD542x revision this board presents.
#[derive(Clone, Copy, PartialEq, Eq, Debug, Structural)]
pub enum ChipRevision {
    /// CL-GD5426, the original Picasso II.
    Gd5426,
    /// CL-GD5428, the Picasso II+.
    Gd5428,
}

impl ChipRevision {
    /// The part ID the chip reports, which the driver reads to identify the
    /// silicon.
    pub open spec fn id(self) -> u8 {
        match self {
            ChipRevision::Gd5426 => 0x90,
            ChipRevision::Gd5428 => 0x98,
        }
    }

    /// The part ID the chip reports.
    pub fn part_id(self) -> (id: u8)
        ensures
            id == self.id(),
    {
        match self {
            ChipRevision::Gd5426 => 0x90,
            ChipRevision::Gd5428 => 0x98,
        }
    }
}

/// Upper bound on how much of a system-source (host-fed) transfer is
/// buffered before it runs. Bytes past the cap are counted towards
/// completion, so the driver's handshake still finishes, but dropped.
pub const SYSTEM_BLIT_CAPACITY: usize = 8192;

/// A palette entry, six bits per gun as the RAMDAC holds it.
#[derive(Clone, Copy, PartialEq, Eq, Structural)]
pub struct Rgb {
    pub r: u8,
    pub g: u8,
    pub b: u8,
}

/// Which of the three guns the next palette-data access addresses.
#[derive(Clone, Copy, PartialEq, Eq, Structural)]
pub enum Gun {
    Red,
    Green,
    Blue,
}

impl Gun {
    /// The gun after this one.
    pub open spec fn succ(self) -> Gun {
        match self {
            Gun::Red => Gun::Green,
            Gun::Green => Gun::Blue,
            Gun::Blue => Gun::Red,
        }
    }

    fn next(self) -> (gun: Gun)
        ensures
            gun == self.succ(),
    {
        match self {
            Gun::Red => Gun::Green,
            Gun::Green => Gun::Blue,
            Gun::Blue => Gun::Red,
        }
    }
}

impl Rgb {
    /// The level of one gun.
    pub open spec fn level(self, gun: Gun) -> u8 {
        match gun {
            Gun::Red => self.r,
            Gun::Green => self.g,
            Gun::Blue => self.b,
        }
    }

    /// The entry with one gun set.
    pub open spec fn with_level(self, gun: Gun, value: u8) -> Rgb {
        match gun {
            Gun::Red => Rgb { r: value, ..self },
            Gun::Green => Rgb { g: value, ..self },
            Gun::Blue => Rgb { b: value, ..self },
        }
    }

    fn get(self, gun: Gun) -> (value: u8)
        ensures
            value == self.level(gun),
    {
        match gun {
            Gun::Red => self.r,
            Gun::Green => self.g,
            Gun::Blue => self.b,
        }
    }

    fn with(self, gun: Gun, value: u8) -> (entry: Rgb)
        ensures
            entry == self.with_level(gun, value),
    {
        match gun {
            Gun::Red => Rgb { r: value, ..self },
            Gun::Green => Rgb { g: value, ..self },
            Gun::Blue => Rgb { b: value, ..self },
        }
    }

    /// The entry expanded to eight bits per gun: each six-bit level is
    /// shifted up and its top two bits replicated downward, so full
    /// intensity is actually full.
    pub open spec fn argb(self) -> u32 {
        (0xFF00_0000 + expanded(self.r) * 0x1_0000 + expanded(self.g) * 0x100 + expanded(
            self.b,
        )) as u32
    }
}

/// A six-bit level widened to eight bits.
pub open spec fn expanded(level: u8) -> int {
    level % 64 * 4 + level % 64 / 16
}

fn expand(level: u8) -> (wide: u32)
    ensures
        wide == expanded(level),
        wide <= 255,
{
    let six: u32 = (level % 64) as u32;
    six * 4 + six / 16
}

/// A system-source blit that is waiting for the driver to push its data
/// through the VRAM aperture: how many bytes it still needs, and the bytes
/// that have arrived, up to the capacity.
#[verifier::ext_equal]
pub struct Feed {
    pub remaining: usize,
    pub data: Seq<u8>,
}

/// What the chip's registers and VRAM hold.
#[verifier::ext_equal]
pub struct CirrusState {
    pub revision: ChipRevision,
    pub vram: Seq<u8>,
    pub sr: Seq<u8>,
    pub crtc: Seq<u8>,
    pub gr: Seq<u8>,
    pub ar: Seq<u8>,
    pub palette: Seq<Rgb>,
    pub cursor_palette: Seq<Rgb>,
    pub seq_index: u8,
    pub crtc_index: u8,
    pub gr_index: u8,
    pub ar_index: u8,
    pub ar_next_is_data: bool,
    pub misc_output: u8,
    pub pel_mask: u8,
    pub hidden_dac: u8,
    pub hidden_dac_arm: u8,
    pub dac_write_index: u8,
    pub dac_read_index: u8,
    pub dac_component: Gun,
    pub dac_read_mode: bool,
    pub system_blit: Option<Feed>,
    pub vblank_pending: bool,
}

impl CirrusState {
    /// Whether the Cirrus extended registers are unlocked.
    pub open spec fn unlocked(self) -> bool {
        self.sr[idx::SR_LOCK as int] == idx::SR_LOCK_UNLOCKED
    }

    /// What the sequencer data port reads.
    pub open spec fn sequencer_value(self) -> u8 {
        let index = self.seq_index % 32;
        if index > idx::SR_LOCK && !self.unlocked() {
            OPEN_BUS_BYTE
        } else {
            self.sr[index as int]
        }
    }

    /// The chip after a sequencer data write. The lock register latches
    /// only "unlocked" or "locked"; extended registers take nothing while
    /// locked.
    pub open spec fn sequencer_written(self, value: u8) -> CirrusState {
        let index = self.seq_index % 32;
        if index == idx::SR_LOCK {
            CirrusState {
                sr: self.sr.update(
                    idx::SR_LOCK as int,
                    if value & idx::SR_LOCK_UNLOCK_MASK == idx::SR_LOCK_UNLOCKED {
                        idx::SR_LOCK_UNLOCKED
                    } else {
                        idx::SR_LOCK_LOCKED
                    },
                ),
                ..self
            }
        } else if index > idx::SR_LOCK && !self.unlocked() {
            self
        } else {
            CirrusState { sr: self.sr.update(index as int, value), ..self }
        }
    }

    /// What the graphics-controller data port reads. In the blit status
    /// register the busy bits show whether a transfer waits on host data.
    pub open spec fn graphics_value(self) -> u8 {
        let index = self.gr_index % 64;
        if index > 8 && !self.unlocked() {
            OPEN_BUS_BYTE
        } else if index == idx::GR_BLIT_START_STATUS {
            let idle = self.gr[index as int] & !blit_status::BUSY_MASK;
            if self.system_blit is Some {
                idle | blit_status::BUSY_MASK
            } else {
                idle
            }
        } else {
            self.gr[index as int]
        }
    }

    /// The chip after a BitBLT transfer with this host-fed data.
    pub open spec fn blitted(self, system: Option<Seq<u8>>) -> CirrusState {
        let (gr, vram) = bitblt::blit_result(self.gr, self.vram, system);
        CirrusState { gr, vram, ..self }
    }

    /// The chip after a blit is started: a system-source blit waits for its
    /// data, anything else runs to completion.
    pub open spec fn blit_started(self) -> CirrusState {
        if self.gr[idx::GR_BLIT_MODE as int] & blit_mode::SYSTEM_SOURCE != 0 {
            CirrusState {
                system_blit: Some(
                    Feed {
                        remaining: bitblt::system_bytes(self.gr) as usize,
                        data: Seq::empty(),
                    },
                ),
                ..self
            }
        } else {
            self.blitted(None)
        }
    }

    /// The chip after a graphics-controller data write. The blit status
    /// register also triggers: reset abandons a pending transfer, else
    /// start arms one.
    pub open spec fn graphics_written(self, value: u8) -> CirrusState {
        let index = self.gr_index % 64;
        if index > 8 && !self.unlocked() {
            self
        } else {
            let latched = CirrusState { gr: self.gr.update(index as int, value), ..self };
            if index == idx::GR_BLIT_START_STATUS && value & blit_status::RESET != 0 {
                CirrusState {
                    gr: latched.gr.update(index as int, value & !blit_status::BUSY_MASK),
                    system_blit: None,
                    ..latched
                }
            } else if index == idx::GR_BLIT_START_STATUS && value & blit_status::START != 0 {
                latched.blit_started()
            } else {
                latched
            }
        }
    }

    /// The chip after a byte is pushed through the VRAM aperture. While a
    /// system-source blit waits for data every write feeds it, whatever the
    /// offset, and the byte that completes it runs the blit. Otherwise the
    /// byte is stored, if the offset is inside VRAM.
    pub open spec fn aperture_written(self, offset: usize, value: u8) -> CirrusState {
        match self.system_blit {
            Some(feed) => {
                let data = if feed.data.len() < SYSTEM_BLIT_CAPACITY {
                    feed.data.push(value)
                } else {
                    feed.data
                };
                if feed.remaining > 1 {
                    CirrusState {
                        system_blit: Some(
                            Feed { remaining: (feed.remaining - 1) as usize, data },
                        ),
                        ..self
                    }
                } else {
                    (CirrusState { system_blit: None, ..self }).blitted(Some(data))
                }
            },
            None => if offset < self.vram.len() {
                CirrusState { vram: self.vram.update(offset as int, value), ..self }
            } else {
                self
            },
        }
    }

    /// What the CRTC data port reads. The chip-ID register always answers.
    pub open spec fn crtc_value(self) -> u8 {
        let index = self.crtc_index % 64;
        if index == idx::CRTC_ID {
            self.revision.id()
        } else if index > idx::CRTC_LAST_STANDARD && !self.unlocked() {
            OPEN_BUS_BYTE
        } else {
            self.crtc[index as int]
        }
    }

    /// The chip after a CRTC data write. CR11 bit 7 write-protects
    /// CR00-CR07 except CR07 bit 4, and writing CR11 with bit 4 low
    /// acknowledges the vertical-retrace interrupt.
    pub open spec fn crtc_written(self, value: u8) -> CirrusState {
        let index = self.crtc_index % 64;
        if index == idx::CRTC_ID {
            self
        } else if index > idx::CRTC_LAST_STANDARD && !self.unlocked() {
            self
        } else if self.crtc[0x11] & 0x80 != 0 && index <= 7 {
            if index == 7 {
                CirrusState {
                    crtc: self.crtc.update(7, (self.crtc[7] & !0x10) | (value & 0x10)),
                    ..self
                }
            } else {
                self
            }
        } else {
            CirrusState {
                crtc: self.crtc.update(index as int, value),
                vblank_pending: self.vblank_pending && !(index == idx::CRTC_END_VERTICAL_RETRACE
                    && value & crtc11::CLEAR_VERTICAL_INTERRUPT == 0),
                ..self
            }
        }
    }

    /// The chip after a write to the attribute controller's shared port,
    /// which alternates between loading the index and writing data.
    pub open spec fn attribute_written(self, value: u8) -> CirrusState {
        if self.ar_next_is_data {
            CirrusState {
                ar: self.ar.update((self.ar_index % 32) as int, value),
                ar_next_is_data: false,
                ..self
            }
        } else {
            CirrusState { ar_index: value % 64, ar_next_is_data: true, ..self }
        }
    }

    /// Whether DAC data accesses address the cursor's colour table.
    pub open spec fn cursor_colours(self) -> bool {
        self.sr[idx::SR_CURSOR_ATTR as int] & sr12::CURSOR_PALETTE_SELECT != 0
    }

    /// What the DAC data port reads.
    pub open spec fn dac_value(self) -> u8 {
        if self.cursor_colours() {
            self.cursor_palette[(self.dac_read_index % 16) as int].level(self.dac_component)
        } else {
            self.palette[self.dac_read_index as int].level(self.dac_component)
        }
    }

    /// The chip after a DAC data read: the index moves on after blue.
    pub open spec fn dac_read(self) -> CirrusState {
        CirrusState {
            dac_component: self.dac_component.succ(),
            dac_read_index: if self.dac_component == Gun::Blue {
                self.dac_read_index.wrapping_add(1)
            } else {
                self.dac_read_index
            },
            ..self
        }
    }

    /// The chip after a DAC data write: six bits are kept, and the index
    /// moves on after blue.
    pub open spec fn dac_written(self, value: u8) -> CirrusState {
        let index = self.dac_write_index;
        let gun = self.dac_component;
        CirrusState {
            palette: if self.cursor_colours() {
                self.palette
            } else {
                self.palette.update(
                    index as int,
                    self.palette[index as int].with_level(gun, value % 64),
                )
            },
            cursor_palette: if self.cursor_colours() {
                self.cursor_palette.update(
                    (index % 16) as int,
                    self.cursor_palette[(index % 16) as int].with_level(gun, value % 64),
                )
            } else {
                self.cursor_palette
            },
            dac_component: gun.succ(),
            dac_write_index: if gun == Gun::Blue {
                index.wrapping_add(1)
            } else {
                index
            },
            ..self
        }
    }

    /// Whether the next pixel-mask access reaches the hidden DAC register:
    /// after four consecutive pixel-mask reads while unlocked.
    pub open spec fn hidden_dac_armed(self) -> bool {
        self.unlocked() && self.hidden_dac_arm >= 4
    }

    /// Whether CR11 arms the vertical-retrace interrupt.
    pub open spec fn vertical_interrupt_armed(self) -> bool {
        self.crtc[idx::CRTC_END_VERTICAL_RETRACE as int] & (crtc11::DISABLE_VERTICAL_INTERRUPT
            | crtc11::CLEAR_VERTICAL_INTERRUPT) == crtc11::CLEAR_VERTICAL_INTERRUPT
    }

    /// Whether the chip asserts its vertical-retrace interrupt line.
    pub open spec fn interrupting(self) -> bool {
        self.vblank_pending && self.vertical_interrupt_armed()
    }

    /// What a register read at `offset` returns, and the chip after it. Any
    /// access to another port disarms the hidden DAC.
    pub open spec fn reg_read(self, offset: u32) -> (u8, CirrusState) {
        let disarmed = CirrusState { hidden_dac_arm: 0, ..self };
        if offset == port::PEL_MASK {
            if self.hidden_dac_armed() {
                (self.hidden_dac, disarmed)
            } else if self.unlocked() {
                (
                    self.pel_mask,
                    CirrusState { hidden_dac_arm: (self.hidden_dac_arm + 1) as u8, ..self },
                )
            } else {
                (self.pel_mask, disarmed)
            }
        } else if offset == port::MISC_OUTPUT {
            (
                if self.interrupting() {
                    0x80
                } else {
                    0
                },
                disarmed,
            )
        } else if offset == port::SEQ_INDEX {
            (self.seq_index, disarmed)
        } else if offset == port::SEQ_DATA {
            (self.sequencer_value(), disarmed)
        } else if offset == port::DAC_READ_INDEX {
            (
                if self.dac_read_mode {
                    0x03
                } else {
                    0x00
                },
                disarmed,
            )
        } else if offset == port::DAC_WRITE_INDEX {
            (self.dac_write_index, disarmed)
        } else if offset == port::DAC_DATA {
            (self.dac_value(), disarmed.dac_read())
        } else if offset == port::MISC_OUTPUT_READ {
            (self.misc_output, disarmed)
        } else if offset == port::GR_INDEX {
            (self.gr_index, disarmed)
        } else if offset == port::GR_DATA {
            (self.graphics_value(), disarmed)
        } else if offset == port::AC_INDEX_DATA {
            (self.ar_index, disarmed)
        } else if offset == port::AC_DATA_READ {
            (self.ar[(self.ar_index % 32) as int], disarmed)
        } else if offset == port::CRTC_INDEX_MONO || offset == port::CRTC_INDEX_COLOR {
            (self.crtc_index, disarmed)
        } else if offset == port::CRTC_DATA_MONO || offset == port::CRTC_DATA_COLOR {
            (self.crtc_value(), disarmed)
        } else if offset == port::INPUT_STATUS_1_MONO || offset == port::INPUT_STATUS_1_COLOR {
            (0, CirrusState { ar_next_is_data: false, ..disarmed })
        } else {
            (OPEN_BUS_BYTE, disarmed)
        }
    }

    /// The chip after a register write.
    pub open spec fn reg_written(self, offset: u32, value: u8) -> CirrusState {
        let disarmed = CirrusState { hidden_dac_arm: 0, ..self };
        if offset == port::PEL_MASK {
            if self.hidden_dac_armed() {
                CirrusState { hidden_dac: value, ..disarmed }
            } else {
                CirrusState { pel_mask: value, ..disarmed }
            }
        } else if offset == port::MISC_OUTPUT {
            CirrusState { misc_output: value, ..disarmed }
        } else if offset == port::SEQ_INDEX {
            CirrusState { seq_index: value, ..disarmed }
        } else if offset == port::SEQ_DATA {
            disarmed.sequencer_written(value)
        } else if offset == port::DAC_READ_INDEX {
            CirrusState {
                dac_read_index: value,
                dac_component: Gun::Red,
                dac_read_mode: true,
                ..disarmed
            }
        } else if offset == port::DAC_WRITE_INDEX {
            CirrusState {
                dac_write_index: value,
                dac_component: Gun::Red,
                dac_read_mode: false,
                ..disarmed
            }
        } else if offset == port::DAC_DATA {
            disarmed.dac_written(value)
        } else if offset == port::GR_INDEX {
            CirrusState { gr_index: value, ..disarmed }
        } else if offset == port::GR_DATA {
            disarmed.graphics_written(value)
        } else if offset == port::AC_INDEX_DATA {
            disarmed.attribute_written(value)
        } else if offset == port::CRTC_INDEX_MONO || offset == port::CRTC_INDEX_COLOR {
            CirrusState { crtc_index: value, ..disarmed }
        } else if offset == port::CRTC_DATA_MONO || offset == port::CRTC_DATA_COLOR {
            disarmed.crtc_written(value)
        } else {
            disarmed
        }
    }
}

/// Host bytes collected for a pending system-source transfer.
pub struct SystemBlit {
    pub remaining: usize,
    pub data: Vec<u8>,
}

/// The Cirrus CL-GD5426/5428 register model: the VGA port map (sequencer,
/// CRTC, graphics controller, attribute controller), the RAMDAC and its
/// palette, the Cirrus hidden-DAC and lock extensions, and VRAM.
///
/// VRAM is borrowed rather than owned, like chip RAM on the bus.
pub struct Cirrus542x<'a> {
    pub revision: ChipRevision,
    pub vram: &'a mut [u8],
    /// Sequencer, CRTC, graphics-controller and attribute-controller
    /// register files, plus the Cirrus extensions layered on them.
    pub sr: [u8; 32],
    pub crtc: [u8; 64],
    pub gr: [u8; 64],
    pub ar: [u8; 32],
    /// 256-entry palette, six bits per gun.
    pub palette: [Rgb; 256],
    /// The hardware cursor's private colour table. The cursor itself is
    /// never composited; the table keeps these writes out of `palette`.
    pub cursor_palette: [Rgb; 16],
    pub seq_index: u8,
    pub crtc_index: u8,
    pub gr_index: u8,
    /// Attribute-controller index (low five bits) plus the Palette Address
    /// Source bit software sets alongside it.
    pub ar_index: u8,
    /// The attribute controller's index/data flip-flop. A read of either
    /// Input Status 1 port resets it.
    pub ar_next_is_data: bool,
    pub misc_output: u8,
    pub pel_mask: u8,
    /// Cirrus hidden DAC: the colour-depth selector reached only through
    /// four consecutive pixel-mask reads while the extensions are unlocked.
    pub hidden_dac: u8,
    pub hidden_dac_arm: u8,
    pub dac_write_index: u8,
    pub dac_read_index: u8,
    pub dac_component: Gun,
    pub dac_read_mode: bool,
    /// A system-source blit that has been started but is still waiting for
    /// the driver to push its pixel data through the VRAM aperture.
    pub system_blit: Option<SystemBlit>,
    /// Latched vertical-retrace interrupt condition.
    pub vblank_pending: bool,
}

impl<'a> View for Cirrus542x<'a> {
    type V = CirrusState;

    open spec fn view(&self) -> CirrusState {
        CirrusState {
            revision: self.revision,
            vram: self.vram@,
            sr: self.sr@,
            crtc: self.crtc@,
            gr: self.gr@,
            ar: self.ar@,
            palette: self.palette@,
            cursor_palette: self.cursor_palette@,
            seq_index: self.seq_index,
            crtc_index: self.crtc_index,
            gr_index: self.gr_index,
            ar_index: self.ar_index,
            ar_next_is_data: self.ar_next_is_data,
            misc_output: self.misc_output,
            pel_mask: self.pel_mask,
            hidden_dac: self.hidden_dac,
            hidden_dac_arm: self.hidden_dac_arm,
            dac_write_index: self.dac_write_index,
            dac_read_index: self.dac_read_index,
            dac_component: self.dac_component,
            dac_read_mode: self.dac_read_mode,
            system_blit: match self.system_blit {
                Some(blit) => Some(Feed { remaining: blit.remaining, data: blit.data@ }),
                None => None,
            },
            vblank_pending: self.vblank_pending,
        }
    }
}

/// The chip out of reset over `vram`: every register zero, every plane
/// visible, the extensions locked.
pub open spec fn reset_state(revision: ChipRevision, vram: Seq<u8>) -> CirrusState {
    let black = Rgb { r: 0, g: 0, b: 0 };
    CirrusState {
        revision,
        vram,
        sr: Seq::new(32, |i: int| 0u8),
        crtc: Seq::new(64, |i: int| 0u8),
        gr: Seq::new(64, |i: int| 0u8),
        ar: Seq::new(32, |i: int| 0u8),
        palette: Seq::new(256, |i: int| black),
        cursor_palette: Seq::new(16, |i: int| black),
        seq_index: 0,
        crtc_index: 0,
        gr_index: 0,
        ar_index: 0,
        ar_next_is_data: false,
        misc_output: 0,
        pel_mask: 0xFF,
        hidden_dac: 0,
        hidden_dac_arm: 0,
        dac_write_index: 0,
        dac_read_index: 0,
        dac_component: Gun::Red,
        dac_read_mode: false,
        system_blit: None,
        vblank_pending: false,
    }
}

impl<'a> Cirrus542x<'a> {
    /// A chip out of reset over caller-owned VRAM. What the chip leaves in
    /// VRAM is what the caller finds there once the chip is gone.
    pub fn new(revision: ChipRevision, vram: &'a mut [u8]) -> (chip: Self)
        ensures
            chip@ == reset_state(revision, old(vram)@),
            final(chip.vram)@ == final(vram)@,
    {
        let black = Rgb { r: 0, g: 0, b: 0 };
        Self {
            revision,
            vram,
            sr: [0;32],
            crtc: [0;64],
            gr: [0;64],
            ar: [0;32],
            palette: [black;256],
            cursor_palette: [black;16],
            seq_index: 0,
            crtc_index: 0,
            gr_index: 0,
            ar_index: 0,
            ar_next_is_data: false,
            misc_output: 0,
            pel_mask: 0xFF,
            hidden_dac: 0,
            hidden_dac_arm: 0,
            dac_write_index: 0,
            dac_read_index: 0,
            dac_component: Gun::Red,
            dac_read_mode: false,
            system_blit: None,
            vblank_pending: false,
        }
    }

    pub fn vram_len(&self) -> (len: usize)
        ensures
            len == self@.vram.len(),
    {
        self.vram.len()
    }

    /// Borrow the whole VRAM backing store, for a caller that wants to walk
    /// a frame's worth of pixels in bulk.
    pub fn vram(&self) -> (bytes: &[u8])
        ensures
            bytes@ == self@.vram,
    {
        &*self.vram
    }

    /// Read a byte of VRAM through the linear aperture; open bus past the
    /// end.
    pub fn vram_read(&self, offset: usize) -> (value: u8)
        ensures
            value == (if offset < self@.vram.len() {
                self@.vram[offset as int]
            } else {
                OPEN_BUS_BYTE
            }),
    {
        if offset < self.vram.len() {
            self.vram[offset]
        } else {
            OPEN_BUS_BYTE
        }
    }

    /// Write a byte of VRAM through the linear aperture.
    ///
    /// While a system-source blit is armed and waiting for data, every
    /// aperture write feeds that transfer instead of touching VRAM.
    pub fn vram_write(&mut self, offset: usize, value: u8)
        ensures
            final(self)@ == old(self)@.aperture_written(offset, value),
            final(final(self).vram)@ == final(old(self).vram)@,
    {
        if self.system_blit.is_some() {
            self.feed_system_blit(value);
            return;
        }
        if offset < self.vram.len() {
            self.vram[offset] = value;
        }
    }

    /// Read a VGA register, by offset within the register window.
    pub fn reg_read(&mut self, offset: u32) -> (value: u8)
        ensures
            (value, final(self)@) == old(self)@.reg_read(offset),
            final(final(self).vram)@ == final(old(self).vram)@,
    {
        // The hidden-DAC arming sequence survives only consecutive accesses
        // to the pixel-mask port; it manages its own arm counter.
        if offset == port::PEL_MASK {
            return self.read_pel_mask_or_hidden_dac();
        }
        self.hidden_dac_arm = 0;
        match offset {
            port::MISC_OUTPUT => self.input_status_0(),
            port::SEQ_INDEX => self.seq_index,
            port::SEQ_DATA => self.read_sequencer(),
            port::DAC_READ_INDEX => if self.dac_read_mode {
                0x03
            } else {
                0x00
            },
            port::DAC_WRITE_INDEX => self.dac_write_index,
            port::DAC_DATA => self.read_dac_data(),
            port::MISC_OUTPUT_READ => self.misc_output,
            port::GR_INDEX => self.gr_index,
            port::GR_DATA => self.read_graphics(),
            port::AC_INDEX_DATA => self.ar_index,
            port::AC_DATA_READ => self.ar[(self.ar_index % 32) as usize],
            port::CRTC_INDEX_MONO | port::CRTC_INDEX_COLOR => self.crtc_index,
            port::CRTC_DATA_MONO | port::CRTC_DATA_COLOR => self.read_crtc(),
            port::INPUT_STATUS_1_MONO | port::INPUT_STATUS_1_COLOR => {
                self.ar_next_is_data = false;
                0
            },
            _ => OPEN_BUS_BYTE,
        }
    }

    /// Write a VGA register.
    pub fn reg_write(&mut self, offset: u32, value: u8)
        ensures
            final(self)@ == old(self)@.reg_written(offset, value),
            final(final(self).vram)@ == final(old(self).vram)@,
    {
        if offset == port::PEL_MASK {
            self.write_pel_mask_or_hidden_dac(value);
            return;
        }
        self.hidden_dac_arm = 0;
        match offset {
            port::MISC_OUTPUT => self.misc_output = value,
            port::SEQ_INDEX => self.seq_index = value,
            port::SEQ_DATA => self.write_sequencer(value),
            port::DAC_READ_INDEX => {
                self.dac_read_index = value;
                self.dac_component = Gun::Red;
                self.dac_read_mode = true;
            },
            port::DAC_WRITE_INDEX => {
                self.dac_write_index = value;
                self.dac_component = Gun::Red;
                self.dac_read_mode = false;
            },
            port::DAC_DATA => self.write_dac_data(value),
            port::GR_INDEX => self.gr_index = value,
            port::GR_DATA => self.write_graphics(value),
            port::AC_INDEX_DATA => self.write_attribute(value),
            port::CRTC_INDEX_MONO | port::CRTC_INDEX_COLOR => self.crtc_index = value,
            port::CRTC_DATA_MONO | port::CRTC_DATA_COLOR => self.write_crtc(value),
            _ => {},
        }
    }

    /// Look up a palette entry, expanded to eight bits per gun.
    pub fn palette_argb(&self, index: u8) -> (argb: u32)
        ensures
            argb == self@.palette[index as int].argb(),
    {
        let entry = self.palette[index as usize];
        0xFF00_0000 + expand(entry.r) * 0x1_0000 + expand(entry.g) * 0x100 + expand(entry.b)
    }

    fn extensions_unlocked(&self) -> (unlocked: bool)
        ensures
            unlocked == self@.unlocked(),
    {
        self.sr[idx::SR_LOCK as usize] == idx::SR_LOCK_UNLOCKED
    }

    fn read_sequencer(&self) -> (value: u8)
        ensures
            value == self@.sequencer_value(),
    {
        let index: u8 = self.seq_index % 32;
        if index > idx::SR_LOCK && !self.extensions_unlocked() {
            return OPEN_BUS_BYTE;
        }
        self.sr[index as usize]
    }

    fn write_sequencer(&mut self, value: u8)
        ensures
            final(self)@ == old(self)@.sequencer_written(value),
            final(final(self).vram)@ == final(old(self).vram)@,
    {
        let index: u8 = self.seq_index % 32;
        if index == idx::SR_LOCK {
            self.sr[idx::SR_LOCK as usize] = if value & idx::SR_LOCK_UNLOCK_MASK
                == idx::SR_LOCK_UNLOCKED {
                idx::SR_LOCK_UNLOCKED
            } else {
                idx::SR_LOCK_LOCKED
            };
            return;
        }
        if index > idx::SR_LOCK && !self.extensions_unlocked() {
            return;
        }
        self.sr[index as usize] = value;
    }

    fn read_graphics(&self) -> (value: u8)
        ensures
            value == self@.graphics_value(),
    {
        let index: u8 = self.gr_index % 64;
        if index > 8 && !self.extensions_unlocked() {
            return OPEN_BUS_BYTE;
        }
        if index == idx::GR_BLIT_START_STATUS {
            // START/RESET are write-only triggers: only the busy bits are
            // synthesised on readback.
            let idle: u8 = self.gr[index as usize] & !blit_status::BUSY_MASK;
            if self.system_blit.is_some() {
                return idle | blit_status::BUSY_MASK;
            }
            return idle;
        }
        self.gr[index as usize]
    }

    fn write_graphics(&mut self, value: u8)
        ensures
            final(self)@ == old(self)@.graphics_written(value),
            final(final(self).vram)@ == final(old(self).vram)@,
    {
        let index: u8 = self.gr_index % 64;
        if index > 8 && !self.extensions_unlocked() {
            return;
        }
        self.gr[index as usize] = value;
        if index == idx::GR_BLIT_START_STATUS {
            if value & blit_status::RESET != 0 {
                self.system_blit = None;
                self.gr[index as usize] = value & !blit_status::BUSY_MASK;
            } else if value & blit_status::START != 0 {
                self.start_blit();
            }
        }
    }

    fn start_blit(&mut self)
        ensures
            final(self)@ == old(self)@.blit_started(),
            final(final(self).vram)@ == final(old(self).vram)@,
    {
        if self.gr[idx::GR_BLIT_MODE as usize] & blit_mode::SYSTEM_SOURCE != 0 {
            let remaining: usize = bitblt::expected_system_bytes(&self.gr);
            self.system_blit = Some(SystemBlit { remaining, data: Vec::new() });
        } else {
            bitblt::execute_blit(&mut self.gr, self.vram, None);
        }
    }

    /// Feed one host byte to a pending system-source transfer, running the
    /// blit once enough have arrived.
    fn feed_system_blit(&mut self, byte: u8)
        requires
            old(self).system_blit is Some,
        ensures
            final(self)@ == old(self)@.aperture_written(0, byte),
            final(final(self).vram)@ == final(old(self).vram)@,
    {
        match self.system_blit.take() {
            None => {},
            Some(blit) => {
                let mut data: Vec<u8> = blit.data;
                if data.len() < SYSTEM_BLIT_CAPACITY {
                    data.push(byte);
                }
                if blit.remaining > 1 {
                    self.system_blit = Some(SystemBlit { remaining: blit.remaining - 1, data });
                } else {
                    bitblt::execute_blit(&mut self.gr, self.vram, Some(data.as_slice()));
                }
            },
        }
    }

    fn read_crtc(&self) -> (value: u8)
        ensures
            value == self@.crtc_value(),
    {
        let index: u8 = self.crtc_index % 64;
        if index == idx::CRTC_ID {
            return self.revision.part_id();
        }
        if index > idx::CRTC_LAST_STANDARD && !self.extensions_unlocked() {
            return OPEN_BUS_BYTE;
        }
        self.crtc[index as usize]
    }

    fn write_crtc(&mut self, value: u8)
        ensures
            final(self)@ == old(self)@.crtc_written(value),
            final(final(self).vram)@ == final(old(self).vram)@,
    {
        let index: u8 = self.crtc_index % 64;
        if index == idx::CRTC_ID {
            return;
        }
        if index > idx::CRTC_LAST_STANDARD && !self.extensions_unlocked() {
            return;
        }
        if self.crtc[0x11] & 0x80 != 0 && index <= 7 {
            if index == 7 {
                self.crtc[7] = (self.crtc[7] & !0x10) | (value & 0x10);
            }
            return;
        }
        self.crtc[index as usize] = value;
        if index == idx::CRTC_END_VERTICAL_RETRACE && value & crtc11::CLEAR_VERTICAL_INTERRUPT
            == 0 {
            self.vblank_pending = false;
        }
    }

    fn write_attribute(&mut self, value: u8)
        ensures
            final(self)@ == old(self)@.attribute_written(value),
            final(final(self).vram)@ == final(old(self).vram)@,
    {
        if self.ar_next_is_data {
            self.ar[(self.ar_index % 32) as usize] = value;
        } else {
            self.ar_index = value % 64;
        }
        self.ar_next_is_data = !self.ar_next_is_data;
    }

    /// Bit 7 is the vertical-retrace-interrupt-pending flag, re-derived
    /// from CR11: a driver that disables the interrupt without
    /// acknowledging it stops seeing it pending.
    fn input_status_0(&self) -> (value: u8)
        ensures
            value == (if self@.interrupting() {
                0x80u8
            } else {
                0
            }),
    {
        if self.vblank_pending && self.vertical_interrupt_enabled() {
            0x80
        } else {
            0
        }
    }

    fn vertical_interrupt_enabled(&self) -> (armed: bool)
        ensures
            armed == self@.vertical_interrupt_armed(),
    {
        self.crtc[idx::CRTC_END_VERTICAL_RETRACE as usize] & (crtc11::DISABLE_VERTICAL_INTERRUPT
            | crtc11::CLEAR_VERTICAL_INTERRUPT) == crtc11::CLEAR_VERTICAL_INTERRUPT
    }

    /// Called once per display frame on vertical retrace. Latches the
    /// pending flag only while the interrupt is armed.
    pub fn signal_vertical_retrace(&mut self)
        ensures
            final(self)@ == (CirrusState {
                vblank_pending: old(self).vblank_pending
                    || old(self)@.vertical_interrupt_armed(),
                ..old(self)@
            }),
            final(final(self).vram)@ == final(old(self).vram)@,
    {
        if self.vertical_interrupt_enabled() {
            self.vblank_pending = true;
        }
    }

    /// Whether this chip is currently asserting its vertical-retrace
    /// interrupt line.
    pub fn irq_pending(&self) -> (asserted: bool)
        ensures
            asserted == self@.interrupting(),
    {
        self.vblank_pending && self.vertical_interrupt_enabled()
    }

    fn read_pel_mask_or_hidden_dac(&mut self) -> (value: u8)
        ensures
            (value, final(self)@) == old(self)@.reg_read(port::PEL_MASK),
            final(final(self).vram)@ == final(old(self).vram)@,
    {
        if !self.extensions_unlocked() {
            self.hidden_dac_arm = 0;
            return self.pel_mask;
        }
        if self.hidden_dac_arm >= 4 {
            self.hidden_dac_arm = 0;
            self.hidden_dac
        } else {
            self.hidden_dac_arm = self.hidden_dac_arm + 1;
            self.pel_mask
        }
    }

    fn write_pel_mask_or_hidden_dac(&mut self, value: u8)
        ensures
            final(self)@ == old(self)@.reg_written(port::PEL_MASK, value),
            final(final(self).vram)@ == final(old(self).vram)@,
    {
        if self.extensions_unlocked() && self.hidden_dac_arm >= 4 {
            self.hidden_dac = value;
        } else {
            self.pel_mask = value;
        }
        self.hidden_dac_arm = 0;
    }

    fn cursor_palette_selected(&self) -> (selected: bool)
        ensures
            selected == self@.cursor_colours(),
    {
        self.sr[idx::SR_CURSOR_ATTR as usize] & sr12::CURSOR_PALETTE_SELECT != 0
    }

    fn write_dac_data(&mut self, value: u8)
        ensures
            final(self)@ == old(self)@.dac_written(value),
            final(final(self).vram)@ == final(old(self).vram)@,
    {
        let gun = self.dac_component;
        if self.cursor_palette_selected() {
            let index: usize = (self.dac_write_index % 16) as usize;
            self.cursor_palette[index] = self.cursor_palette[index].with(gun, value % 64);
        } else {
            let index: usize = self.dac_write_index as usize;
            self.palette[index] = self.palette[index].with(gun, value % 64);
        }
        self.dac_component = gun.next();
        if gun == Gun::Blue {
            self.dac_write_index = self.dac_write_index.wrapping_add(1);
        }
    }

    fn read_dac_data(&mut self) -> (value: u8)
        ensures
            value == old(self)@.dac_value(),
            final(self)@ == old(self)@.dac_read(),
            final(final(self).vram)@ == final(old(self).vram)@,
    {
        let gun = self.dac_component;
        let value: u8 = if self.cursor_palette_selected() {
            self.cursor_palette[(self.dac_read_index % 16) as usize].get(gun)
        } else {
            self.palette[self.dac_read_index as usize].get(gun)
        };
        self.dac_component = gun.next();
        if gun == Gun::Blue {
            self.dac_read_index = self.dac_read_index.wrapping_add(1);
        }
        value
    }
}

} // verus!
