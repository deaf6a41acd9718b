//! Zorro II/III AUTOCONFIG.
//!
//! Every expansion this machine offers the guest arrives this way:
//! `expansion.library` probes the configuration window, reads a board's
//! identity, assigns it an address, and moves on to the next.
//!
//! # The nybble-encoded read protocol
//!
//! A board's 16-byte `ExpansionRom` is presented one nybble at a time in
//! the high four bits of a byte: the high nybble of logical byte `N` at
//! `4*N`, the low nybble at `4*N + 2`. Odd addresses, and anything at or
//! past logical byte 16 (physical offset `$40` and up, where the
//! configuration registers live), float. Every nybble is complemented
//! except in `er_Type` (logical byte 0), which reads true.
//!
//! # Configuration
//!
//! Writing the base address to `BASEADDRESS` (Zorro II) or
//! `Z3_BASEADDRESS` (Zorro III) configures the current board and retires it
//! from the window, so the next unconfigured board appears at the same
//! addresses. Writing `SHUTUP` retires a board without giving it space.
//! When no boards remain the window reads as open bus, which is how the OS
//! knows the chain has ended.
//!
//! A Zorro II base is formed from a single byte, bits 23:16. The low byte
//! register is accepted in either order but does not affect placement. A
//! Zorro III base comes from a 16-bit write that arrives as two byte
//! writes, high byte first, bits 31:24 and 23:16.

use crate::be;
use crate::OPEN_BUS_BYTE;
use vstd::prelude::*;

pub mod ec;
pub mod laws;

verus! {

/// The AUTOCONFIG window, `$E80000`-`$E8FFFF`.
pub const AUTOCONFIG_BASE: u32 = 0x00E8_0000;

pub const AUTOCONFIG_END: u32 = 0x00E9_0000;

/// `er_Type` board-class bits.
pub const ERT_ZORROII: u8 = 0xC0;

pub const ERT_ZORROIII: u8 = 0x80;

/// `er_Type` flag: the board's space should be added to the system
/// free-memory list.
pub const ERTF_MEMLIST: u8 = 0x20;

/// `er_Type` flag: the board carries a DiagArea ROM.
pub const ERTF_DIAGVALID: u8 = 0x10;

/// `er_Type` flag: this board is part of a chain sharing one configuration.
pub const ERTF_CHAINEDCONFIG: u8 = 0x08;

/// The most boards this machine will ever offer at once.
pub const MAX_BOARDS: usize = 8;

/// Logical ROM bytes.
pub const AUTOCONFIG_ROM_BYTES: usize = 16;

/// A board's AUTOCONFIG identity: what `expansion.library` reads to decide
/// what the board is and how much space to give it.
#[derive(Clone, Copy, Debug, PartialEq, Eq, Structural)]
pub struct BoardSpec {
    /// `er_Type`: class bits (`ERT_*`), flags (`ERTF_*`), and the size code
    /// in the low three bits.
    pub board_type: u8,
    /// `er_Product`: the manufacturer's own product number.
    pub product: u8,
    /// `er_Flags`.
    pub flags: u8,
    /// `er_Manufacturer`: the allocated manufacturer number.
    pub manufacturer: u16,
    /// `er_SerialNumber`.
    pub serial: u32,
    /// `er_InitDiagVec`: offset of the DiagArea, when `ERTF_DIAGVALID`.
    pub init_diag_vec: u16,
    /// How much address space the board wants, in bytes. Must agree with
    /// the size code in `board_type`.
    pub size_bytes: u32,
}

/// Where a board ended up once the OS configured it.
#[derive(Clone, Copy, Debug, PartialEq, Eq, Structural)]
pub struct Configured {
    pub base: u32,
    pub size_bytes: u32,
}

impl Configured {
    /// Whether the placed board answers at `address`.
    pub open spec fn contains(self, address: u32) -> bool {
        self.base <= address && address - self.base < self.size_bytes
    }
}

impl BoardSpec {
    /// Logical byte `i` of the `ExpansionRom`, in the struct's natural
    /// byte order. The reserved bytes are zero.
    pub open spec fn rom_byte(self, i: int) -> u8 {
        if i == 0 {
            self.board_type
        } else if i == 1 {
            self.product
        } else if i == 2 {
            self.flags
        } else if i == 4 {
            be::hi8(self.manufacturer)
        } else if i == 5 {
            be::lo8(self.manufacturer)
        } else if i == 6 {
            be::hi8(be::hi16(self.serial))
        } else if i == 7 {
            be::lo8(be::hi16(self.serial))
        } else if i == 8 {
            be::hi8(be::lo16(self.serial))
        } else if i == 9 {
            be::lo8(be::lo16(self.serial))
        } else if i == 10 {
            be::hi8(self.init_diag_vec)
        } else if i == 11 {
            be::lo8(self.init_diag_vec)
        } else {
            0
        }
    }

    /// What the window shows of logical byte `i`: complemented, except in
    /// `er_Type`.
    pub open spec fn physical_byte(self, i: int) -> u8 {
        if i == 0 {
            self.rom_byte(i)
        } else {
            (0xFF - self.rom_byte(i)) as u8
        }
    }

    pub open spec fn is_zorro_ii(self) -> bool {
        self.board_type & 0xC0 == ERT_ZORROII
    }

    pub open spec fn is_zorro_iii(self) -> bool {
        self.board_type & 0xC0 == ERT_ZORROIII
    }

    /// Logical byte `i` of the `ExpansionRom`.
    fn rom(&self, i: u32) -> (byte: u8)
        ensures
            byte == self.rom_byte(i as int),
    {
        let (serial_hi, serial_lo) = be::split32(self.serial);
        match i {
            0 => self.board_type,
            1 => self.product,
            2 => self.flags,
            4 => be::split16(self.manufacturer).0,
            5 => be::split16(self.manufacturer).1,
            6 => be::split16(serial_hi).0,
            7 => be::split16(serial_hi).1,
            8 => be::split16(serial_lo).0,
            9 => be::split16(serial_lo).1,
            10 => be::split16(self.init_diag_vec).0,
            11 => be::split16(self.init_diag_vec).1,
            _ => 0,
        }
    }
}

/// What the chain holds: the boards offered, where they were placed, which
/// one answers in the window, and a half-written Zorro III base.
#[verifier::ext_equal]
pub struct Chain {
    pub specs: Seq<Option<BoardSpec>>,
    pub placed: Seq<Option<Configured>>,
    pub current: usize,
    pub z3_base_hi: Option<u8>,
}

impl Chain {
    /// The board answering in the window, if the chain is not exhausted.
    pub open spec fn answering(self) -> Option<BoardSpec> {
        if self.current < self.specs.len() {
            self.specs[self.current as int]
        } else {
            None
        }
    }

    /// Whether board `index` has been placed where it answers `address`.
    pub open spec fn owns(self, index: int, address: u32) -> bool {
        self.placed[index] matches Some(p) && p.contains(address)
    }

    /// What a read at `address` returns.
    pub open spec fn byte_at(self, address: u32) -> u8 {
        let off = address.wrapping_sub(AUTOCONFIG_BASE);
        match self.answering() {
            None => OPEN_BUS_BYTE,
            Some(spec) => if off % 2 != 0 || off / 4 >= AUTOCONFIG_ROM_BYTES {
                OPEN_BUS_BYTE
            } else if off % 4 == 0 {
                (spec.physical_byte((off / 4) as int) / 16 * 16) as u8
            } else {
                (spec.physical_byte((off / 4) as int) % 16 * 16) as u8
            },
        }
    }

    /// The chain after its answering board is retired.
    pub open spec fn advanced(self) -> Chain {
        Chain { current: (self.current + 1) as usize, z3_base_hi: None, ..self }
    }

    /// The chain after its answering board is placed at `base`.
    pub open spec fn configured(self, spec: BoardSpec, base: u32) -> Chain {
        (Chain {
            placed: self.placed.update(
                self.current as int,
                Some(Configured { base, size_bytes: spec.size_bytes }),
            ),
            ..self
        }).advanced()
    }

    /// The chain after a byte is written at `address`.
    pub open spec fn written(self, address: u32, value: u8) -> Chain {
        let off = address.wrapping_sub(AUTOCONFIG_BASE);
        match self.answering() {
            None => self,
            Some(spec) => if off == ec::Z3_BASEADDRESS && spec.is_zorro_iii() {
                Chain { z3_base_hi: Some(value), ..self }
            } else if off == ec::Z3_BASEADDRESS + 1 && spec.is_zorro_iii() {
                match self.z3_base_hi {
                    Some(hi) => self.configured(
                        spec,
                        (hi * 0x100_0000 + value * 0x1_0000) as u32,
                    ),
                    None => self,
                }
            } else if off == ec::BASEADDRESS && spec.is_zorro_ii() {
                self.configured(spec, (value * 0x1_0000) as u32)
            } else if off == ec::SHUTUP {
                self.advanced()
            } else {
                self
            },
        }
    }
}

/// The AUTOCONFIG chain.
pub struct AutoConfig {
    pub specs: [Option<BoardSpec>; MAX_BOARDS],
    pub placed: [Option<Configured>; MAX_BOARDS],
    /// Index of the board currently answering in the window, or
    /// `MAX_BOARDS` once the chain is exhausted.
    pub current: usize,
    /// The high byte of a Zorro III base address, latched by the first of
    /// the two byte writes. Cleared whenever the chain advances, so a
    /// partial sequence can never bleed into the next board.
    pub z3_base_hi: Option<u8>,
}

impl View for AutoConfig {
    type V = Chain;

    open spec fn view(&self) -> Chain {
        Chain {
            specs: self.specs@,
            placed: self.placed@,
            current: self.current,
            z3_base_hi: self.z3_base_hi,
        }
    }
}

/// A chain with no boards.
pub open spec fn empty_chain() -> Chain {
    Chain {
        specs: Seq::new(MAX_BOARDS as nat, |i: int| None),
        placed: Seq::new(MAX_BOARDS as nat, |i: int| None),
        current: 0,
        z3_base_hi: None,
    }
}

impl Default for AutoConfig {
    fn default() -> (chain: Self)
        ensures
            chain@ == empty_chain(),
    {
        Self::new()
    }
}

impl AutoConfig {
    pub fn new() -> (chain: Self)
        ensures
            chain@ == empty_chain(),
    {
        Self {
            specs: [None, None, None, None, None, None, None, None],
            placed: [None, None, None, None, None, None, None, None],
            current: 0,
            z3_base_hi: None,
        }
    }

    /// Offer a board to the chain, in the order the OS will see them: it
    /// takes the first free slot. Returns its index, or `None` when the
    /// chain is full.
    pub fn add_board(&mut self, spec: BoardSpec) -> (index: Option<usize>)
        ensures
            match index {
                Some(i) => i < MAX_BOARDS && old(self)@.specs[i as int] is None && (forall|j: int|
                    0 <= j < i ==> old(self)@.specs[j] is Some) && final(self)@ == (Chain {
                    specs: old(self)@.specs.update(i as int, Some(spec)),
                    ..old(self)@
                }),
                None => final(self)@ == old(self)@ && forall|j: int|
                    0 <= j < MAX_BOARDS ==> old(self)@.specs[j] is Some,
            },
    {
        let mut i: usize = 0;
        while i < MAX_BOARDS
            invariant
                i <= MAX_BOARDS,
                self@ == old(self)@,
                forall|j: int| 0 <= j < i ==> old(self)@.specs[j] is Some,
            decreases MAX_BOARDS - i,
        {
            if self.specs[i].is_none() {
                self.specs[i] = Some(spec);
                return Some(i);
            }
            i += 1;
        }
        None
    }

    /// Where the OS put board `index`, if it has configured it yet.
    pub fn placement(&self, index: usize) -> (at: Option<Configured>)
        ensures
            at == (if index < MAX_BOARDS {
                self@.placed[index as int]
            } else {
                None
            }),
    {
        if index < MAX_BOARDS {
            self.placed[index]
        } else {
            None
        }
    }

    /// The board owning `address`, if any board has been configured there:
    /// the first one in chain order. The bus uses this to route an access
    /// to the right device.
    pub fn board_at(&self, address: u32) -> (owner: Option<usize>)
        ensures
            match owner {
                Some(i) => i < MAX_BOARDS && self@.owns(i as int, address) && forall|j: int|
                    0 <= j < i ==> !#[trigger] self@.owns(j, address),
                None => forall|j: int| 0 <= j < MAX_BOARDS ==> !#[trigger] self@.owns(j, address),
            },
    {
        let mut i: usize = 0;
        while i < MAX_BOARDS
            invariant
                i <= MAX_BOARDS,
                forall|j: int| 0 <= j < i ==> !#[trigger] self@.owns(j, address),
            decreases MAX_BOARDS - i,
        {
            match self.placed[i] {
                Some(p) => {
                    if address >= p.base && address - p.base < p.size_bytes {
                        return Some(i);
                    }
                },
                None => {},
            }
            i += 1;
        }
        None
    }

    /// True for any address in the configuration window.
    pub fn responds_to(address: u32) -> (inside: bool)
        ensures
            inside == (AUTOCONFIG_BASE <= address < AUTOCONFIG_END),
    {
        AUTOCONFIG_BASE <= address && address < AUTOCONFIG_END
    }

    /// Read a byte from the configuration window.
    pub fn read(&mut self, address: u32) -> (value: u8)
        ensures
            *final(self) == *old(self),
            value == old(self)@.byte_at(address),
    {
        let spec = match self.current_spec() {
            Some(spec) => spec,
            None => return OPEN_BUS_BYTE,
        };
        let off: u32 = address.wrapping_sub(AUTOCONFIG_BASE);
        if off % 2 != 0 {
            return OPEN_BUS_BYTE;
        }
        let index: u32 = off / 4;
        if index >= AUTOCONFIG_ROM_BYTES as u32 {
            return OPEN_BUS_BYTE;
        }
        let logical: u8 = spec.rom(index);
        let physical: u8 = if index == 0 {
            logical
        } else {
            0xFF - logical
        };
        if off % 4 == 0 {
            physical / 16 * 16
        } else {
            physical % 16 * 16
        }
    }

    /// Write a byte to the configuration window.
    pub fn write(&mut self, address: u32, value: u8)
        ensures
            final(self)@ == old(self)@.written(address, value),
    {
        let spec = match self.current_spec() {
            Some(spec) => spec,
            None => return,
        };
        let off: u32 = address.wrapping_sub(AUTOCONFIG_BASE);
        let is_zorro_ii = spec.board_type & 0xC0 == ERT_ZORROII;
        let is_zorro_iii = spec.board_type & 0xC0 == ERT_ZORROIII;
        if off == ec::Z3_BASEADDRESS && is_zorro_iii {
            self.z3_base_hi = Some(value);
        } else if off == ec::Z3_BASEADDRESS + 1 && is_zorro_iii {
            match self.z3_base_hi {
                Some(hi) => self.configure(
                    spec,
                    hi as u32 * 0x100_0000 + value as u32 * 0x1_0000,
                ),
                None => {},
            }
        } else if off == ec::BASEADDRESS && is_zorro_ii {
            self.configure(spec, value as u32 * 0x1_0000);
        } else if off == ec::SHUTUP {
            self.advance();
        }
    }

    /// The board currently answering in the window, if the chain has not
    /// been exhausted.
    fn current_spec(&self) -> (spec: Option<BoardSpec>)
        ensures
            spec == self@.answering(),
            spec is Some ==> self.current < MAX_BOARDS,
    {
        if self.current < MAX_BOARDS {
            self.specs[self.current]
        } else {
            None
        }
    }

    /// Place the current board at `base` and advance the chain.
    fn configure(&mut self, spec: BoardSpec, base: u32)
        requires
            old(self).current < MAX_BOARDS,
        ensures
            final(self)@ == old(self)@.configured(spec, base),
    {
        self.placed[self.current] = Some(Configured { base, size_bytes: spec.size_bytes });
        self.advance();
    }

    /// Retire the current board, configured or shut up, and let the next
    /// unconfigured board answer in the window.
    fn advance(&mut self)
        requires
            old(self).current < MAX_BOARDS,
        ensures
            final(self)@ == old(self)@.advanced(),
    {
        self.current = self.current + 1;
        self.z3_base_hi = None;
    }
}

/// The two nybbles of a logical byte read from the window reassemble the
/// answering board's ROM byte, complemented everywhere but in `er_Type`.
pub proof fn nybbles_reassemble_the_rom(c: Chain, n: u32)
    requires
        c.answering() is Some,
        n < AUTOCONFIG_ROM_BYTES,
    ensures
        ({
            let hi = c.byte_at((AUTOCONFIG_BASE + 4 * n) as u32);
            let lo = c.byte_at((AUTOCONFIG_BASE + 4 * n + 2) as u32);
            let seen = hi / 16 * 16 + lo / 16;
            c.answering()->0.rom_byte(n as int) == (if n == 0 {
                seen
            } else {
                0xFF - seen
            })
        }),
{
}

/// An exhausted chain is open bus, and no write changes it.
pub proof fn exhausted_chain_is_open_bus(c: Chain, address: u32, value: u8)
    requires
        c.answering() is None,
    ensures
        c.byte_at(address) == OPEN_BUS_BYTE,
        c.written(address, value) == c,
{
}

/// A write retires at most the answering board: boards that were offered
/// stay as they were, every other board keeps its placement, and the chain
/// moves forward by at most one. Only a shut-up or a base write moves it,
/// and only a base write places the board.
pub proof fn a_write_retires_at_most_one_board(c: Chain, address: u32, value: u8, other: int)
    requires
        c.placed.len() == MAX_BOARDS,
        c.specs.len() == MAX_BOARDS,
        0 <= other < MAX_BOARDS,
        other != c.current,
    ensures
        c.written(address, value).specs == c.specs,
        c.written(address, value).placed[other] == c.placed[other],
        c.written(address, value).current == c.current || c.written(address, value).current
            == c.current + 1,
        c.written(address, value).current == c.current ==> c.written(address, value).placed
            == c.placed,
        c.written(address, value).current == c.current + 1 ==> c.written(
            address,
            value,
        ).z3_base_hi is None,
{
}

/// Configuring a Zorro II board with one byte, or a Zorro III board with
/// two, places it at that base with its own size and lets the next board
/// answer.
pub proof fn base_writes_place_the_board(c: Chain, hi: u8, lo: u8)
    requires
        c.placed.len() == MAX_BOARDS,
        c.specs.len() == MAX_BOARDS,
        c.answering() is Some,
    ensures
        ({
            let spec = c.answering()->0;
            let two = c.written((AUTOCONFIG_BASE + ec::BASEADDRESS) as u32, hi);
            let three = c.written((AUTOCONFIG_BASE + ec::Z3_BASEADDRESS) as u32, hi).written(
                (AUTOCONFIG_BASE + ec::Z3_BASEADDRESS + 1) as u32,
                lo,
            );
            &&& spec.is_zorro_ii() ==> two.current == c.current + 1
                && two.placed[c.current as int] == Some(
                Configured { base: (hi * 0x1_0000) as u32, size_bytes: spec.size_bytes },
            )
            &&& spec.is_zorro_iii() ==> three.current == c.current + 1
                && three.placed[c.current as int] == Some(
                Configured {
                    base: (hi * 0x100_0000 + lo * 0x1_0000) as u32,
                    size_bytes: spec.size_bytes,
                },
            )
        }),
{
}

} // verus!
