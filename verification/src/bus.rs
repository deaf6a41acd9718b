//! The m68k-visible address space.
//!
//! | Range | Contents |
//! |---|---|
//! | `$000000`-`$1FFFFF` | 2 MB chip RAM, borrowed from the board layer |
//! | `$F80000`-`$FFFFFF` | 512 KB Kickstart ROM window, borrowed, read-only |
//! | everything else | open bus |
//!
//! An unanswered read returns `$FF` per byte (so `$FFFF` for a word and
//! `$FFFFFFFF` for a long), and a write to an unanswered address is
//! silently discarded. Kickstart's hardware probes compare the value they
//! read rather than wait for a bus error, so "unpopulated reads as all
//! ones" is what makes them fail cleanly.

use crate::be;
use vstd::prelude::*;

verus! {

/// Size in bytes of the chip RAM region, `$000000`-`$1FFFFF` (2 MB).
pub const CHIP_RAM_SIZE: usize = 0x0020_0000;

/// First address of the chip RAM region.
pub const CHIP_RAM_BASE: u32 = 0x0000_0000;

/// First address one past the end of the chip RAM region.
pub const CHIP_RAM_END: u32 = 0x0020_0000;

/// Size in bytes of the Kickstart ROM window, `$F80000`-`$FFFFFF` (512 KB).
pub const ROM_WINDOW_SIZE: usize = 0x0008_0000;

/// First address of the Kickstart ROM window.
pub const ROM_BASE: u32 = 0x00F8_0000;

/// First address one past the end of the Kickstart ROM window.
pub const ROM_END: u32 = 0x0100_0000;

/// A byte value returned by every open-bus read.
pub const OPEN_BUS_BYTE: u8 = 0xFF;

/// What the address space holds: the chip RAM bytes and the ROM image.
#[verifier::ext_equal]
pub struct Memory {
    pub ram: Seq<u8>,
    pub rom: Seq<u8>,
}

impl Memory {
    /// The byte a read at `address` returns.
    pub open spec fn byte(self, address: u32) -> u8 {
        if address < CHIP_RAM_END {
            self.ram[address as int]
        } else if ROM_BASE <= address < ROM_END && self.rom.len() > 0 {
            self.rom[(address - ROM_BASE) % self.rom.len() as int]
        } else {
            OPEN_BUS_BYTE
        }
    }

    /// The big-endian word at `address`; the address space wraps at 4 GB.
    pub open spec fn word(self, address: u32) -> u16 {
        be::be16(self.byte(address), self.byte(address.wrapping_add(1)))
    }

    /// The big-endian longword at `address`.
    pub open spec fn long(self, address: u32) -> u32 {
        be::be32(self.word(address), self.word(address.wrapping_add(2)))
    }

    /// The address space after a byte write: only chip RAM latches it.
    pub open spec fn with_byte(self, address: u32, value: u8) -> Memory {
        if address < CHIP_RAM_END {
            Memory { ram: self.ram.update(address as int, value), rom: self.rom }
        } else {
            self
        }
    }

    /// The address space after a word write.
    pub open spec fn with_word(self, address: u32, value: u16) -> Memory {
        self.with_byte(address, be::hi8(value)).with_byte(address.wrapping_add(1), be::lo8(value))
    }

    /// The address space after a longword write.
    pub open spec fn with_long(self, address: u32, value: u32) -> Memory {
        self.with_word(address, be::hi16(value)).with_word(address.wrapping_add(2), be::lo16(value))
    }
}

/// The m68k-visible address space of the machine.
///
/// `MachineBus` borrows its backing storage from the board layer rather
/// than owning it. The ROM image may be shorter than its window, in which
/// case it is mirrored across the window; an empty image leaves the window
/// open bus.
pub struct MachineBus<'a> {
    pub chip_ram: &'a mut [u8; CHIP_RAM_SIZE],
    pub rom: &'a [u8],
}

impl<'a> View for MachineBus<'a> {
    type V = Memory;

    open spec fn view(&self) -> Memory {
        Memory { ram: self.chip_ram@, rom: self.rom@ }
    }
}

impl<'a> MachineBus<'a> {
    /// Build a bus over caller-owned chip RAM and ROM storage.
    ///
    /// What the bus leaves in chip RAM is what the caller finds there once
    /// the bus is gone.
    pub fn new(chip_ram: &'a mut [u8; CHIP_RAM_SIZE], rom: &'a [u8]) -> (bus: Self)
        ensures
            bus@ == (Memory { ram: old(chip_ram)@, rom: rom@ }),
            final(bus.chip_ram)@ == final(chip_ram)@,
    {
        Self { chip_ram, rom }
    }

    /// Read one byte. Open-bus addresses return [`OPEN_BUS_BYTE`].
    pub fn read_byte(&mut self, address: u32) -> (value: u8)
        ensures
            *final(self) == *old(self),
            value == old(self)@.byte(address),
    {
        if CHIP_RAM_BASE <= address && address < CHIP_RAM_END {
            self.chip_ram[(address - CHIP_RAM_BASE) as usize]
        } else if ROM_BASE <= address && address < ROM_END && self.rom.len() != 0 {
            let offset: usize = (address - ROM_BASE) as usize % self.rom.len();
            self.rom[offset]
        } else {
            OPEN_BUS_BYTE
        }
    }

    /// Read one big-endian 16-bit word, composed from two byte reads.
    pub fn read_word(&mut self, address: u32) -> (value: u16)
        ensures
            *final(self) == *old(self),
            value == old(self)@.word(address),
    {
        let hi: u8 = self.read_byte(address);
        let lo: u8 = self.read_byte(address.wrapping_add(1));
        be::join16(hi, lo)
    }

    /// Read one big-endian 32-bit longword, composed from four byte reads.
    pub fn read_long(&mut self, address: u32) -> (value: u32)
        ensures
            *final(self) == *old(self),
            value == old(self)@.long(address),
    {
        let hi: u16 = self.read_word(address);
        let lo: u16 = self.read_word(address.wrapping_add(2));
        be::join32(hi, lo)
    }

    /// Write one byte. Writes to chip RAM take effect; writes to ROM or
    /// open bus are silently discarded.
    pub fn write_byte(&mut self, address: u32, value: u8)
        ensures
            final(self)@ == old(self)@.with_byte(address, value),
            final(final(self).chip_ram)@ == final(old(self).chip_ram)@,
    {
        if CHIP_RAM_BASE <= address && address < CHIP_RAM_END {
            self.chip_ram[(address - CHIP_RAM_BASE) as usize] = value;
        }
    }

    /// Write one big-endian 16-bit word, decomposed into two byte writes.
    pub fn write_word(&mut self, address: u32, value: u16)
        ensures
            final(self)@ == old(self)@.with_word(address, value),
            final(final(self).chip_ram)@ == final(old(self).chip_ram)@,
    {
        let (hi, lo) = be::split16(value);
        self.write_byte(address, hi);
        self.write_byte(address.wrapping_add(1), lo);
    }

    /// Write one big-endian 32-bit longword, decomposed into two word
    /// writes.
    pub fn write_long(&mut self, address: u32, value: u32)
        ensures
            final(self)@ == old(self)@.with_long(address, value),
            final(final(self).chip_ram)@ == final(old(self).chip_ram)@,
    {
        let (hi, lo) = be::split32(value);
        self.write_word(address, hi);
        self.write_word(address.wrapping_add(2), lo);
    }
}

/// The address map: two megabytes of RAM from address zero, the ROM image
/// from `$F80000` to the end of the sixteenth megabyte, repeated where it is
/// shorter, and all ones anywhere else.
pub proof fn every_address_is_accounted_for(m: Memory, address: u32)
    requires
        m.ram.len() == 0x20_0000,
    ensures
        address < 0x20_0000 ==> m.byte(address) == m.ram[address as int],
        0x00F8_0000 <= address < 0x0100_0000 && m.rom.len() == 0x8_0000 ==> m.byte(address)
            == m.rom[address - 0x00F8_0000],
        0x00F8_0000 <= address < 0x0100_0000 && m.rom.len() == 0x4_0000 ==> m.byte(address)
            == m.rom[if address < 0x00FC_0000 {
            address - 0x00F8_0000
        } else {
            address - 0x00FC_0000
        }],
        0x20_0000 <= address < 0x00F8_0000 || address >= 0x0100_0000 ==> m.byte(address) == 0xFF,
        m.rom.len() == 0 && address >= 0x20_0000 ==> m.byte(address) == 0xFF,
{
    let at = address - 0x00F8_0000;
    if 0 <= at < 0x8_0000 && m.rom.len() == 0x8_0000 {
        assert(at % 0x8_0000 == at);
    }
    if 0 <= at < 0x8_0000 && m.rom.len() == 0x4_0000 {
        assert(at % 0x4_0000 == if at < 0x4_0000 {
            at
        } else {
            at - 0x4_0000
        });
    }
}

/// Wider accesses are big-endian: a word or longword is the number its bytes
/// spell from its address on, for reads and for writes.
pub proof fn wider_accesses_spell_their_bytes(m: Memory, address: u32, word: u16, long: u32)
    requires
        m.ram.len() == 0x20_0000,
    ensures
        address <= 0xFFFF_FFFC ==> m.word(address) == m.byte(address) * 256 + m.byte(
            (address + 1) as u32,
        ),
        address <= 0xFFFF_FFFC ==> m.long(address) == ((m.byte(address) * 256 + m.byte(
            (address + 1) as u32,
        )) * 256 + m.byte((address + 2) as u32)) * 256 + m.byte((address + 3) as u32),
        address + 2 <= 0x20_0000 ==> {
            let after = m.with_word(address, word);
            &&& after.rom == m.rom
            &&& after.ram[address as int] * 256 + after.ram[address + 1] == word
            &&& forall|i: int|
                0 <= i < 0x20_0000 && !(address <= i < address + 2) ==> #[trigger] after.ram[i]
                    == m.ram[i]
        },
        address + 4 <= 0x20_0000 ==> {
            let after = m.with_long(address, long);
            &&& after.rom == m.rom
            &&& ((after.ram[address as int] * 256 + after.ram[address + 1]) * 256
                + after.ram[address + 2]) * 256 + after.ram[address + 3] == long
            &&& forall|i: int|
                0 <= i < 0x20_0000 && !(address <= i < address + 4) ==> #[trigger] after.ram[i]
                    == m.ram[i]
        },
{
}

/// A byte written to chip RAM is read back from its address, and no other
/// address reads differently afterwards.
pub proof fn chip_ram_byte_reads_back(m: Memory, address: u32, other: u32, value: u8)
    requires
        m.ram.len() == CHIP_RAM_SIZE,
        address < CHIP_RAM_END,
    ensures
        m.with_byte(address, value).byte(address) == value,
        other != address ==> m.with_byte(address, value).byte(other) == m.byte(other),
{
}

/// A word or longword written wholly inside chip RAM reads back unchanged.
pub proof fn chip_ram_wider_accesses_read_back(m: Memory, address: u32, word: u16, long: u32)
    requires
        m.ram.len() == CHIP_RAM_SIZE,
    ensures
        address + 2 <= CHIP_RAM_END ==> m.with_word(address, word).word(address) == word,
        address + 4 <= CHIP_RAM_END ==> m.with_long(address, long).long(address) == long,
{
}

/// Writes to ROM and to open bus are discarded: nothing changes.
pub proof fn writes_outside_chip_ram_are_discarded(m: Memory, address: u32, value: u8)
    requires
        address >= CHIP_RAM_END,
    ensures
        m.with_byte(address, value) == m,
{
}

/// Every address outside chip RAM and a populated ROM window reads as all
/// ones, at every width.
pub proof fn open_bus_reads_all_ones(m: Memory, address: u32)
    requires
        m.rom.len() == 0 || !(ROM_BASE - 3 <= address < ROM_END),
        CHIP_RAM_END <= address <= 0xFFFF_FFFC,
    ensures
        m.byte(address) == 0xFF,
        m.word(address) == 0xFFFF,
        m.long(address) == 0xFFFF_FFFF,
{
}

/// An undersized ROM repeats across its window with the image's period.
pub proof fn undersized_rom_mirrors(m: Memory, address: u32)
    requires
        m.rom.len() > 0,
        ROM_BASE <= address,
        address + m.rom.len() < ROM_END,
    ensures
        m.byte((address + m.rom.len()) as u32) == m.byte(address),
{
    let len = m.rom.len() as int;
    let offset = address - ROM_BASE;
    vstd::arithmetic::div_mod::lemma_mod_add_multiples_vanish(offset, len);
    assert((offset + len) % len == offset % len);
}

} // verus!
