//! The guest-visible hardware of a chipset-less Amiga: the address space,
//! the parts of the chipset an operating system actually waits on, the
//! expansion cards, and the rules a board layer needs to drive them.
//!
//! Every device is a plain state machine: register reads and writes,
//! ticks and host notifications are functions from a device state to the
//! next one, and their contracts say exactly which.

pub mod autoconfig;
pub mod be;
pub mod blitter;
pub mod block;
pub mod board;
pub mod bus;
pub mod chipset;
pub mod cia;
pub mod cirrus;
pub mod display;
pub mod fastram;
pub mod gayle;
pub mod graffity;
pub mod hostblk;
pub mod input;
pub mod memory;
pub mod mirage;
pub mod ring;
pub mod slot;

pub use crate::bus::{
    MachineBus, Memory, CHIP_RAM_BASE, CHIP_RAM_END, CHIP_RAM_SIZE, OPEN_BUS_BYTE, ROM_BASE,
    ROM_END, ROM_WINDOW_SIZE,
};
pub use crate::memory::GuestMemory;
