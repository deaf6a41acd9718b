//! The rules a board layer runs the machine by: what to print, which disk to
//! serve, how much memory to ask for, when a boot has failed. A board
//! performs the I/O; every decision and every byte it sends comes from here.

pub mod boot;
pub mod checks;
pub mod fast_ram;
pub mod heap;
pub mod line;
pub mod present;
pub mod ramfb;
pub mod serial;
pub mod storage;
pub mod text;
