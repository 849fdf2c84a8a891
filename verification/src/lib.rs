//! Core of a DMG hand-held emulator: the SM83 processor interpreter, the
//! memory-management unit with its timers and OAM-DMA engine, the cartridge
//! memory-bank controllers, and the pixel-processing unit with its FIFO
//! scanline renderer.  The host window, input source and ROM loading live
//! outside this crate; the core works purely on bytes and plain values.
use vstd::prelude::*;

pub mod cartridge;
pub mod cpu;
pub mod joypad;
pub mod mmu;
pub mod ppu;
pub mod utils;

verus! {

/// Every way the core can refuse to go on.  Cartridge errors are raised once
/// at construction; the rest abort execution with context, where the
/// hardware leaves no defined behaviour to model.
#[derive(Clone, Copy, Debug, PartialEq, Eq, Structural)]
pub enum EmuError {
    /// Cartridge byte 0x0147 holds an MBC type this core does not support.
    UnsupportedCartridgeType { code: u8 },
    /// Cartridge byte 0x0148 is not a known ROM size code.
    UnsupportedRomSize { code: u8 },
    /// Cartridge byte 0x0149 is not a known RAM size code.
    UnsupportedRamSize { code: u8 },
    /// The ROM image is shorter than its header claims.
    RomTooShort,
    /// An MBC3 RAM-bank register in 0x08..=0x0C selects the real-time clock.
    RtcNotImplemented,
    /// A banking register points outside the ROM or RAM actually present.
    BankOutOfRange { address: u16 },
    /// The processor fetched an opcode that the DMG leaves undefined.
    IllegalOpcode { opcode: u8, pc: u16 },
    /// A scanline failed to finish rendering before the vertical blank.
    RenderOverrun { ly: u8 },
}

} // verus!
