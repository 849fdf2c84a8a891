//! Cartridge memory-bank controllers.  A cartridge owns its ROM image and
//! its external RAM and answers byte reads and writes over the two
//! cartridge windows of the address space: 0x0000..0x8000 (ROM, where
//! writes drive the banking registers) and 0xA000..0xC000 (external RAM,
//! gated by the RAM-enable register).
//!
//! The controller family is chosen from header byte 0x0147; ROM and RAM
//! sizes come from the fixed tables behind header bytes 0x0148 and 0x0149.
//! External RAM is allocated at 0x0800 bytes per counted bank, which for
//! multi-bank carts is smaller than the canonical 0x2000 per bank; the
//! banked index computations below keep that layout.
use crate::EmuError;
use crate::utils::lemma_mask_bounds_u8;
use crate::utils::lemma_mask_bounds_u16;
use vstd::prelude::*;

verus! {

/// ROM bank count for header byte 0x0148; zero means the code is unknown.
pub open spec fn spec_rom_banks(code: u8) -> u16 {
    if code == 0x00 {
        2
    } else if code == 0x01 {
        4
    } else if code == 0x02 {
        8
    } else if code == 0x03 {
        16
    } else if code == 0x04 {
        32
    } else if code == 0x05 {
        64
    } else if code == 0x06 {
        128
    } else if code == 0x07 {
        256
    } else if code == 0x08 {
        512
    } else if code == 0x52 {
        72
    } else if code == 0x53 {
        80
    } else if code == 0x54 {
        96
    } else {
        0
    }
}

/// RAM bank count for header byte 0x0149; only codes up to five are known.
pub open spec fn spec_ram_banks(code: u8) -> u8 {
    if code == 0x00 {
        0
    } else if code == 0x01 {
        1
    } else if code == 0x02 {
        4
    } else if code == 0x03 {
        16
    } else if code == 0x04 {
        64
    } else {
        32
    }
}

fn rom_banks_for(code: u8) -> (r: u16)
    ensures
        r == spec_rom_banks(code),
{
    if code == 0x00 {
        2
    } else if code == 0x01 {
        4
    } else if code == 0x02 {
        8
    } else if code == 0x03 {
        16
    } else if code == 0x04 {
        32
    } else if code == 0x05 {
        64
    } else if code == 0x06 {
        128
    } else if code == 0x07 {
        256
    } else if code == 0x08 {
        512
    } else if code == 0x52 {
        72
    } else if code == 0x53 {
        80
    } else if code == 0x54 {
        96
    } else {
        0
    }
}

fn ram_banks_for(code: u8) -> (r: u8)
    requires
        code <= 5,
    ensures
        r == spec_ram_banks(code),
{
    if code == 0x00 {
        0
    } else if code == 0x01 {
        1
    } else if code == 0x02 {
        4
    } else if code == 0x03 {
        16
    } else if code == 0x04 {
        64
    } else {
        32
    }
}

/// Ghost image of a cartridge: the banking registers and the two byte
/// arrays, without the executable containers.
pub enum CartV {
    RomOnly { rom: Seq<u8> },
    MBC1 {
        banking_mode: bool,
        ram_enable: bool,
        ram_bank_register: u8,
        rom_bank_register: u8,
        ram: Seq<u8>,
        rom: Seq<u8>,
    },
    MBC3 {
        ram_enable: bool,
        ram_bank_register: u8,
        rom_bank_register: u8,
        ram: Seq<u8>,
        rom: Seq<u8>,
    },
    MBC5 {
        ram_enable: bool,
        ram_bank_register: u8,
        rom_bank_register_lo: u8,
        rom_bank_register_hi: u8,
        ram: Seq<u8>,
        rom: Seq<u8>,
    },
}

pub open spec fn cart_rom(c: CartV) -> Seq<u8> {
    match c {
        CartV::RomOnly { rom } => rom,
        CartV::MBC1 { rom, .. } => rom,
        CartV::MBC3 { rom, .. } => rom,
        CartV::MBC5 { rom, .. } => rom,
    }
}

pub open spec fn cart_ram(c: CartV) -> Seq<u8> {
    match c {
        CartV::RomOnly { .. } => Seq::empty(),
        CartV::MBC1 { ram, .. } => ram,
        CartV::MBC3 { ram, .. } => ram,
        CartV::MBC5 { ram, .. } => ram,
    }
}

/// Bank counts decoded from the header of a ROM image.
pub open spec fn rom_bank_count(rom: Seq<u8>) -> int {
    spec_rom_banks(rom[0x0148]) as int
}

pub open spec fn ram_bank_count(rom: Seq<u8>) -> int {
    spec_ram_banks(rom[0x0149]) as int
}

/// A ROM image large enough for its own header's claims, with both size
/// codes drawn from the tables.
pub open spec fn rom_wf(rom: Seq<u8>) -> bool {
    &&& rom.len() >= 0x8000
    &&& spec_rom_banks(rom[0x0148]) != 0
    &&& rom.len() >= 0x4000 * rom_bank_count(rom)
    &&& rom[0x0149] <= 5
}

/// Well-formed cartridge: sound ROM image and RAM sized to the header.
pub open spec fn cart_wf(c: CartV) -> bool {
    &&& rom_wf(cart_rom(c))
    &&& !(c is RomOnly) ==> cart_ram(c).len() == 0x800 * ram_bank_count(cart_rom(c))
}

/// An address one of the two cartridge windows answers.
pub open spec fn cart_addr(address: u16) -> bool {
    address < 0x8000 || (0xA000 <= address && address < 0xC000)
}

/// ROM bank mapped at 0x0000..0x4000 by an MBC1 in advanced banking mode.
pub open spec fn mbc1_low_bank(rom_reg: u8, ram_reg: u8, banks: int) -> int {
    if banks > 32 {
        ((rom_reg & 0x0F) | ((ram_reg & 0x03) << 4)) as int
    } else {
        0
    }
}

/// ROM bank mapped at 0x4000..0x8000 by an MBC1; register value zero reads
/// as bank one before masking.
pub open spec fn mbc1_high_bank(rom_reg: u8, ram_reg: u8, banks: int) -> int {
    ({
        let capped: u8 = if banks >= 32 {
            31
        } else {
            (banks - 1) as u8
        };
        let base: u8 = if rom_reg == 0 {
            1
        } else {
            rom_reg & capped
        };
        let high: u8 = if banks > 32 {
            (ram_reg & 0x03) << 4
        } else {
            0
        };
        (base | high) as int
    })
}

/// Stride of one external-RAM bank under the 0x0800-granular allocation.
pub open spec fn mbc1_ram_stride(banks: int) -> int {
    if 0x800 * banks < 0x2000 {
        0x800 * banks
    } else {
        0x2000
    }
}

/// RAM index an MBC1 access resolves to; meaningless when the stride is
/// zero, which the callers rule out.
pub open spec fn mbc1_ram_index(mode: bool, ram_reg: u8, banks: int, address: u16) -> int {
    ({
        let bank: int = if mode {
            ((ram_reg & 0x03) << 2) as int
        } else {
            0
        };
        0x800 * bank + (address - 0xA000) % mbc1_ram_stride(banks)
    })
}

/// MBC3 ROM bank: seven register bits, zero remapped to one.
pub open spec fn mbc3_rom_bank(rom_reg: u8) -> int {
    if rom_reg & 0x7F == 0 {
        1
    } else {
        (rom_reg & 0x7F) as int
    }
}

/// MBC5 ROM bank: nine bits across the two registers, no zero remap.
pub open spec fn mbc5_rom_bank(lo: u8, hi: u8) -> int {
    (((hi as u16) << 8 | lo as u16) & 0x01FF) as int
}

/// What a cartridge read returns, over the ghost image.  Assumes a
/// well-formed cartridge and an address in one of the two windows.
pub open spec fn cart_read(c: CartV, address: u16) -> Result<u8, EmuError> {
    match c {
        CartV::RomOnly { rom } => {
            if address < 0x8000 {
                Ok(rom[address as int])
            } else {
                Ok(0xFF)
            }
        },
        CartV::MBC1 { banking_mode, ram_enable, ram_bank_register, rom_bank_register, ram, rom } => {
            let banks = rom_bank_count(rom);
            if address < 0x4000 {
                if banking_mode {
                    Ok(rom[0x4000 * mbc1_low_bank(rom_bank_register, ram_bank_register, banks)
                        + address])
                } else {
                    Ok(rom[address as int])
                }
            } else if address < 0x8000 {
                Ok(rom[0x4000 * mbc1_high_bank(rom_bank_register, ram_bank_register, banks)
                    + address - 0x4000])
            } else if ram_enable {
                let rbanks = ram_bank_count(rom);
                let idx = mbc1_ram_index(banking_mode, ram_bank_register, rbanks, address);
                if rbanks == 0 || idx >= ram.len() {
                    Err(EmuError::BankOutOfRange { address })
                } else {
                    Ok(ram[idx])
                }
            } else {
                Ok(0xFF)
            }
        },
        CartV::MBC3 { ram_enable, ram_bank_register, rom_bank_register, ram, rom } => {
            if address < 0x4000 {
                Ok(rom[address as int])
            } else if address < 0x8000 {
                let idx = 0x4000 * mbc3_rom_bank(rom_bank_register) + address - 0x4000;
                if idx >= rom.len() {
                    Err(EmuError::BankOutOfRange { address })
                } else {
                    Ok(rom[idx])
                }
            } else if ram_enable {
                if ram_bank_register & 0x0F >= 0x04 {
                    Err(EmuError::RtcNotImplemented)
                } else {
                    let idx = 0x2000 * ((ram_bank_register & 0x0F) as int) + address - 0xA000;
                    if idx >= ram.len() {
                        Err(EmuError::BankOutOfRange { address })
                    } else {
                        Ok(ram[idx])
                    }
                }
            } else {
                Ok(0xFF)
            }
        },
        CartV::MBC5 {
            ram_enable,
            ram_bank_register,
            rom_bank_register_lo,
            rom_bank_register_hi,
            ram,
            rom,
        } => {
            if address < 0x4000 {
                Ok(rom[address as int])
            } else if address < 0x8000 {
                let idx = 0x4000 * mbc5_rom_bank(rom_bank_register_lo, rom_bank_register_hi)
                    + address - 0x4000;
                if idx >= rom.len() {
                    Err(EmuError::BankOutOfRange { address })
                } else {
                    Ok(rom[idx])
                }
            } else if ram_enable {
                let idx = 0x2000 * ((ram_bank_register & 0x0F) as int) + address - 0xA000;
                if idx >= ram.len() {
                    Err(EmuError::BankOutOfRange { address })
                } else {
                    Ok(ram[idx])
                }
            } else {
                Ok(0xFF)
            }
        },
    }
}

/// Cartridge state after a write.  A write that fails leaves the state as
/// it was; `cart_write_result` says whether it fails.
pub open spec fn cart_write_state(c: CartV, address: u16, value: u8) -> CartV {
    match c {
        CartV::RomOnly { .. } => c,
        CartV::MBC1 { banking_mode, ram_enable, ram_bank_register, rom_bank_register, ram, rom } => {
            if address < 0x2000 {
                CartV::MBC1 {
                    ram_enable: value & 0x0F == 0x0A,
                    banking_mode,
                    ram_bank_register,
                    rom_bank_register,
                    ram,
                    rom,
                }
            } else if address < 0x4000 {
                CartV::MBC1 {
                    rom_bank_register: value,
                    banking_mode,
                    ram_enable,
                    ram_bank_register,
                    ram,
                    rom,
                }
            } else if address < 0x6000 {
                CartV::MBC1 {
                    ram_bank_register: value,
                    banking_mode,
                    ram_enable,
                    rom_bank_register,
                    ram,
                    rom,
                }
            } else if address < 0x8000 {
                CartV::MBC1 {
                    banking_mode: value & 0x01 == 0x01,
                    ram_enable,
                    ram_bank_register,
                    rom_bank_register,
                    ram,
                    rom,
                }
            } else if ram_enable {
                let rbanks = ram_bank_count(rom);
                let idx = mbc1_ram_index(banking_mode, ram_bank_register, rbanks, address);
                if rbanks == 0 || idx >= ram.len() {
                    c
                } else {
                    CartV::MBC1 {
                        ram: ram.update(idx, value),
                        banking_mode,
                        ram_enable,
                        ram_bank_register,
                        rom_bank_register,
                        rom,
                    }
                }
            } else {
                c
            }
        },
        CartV::MBC3 { ram_enable, ram_bank_register, rom_bank_register, ram, rom } => {
            if address < 0x2000 {
                CartV::MBC3 {
                    ram_enable: value & 0x0F == 0x0A,
                    ram_bank_register,
                    rom_bank_register,
                    ram,
                    rom,
                }
            } else if address < 0x4000 {
                CartV::MBC3 {
                    rom_bank_register: value,
                    ram_enable,
                    ram_bank_register,
                    ram,
                    rom,
                }
            } else if address < 0x6000 {
                CartV::MBC3 {
                    ram_bank_register: value,
                    ram_enable,
                    rom_bank_register,
                    ram,
                    rom,
                }
            } else if address < 0x8000 {
                c
            } else if ram_enable {
                if ram_bank_register & 0x0F >= 0x04 {
                    c
                } else {
                    let idx = 0x2000 * ((ram_bank_register & 0x0F) as int) + address - 0xA000;
                    if idx >= ram.len() {
                        c
                    } else {
                        CartV::MBC3 {
                            ram: ram.update(idx, value),
                            ram_enable,
                            ram_bank_register,
                            rom_bank_register,
                            rom,
                        }
                    }
                }
            } else {
                c
            }
        },
        CartV::MBC5 {
            ram_enable,
            ram_bank_register,
            rom_bank_register_lo,
            rom_bank_register_hi,
            ram,
            rom,
        } => {
            if address < 0x2000 {
                CartV::MBC5 {
                    ram_enable: value & 0x0F == 0x0A,
                    ram_bank_register,
                    rom_bank_register_lo,
                    rom_bank_register_hi,
                    ram,
                    rom,
                }
            } else if address < 0x3000 {
                CartV::MBC5 {
                    rom_bank_register_lo: value,
                    ram_enable,
                    ram_bank_register,
                    rom_bank_register_hi,
                    ram,
                    rom,
                }
            } else if address < 0x4000 {
                CartV::MBC5 {
                    rom_bank_register_hi: value,
                    ram_enable,
                    ram_bank_register,
                    rom_bank_register_lo,
                    ram,
                    rom,
                }
            } else if address < 0x6000 {
                CartV::MBC5 {
                    ram_bank_register: value,
                    ram_enable,
                    rom_bank_register_lo,
                    rom_bank_register_hi,
                    ram,
                    rom,
                }
            } else if address < 0x8000 {
                c
            } else if ram_enable {
                let idx = 0x2000 * ((ram_bank_register & 0x0F) as int) + address - 0xA000;
                if idx >= ram.len() {
                    c
                } else {
                    CartV::MBC5 {
                        ram: ram.update(idx, value),
                        ram_enable,
                        ram_bank_register,
                        rom_bank_register_lo,
                        rom_bank_register_hi,
                        rom,
                    }
                }
            } else {
                c
            }
        },
    }
}

/// Whether a cartridge write succeeds, and with which error it fails.
/// Register writes always succeed; only enabled RAM accesses can fail, on
/// an index outside the allocated RAM or on the MBC3 clock registers.
pub open spec fn cart_write_result(c: CartV, address: u16, value: u8) -> Result<(), EmuError> {
    match c {
        CartV::RomOnly { .. } => Ok(()),
        CartV::MBC1 { banking_mode, ram_enable, ram_bank_register, ram, rom, .. } => {
            if address < 0x8000 || !ram_enable {
                Ok(())
            } else {
                let rbanks = ram_bank_count(rom);
                let idx = mbc1_ram_index(banking_mode, ram_bank_register, rbanks, address);
                if rbanks == 0 || idx >= ram.len() {
                    Err(EmuError::BankOutOfRange { address })
                } else {
                    Ok(())
                }
            }
        },
        CartV::MBC3 { ram_enable, ram_bank_register, ram, .. } => {
            if address < 0x8000 || !ram_enable {
                Ok(())
            } else if ram_bank_register & 0x0F >= 0x04 {
                Err(EmuError::RtcNotImplemented)
            } else {
                let idx = 0x2000 * ((ram_bank_register & 0x0F) as int) + address - 0xA000;
                if idx >= ram.len() {
                    Err(EmuError::BankOutOfRange { address })
                } else {
                    Ok(())
                }
            }
        },
        CartV::MBC5 { ram_enable, ram_bank_register, ram, .. } => {
            if address < 0x8000 || !ram_enable {
                Ok(())
            } else {
                let idx = 0x2000 * ((ram_bank_register & 0x0F) as int) + address - 0xA000;
                if idx >= ram.len() {
                    Err(EmuError::BankOutOfRange { address })
                } else {
                    Ok(())
                }
            }
        },
    }
}

/// Every write of any value to any address succeeds on this cartridge
/// state: true of a plain ROM cartridge, and of a banked one whenever
/// the enabled RAM window cannot run outside the RAM present.
pub open spec fn cart_writes_ok(c: CartV) -> bool {
    forall|a: u16, v: u8| #[trigger] cart_write_result(c, a, v) is Ok
}

/// Writes succeed now and still succeed after any one write: enough for
/// a whole instruction, which writes at most twice.
pub open spec fn cart_writes_ok2(c: CartV) -> bool {
    &&& cart_writes_ok(c)
    &&& forall|a: u16, v: u8| cart_writes_ok(#[trigger] cart_write_state(c, a, v))
}

pub struct RomOnly {
    pub rom_data: Vec<u8>,
}

pub struct MBC1 {
    pub banking_mode: bool,
    pub ram_enable: bool,
    pub ram_bank_register: u8,
    pub rom_bank_register: u8,
    pub ram_data: Vec<u8>,
    pub rom_data: Vec<u8>,
}

pub struct MBC3 {
    pub ram_enable: bool,
    pub ram_bank_register: u8,
    pub rom_bank_register: u8,
    pub ram_data: Vec<u8>,
    pub rom_data: Vec<u8>,
}

pub struct MBC5 {
    pub ram_enable: bool,
    pub ram_bank_register: u8,
    pub rom_bank_register_lo: u8,
    pub rom_bank_register_hi: u8,
    pub ram_data: Vec<u8>,
    pub rom_data: Vec<u8>,
}

/// One cartridge of any supported controller family.
pub enum Cartridge {
    RomOnly(RomOnly),
    MBC1(MBC1),
    MBC3(MBC3),
    MBC5(MBC5),
}

impl View for RomOnly {
    type V = CartV;

    open spec fn view(&self) -> CartV {
        CartV::RomOnly { rom: self.rom_data@ }
    }
}

impl View for MBC1 {
    type V = CartV;

    open spec fn view(&self) -> CartV {
        CartV::MBC1 {
            banking_mode: self.banking_mode,
            ram_enable: self.ram_enable,
            ram_bank_register: self.ram_bank_register,
            rom_bank_register: self.rom_bank_register,
            ram: self.ram_data@,
            rom: self.rom_data@,
        }
    }
}

impl View for MBC3 {
    type V = CartV;

    open spec fn view(&self) -> CartV {
        CartV::MBC3 {
            ram_enable: self.ram_enable,
            ram_bank_register: self.ram_bank_register,
            rom_bank_register: self.rom_bank_register,
            ram: self.ram_data@,
            rom: self.rom_data@,
        }
    }
}

impl View for MBC5 {
    type V = CartV;

    open spec fn view(&self) -> CartV {
        CartV::MBC5 {
            ram_enable: self.ram_enable,
            ram_bank_register: self.ram_bank_register,
            rom_bank_register_lo: self.rom_bank_register_lo,
            rom_bank_register_hi: self.rom_bank_register_hi,
            ram: self.ram_data@,
            rom: self.rom_data@,
        }
    }
}

impl View for Cartridge {
    type V = CartV;

    open spec fn view(&self) -> CartV {
        match self {
            Cartridge::RomOnly(c) => c.view(),
            Cartridge::MBC1(c) => c.view(),
            Cartridge::MBC3(c) => c.view(),
            Cartridge::MBC5(c) => c.view(),
        }
    }
}

impl RomOnly {
    pub fn read_byte(&self, address: u16) -> (r: Result<u8, EmuError>)
        requires
            cart_wf(self@),
            cart_addr(address),
        ensures
            r == cart_read(self@, address),
    {
        if address < 0x8000 {
            Ok(self.rom_data[address as usize])
        } else {
            Ok(0xFF)
        }
    }

    pub fn write_byte(&mut self, address: u16, value: u8) -> (r: Result<(), EmuError>)
        requires
            cart_wf(old(self)@),
            cart_addr(address),
        ensures
            final(self)@ == cart_write_state(old(self)@, address, value),
            r == cart_write_result(old(self)@, address, value),
            cart_wf(final(self)@),
    {
        Ok(())
    }
}

impl MBC1 {
    /// Banked ROM index for the upper window, shown in range of the image.
    fn high_bank(&self, banks: u16) -> (r: usize)
        requires
            cart_wf(self@),
            banks == spec_rom_banks(self.rom_data@[0x0148]),
        ensures
            r == mbc1_high_bank(self.rom_bank_register, self.ram_bank_register, banks as int),
            r < banks,
    {
        proof {
            lemma_mask_bounds_u8();
        }
        let capped: u8 = if banks >= 32 {
            31
        } else {
            (banks - 1) as u8
        };
        let base: u8 = if self.rom_bank_register == 0 {
            1
        } else {
            self.rom_bank_register & capped
        };
        let high: u8 = if banks > 32 {
            (self.ram_bank_register & 0x03) << 4
        } else {
            0
        };
        (base | high) as usize
    }

    pub fn read_byte(&self, address: u16) -> (r: Result<u8, EmuError>)
        requires
            cart_wf(self@),
            cart_addr(address),
        ensures
            r == cart_read(self@, address),
    {
        proof {
            lemma_mask_bounds_u8();
        }
        let banks = rom_banks_for(self.rom_data[0x0148]);
        if address < 0x4000 {
            if !self.banking_mode {
                Ok(self.rom_data[address as usize])
            } else {
                let bank: usize = if banks > 32 {
                    ((self.rom_bank_register & 0x0F) | ((self.ram_bank_register & 0x03) << 4))
                        as usize
                } else {
                    0
                };
                Ok(self.rom_data[0x4000 * bank + address as usize])
            }
        } else if address < 0x8000 {
            let bank = self.high_bank(banks);
            Ok(self.rom_data[0x4000 * bank + address as usize - 0x4000])
        } else if self.ram_enable {
            let ram_banks = ram_banks_for(self.rom_data[0x0149]);
            if ram_banks == 0 {
                return Err(EmuError::BankOutOfRange { address });
            }
            let s: usize = 0x800 * (ram_banks as usize);
            let stride: usize = if s < 0x2000 {
                s
            } else {
                0x2000
            };
            let bank: usize = if self.banking_mode {
                ((self.ram_bank_register & 0x03) << 2) as usize
            } else {
                0
            };
            let idx = 0x800 * bank + (address as usize - 0xA000) % stride;
            if idx >= self.ram_data.len() {
                Err(EmuError::BankOutOfRange { address })
            } else {
                Ok(self.ram_data[idx])
            }
        } else {
            Ok(0xFF)
        }
    }

    pub fn write_byte(&mut self, address: u16, value: u8) -> (r: Result<(), EmuError>)
        requires
            cart_wf(old(self)@),
            cart_addr(address),
        ensures
            final(self)@ == cart_write_state(old(self)@, address, value),
            r == cart_write_result(old(self)@, address, value),
            cart_wf(final(self)@),
    {
        if address < 0x2000 {
            self.ram_enable = (value & 0x0F) == 0x0A;
            Ok(())
        } else if address < 0x4000 {
            self.rom_bank_register = value;
            Ok(())
        } else if address < 0x6000 {
            self.ram_bank_register = value;
            Ok(())
        } else if address < 0x8000 {
            self.banking_mode = value & 0x01 == 0x01;
            Ok(())
        } else if self.ram_enable {
            let ram_banks = ram_banks_for(self.rom_data[0x0149]);
            if ram_banks == 0 {
                return Err(EmuError::BankOutOfRange { address });
            }
            let s: usize = 0x800 * (ram_banks as usize);
            let stride: usize = if s < 0x2000 {
                s
            } else {
                0x2000
            };
            let bank: usize = if self.banking_mode {
                ((self.ram_bank_register & 0x03) << 2) as usize
            } else {
                0
            };
            let idx = 0x800 * bank + (address as usize - 0xA000) % stride;
            if idx >= self.ram_data.len() {
                Err(EmuError::BankOutOfRange { address })
            } else {
                self.ram_data.set(idx, value);
                Ok(())
            }
        } else {
            Ok(())
        }
    }
}

impl MBC3 {
    pub fn read_byte(&self, address: u16) -> (r: Result<u8, EmuError>)
        requires
            cart_wf(self@),
            cart_addr(address),
        ensures
            r == cart_read(self@, address),
    {
        proof {
            lemma_mask_bounds_u8();
        }
        if address < 0x4000 {
            Ok(self.rom_data[address as usize])
        } else if address < 0x8000 {
            let masked = self.rom_bank_register & 0x7F;
            let bank: usize = if masked == 0 {
                1
            } else {
                masked as usize
            };
            let idx = 0x4000 * bank + address as usize - 0x4000;
            if idx >= self.rom_data.len() {
                Err(EmuError::BankOutOfRange { address })
            } else {
                Ok(self.rom_data[idx])
            }
        } else if self.ram_enable {
            let reg = self.ram_bank_register & 0x0F;
            if reg >= 0x04 {
                Err(EmuError::RtcNotImplemented)
            } else {
                let idx = 0x2000 * (reg as usize) + address as usize - 0xA000;
                if idx >= self.ram_data.len() {
                    Err(EmuError::BankOutOfRange { address })
                } else {
                    Ok(self.ram_data[idx])
                }
            }
        } else {
            Ok(0xFF)
        }
    }

    pub fn write_byte(&mut self, address: u16, value: u8) -> (r: Result<(), EmuError>)
        requires
            cart_wf(old(self)@),
            cart_addr(address),
        ensures
            final(self)@ == cart_write_state(old(self)@, address, value),
            r == cart_write_result(old(self)@, address, value),
            cart_wf(final(self)@),
    {
        proof {
            lemma_mask_bounds_u8();
        }
        if address < 0x2000 {
            self.ram_enable = (value & 0x0F) == 0x0A;
            Ok(())
        } else if address < 0x4000 {
            self.rom_bank_register = value;
            Ok(())
        } else if address < 0x6000 {
            self.ram_bank_register = value;
            Ok(())
        } else if address < 0x8000 {
            Ok(())
        } else if self.ram_enable {
            let reg = self.ram_bank_register & 0x0F;
            if reg >= 0x04 {
                Err(EmuError::RtcNotImplemented)
            } else {
                let idx = 0x2000 * (reg as usize) + address as usize - 0xA000;
                if idx >= self.ram_data.len() {
                    Err(EmuError::BankOutOfRange { address })
                } else {
                    self.ram_data.set(idx, value);
                    Ok(())
                }
            }
        } else {
            Ok(())
        }
    }
}

impl MBC5 {
    pub fn read_byte(&self, address: u16) -> (r: Result<u8, EmuError>)
        requires
            cart_wf(self@),
            cart_addr(address),
        ensures
            r == cart_read(self@, address),
    {
        proof {
            lemma_mask_bounds_u8();
            lemma_mask_bounds_u16();
        }
        if address < 0x4000 {
            Ok(self.rom_data[address as usize])
        } else if address < 0x8000 {
            let bank = (((self.rom_bank_register_hi as u16) << 8 | self.rom_bank_register_lo
                as u16) & 0x01FF) as usize;
            let idx = 0x4000 * bank + address as usize - 0x4000;
            if idx >= self.rom_data.len() {
                Err(EmuError::BankOutOfRange { address })
            } else {
                Ok(self.rom_data[idx])
            }
        } else if self.ram_enable {
            let idx = 0x2000 * ((self.ram_bank_register & 0x0F) as usize) + address as usize
                - 0xA000;
            if idx >= self.ram_data.len() {
                Err(EmuError::BankOutOfRange { address })
            } else {
                Ok(self.ram_data[idx])
            }
        } else {
            Ok(0xFF)
        }
    }

    pub fn write_byte(&mut self, address: u16, value: u8) -> (r: Result<(), EmuError>)
        requires
            cart_wf(old(self)@),
            cart_addr(address),
        ensures
            final(self)@ == cart_write_state(old(self)@, address, value),
            r == cart_write_result(old(self)@, address, value),
            cart_wf(final(self)@),
    {
        proof {
            lemma_mask_bounds_u8();
        }
        if address < 0x2000 {
            self.ram_enable = (value & 0x0F) == 0x0A;
            Ok(())
        } else if address < 0x3000 {
            self.rom_bank_register_lo = value;
            Ok(())
        } else if address < 0x4000 {
            self.rom_bank_register_hi = value;
            Ok(())
        } else if address < 0x6000 {
            self.ram_bank_register = value;
            Ok(())
        } else if address < 0x8000 {
            Ok(())
        } else if self.ram_enable {
            let idx = 0x2000 * ((self.ram_bank_register & 0x0F) as usize) + address as usize
                - 0xA000;
            if idx >= self.ram_data.len() {
                Err(EmuError::BankOutOfRange { address })
            } else {
                self.ram_data.set(idx, value);
                Ok(())
            }
        } else {
            Ok(())
        }
    }
}

/// The title bytes starting at `i`: ASCII bytes up to the first zero or
/// non-ASCII byte, ending at 0x0144 at the latest.
pub open spec fn spec_title(rom: Seq<u8>, i: int) -> Seq<u8>
    decreases 0x144 - i,
{
    if i < 0x134 || i >= 0x144 {
        Seq::empty()
    } else if rom[i] == 0 || rom[i] >= 0x80 {
        Seq::empty()
    } else {
        seq![rom[i]] + spec_title(rom, i + 1)
    }
}

impl Cartridge {
    fn rom(&self) -> (r: &Vec<u8>)
        ensures
            r@ == cart_rom(self@),
    {
        match self {
            Cartridge::RomOnly(c) => &c.rom_data,
            Cartridge::MBC1(c) => &c.rom_data,
            Cartridge::MBC3(c) => &c.rom_data,
            Cartridge::MBC5(c) => &c.rom_data,
        }
    }

    pub fn read_byte(&self, address: u16) -> (r: Result<u8, EmuError>)
        requires
            cart_wf(self@),
            cart_addr(address),
        ensures
            r == cart_read(self@, address),
    {
        match self {
            Cartridge::RomOnly(c) => c.read_byte(address),
            Cartridge::MBC1(c) => c.read_byte(address),
            Cartridge::MBC3(c) => c.read_byte(address),
            Cartridge::MBC5(c) => c.read_byte(address),
        }
    }

    pub fn write_byte(&mut self, address: u16, value: u8) -> (r: Result<(), EmuError>)
        requires
            cart_wf(old(self)@),
            cart_addr(address),
        ensures
            final(self)@ == cart_write_state(old(self)@, address, value),
            r == cart_write_result(old(self)@, address, value),
            cart_wf(final(self)@),
    {
        match self {
            Cartridge::RomOnly(c) => c.write_byte(address, value),
            Cartridge::MBC1(c) => c.write_byte(address, value),
            Cartridge::MBC3(c) => c.write_byte(address, value),
            Cartridge::MBC5(c) => c.write_byte(address, value),
        }
    }

    /// Header bank count of the ROM chip itself, read off the image.
    pub fn get_total_rom_banks(&self) -> (r: u16)
        requires
            cart_wf(self@),
        ensures
            r == spec_rom_banks(cart_rom(self@)[0x0148]),
    {
        rom_banks_for(self.rom()[0x0148])
    }

    pub fn get_total_ram_banks(&self) -> (r: u8)
        requires
            cart_wf(self@),
        ensures
            r == spec_ram_banks(cart_rom(self@)[0x0149]),
    {
        ram_banks_for(self.rom()[0x0149])
    }

    /// ASCII title from the header, cut at the first zero or non-ASCII
    /// byte.
    pub fn get_title(&self) -> (r: Vec<u8>)
        requires
            cart_wf(self@),
        ensures
            r@ == spec_title(cart_rom(self@), 0x134),
    {
        let rom = self.rom();
        let mut out: Vec<u8> = Vec::new();
        let mut i: usize = 0x134;
        while i < 0x144
            invariant
                0x134 <= i <= 0x144,
                rom@ == cart_rom(self@),
                cart_wf(self@),
                spec_title(rom@, 0x134) == out@ + spec_title(rom@, i as int),
            decreases 0x144 - i,
        {
            let b = rom[i];
            if b == 0 || b >= 0x80 {
                assert(spec_title(rom@, i as int) =~= Seq::<u8>::empty());
                assert(out@ + Seq::<u8>::empty() =~= out@);
                return out;
            }
            proof {
                assert(spec_title(rom@, i as int) == seq![rom@[i as int]] + spec_title(
                    rom@,
                    i + 1,
                ));
            }
            out.push(b);
            proof {
                assert(out@ + spec_title(rom@, i + 1) =~= spec_title(rom@, 0x134));
            }
            i = i + 1;
        }
        assert(spec_title(rom@, 0x144) =~= Seq::<u8>::empty());
        assert(out@ + Seq::<u8>::empty() =~= out@);
        out
    }
}

/// Header validation shared by every controller family, in the order the
/// checks run: image length, ROM size code, claimed ROM length, RAM size
/// code.
pub open spec fn header_check(data: Seq<u8>) -> Result<(), EmuError> {
    if data.len() < 0x8000 {
        Err(EmuError::RomTooShort)
    } else if spec_rom_banks(data[0x0148]) == 0 {
        Err(EmuError::UnsupportedRomSize { code: data[0x0148] })
    } else if data.len() < 0x4000 * rom_bank_count(data) {
        Err(EmuError::RomTooShort)
    } else if data[0x0149] > 5 {
        Err(EmuError::UnsupportedRamSize { code: data[0x0149] })
    } else {
        Ok(())
    }
}

/// What `create` builds from a ROM image: the controller family selected
/// by header byte 0x0147, with cleared registers and zeroed RAM.
pub open spec fn spec_create(data: Seq<u8>) -> Result<CartV, EmuError> {
    if data.len() < 0x8000 {
        Err(EmuError::RomTooShort)
    } else if header_check(data) is Err {
        Err(header_check(data)->Err_0)
    } else {
        let kind = data[0x0147];
        let ram = Seq::new((0x800 * ram_bank_count(data)) as nat, |i: int| 0u8);
        if kind == 0x00 {
            Ok(CartV::RomOnly { rom: data })
        } else if kind == 0x01 || kind == 0x02 || kind == 0x03 {
            Ok(
                CartV::MBC1 {
                    banking_mode: false,
                    ram_enable: false,
                    ram_bank_register: 0,
                    rom_bank_register: 0,
                    ram,
                    rom: data,
                },
            )
        } else if kind == 0x11 || kind == 0x12 || kind == 0x13 {
            Ok(
                CartV::MBC3 {
                    ram_enable: false,
                    ram_bank_register: 0,
                    rom_bank_register: 0,
                    ram,
                    rom: data,
                },
            )
        } else if kind == 0x19 || kind == 0x1A || kind == 0x1B {
            Ok(
                CartV::MBC5 {
                    ram_enable: false,
                    ram_bank_register: 0,
                    rom_bank_register_lo: 0,
                    rom_bank_register_hi: 0,
                    ram,
                    rom: data,
                },
            )
        } else {
            Err(EmuError::UnsupportedCartridgeType { code: kind })
        }
    }
}

/// The view of an executable result, for stating factory contracts.
pub open spec fn created_view(r: Result<Cartridge, EmuError>) -> Result<CartV, EmuError> {
    match r {
        Ok(c) => Ok(c@),
        Err(e) => Err(e),
    }
}

fn zero_vec(n: usize) -> (v: Vec<u8>)
    ensures
        v@ =~= Seq::new(n as nat, |i: int| 0u8),
{
    let mut v: Vec<u8> = Vec::new();
    let mut i: usize = 0;
    while i < n
        invariant
            i <= n,
            v@ =~= Seq::new(i as nat, |j: int| 0u8),
        decreases n - i,
    {
        v.push(0);
        i = i + 1;
    }
    v
}

/// Validate the header and report the first failure, as `header_check`
/// orders them; on success hand back the RAM bank count.
fn check_header(data: &Vec<u8>) -> (r: Result<u8, EmuError>)
    ensures
        r is Ok ==> header_check(data@) is Ok && r->Ok_0 == spec_ram_banks(data@[0x0149])
            && rom_wf(data@),
        r is Err ==> header_check(data@) == Err::<(), EmuError>(r->Err_0),
{
    if data.len() < 0x8000 {
        return Err(EmuError::RomTooShort);
    }
    let rom_code = data[0x0148];
    let banks = rom_banks_for(rom_code);
    if banks == 0 {
        return Err(EmuError::UnsupportedRomSize { code: rom_code });
    }
    if data.len() < 0x4000 * (banks as usize) {
        return Err(EmuError::RomTooShort);
    }
    let ram_code = data[0x0149];
    if ram_code > 5 {
        return Err(EmuError::UnsupportedRamSize { code: ram_code });
    }
    Ok(ram_banks_for(ram_code))
}

/// Build the cartridge a ROM image asks for.  Fails fast on an unknown
/// controller type or size code, or an image shorter than its header
/// claims; every accepted cartridge is well formed.
pub fn create(data: Vec<u8>) -> (r: Result<Cartridge, EmuError>)
    ensures
        created_view(r) == spec_create(data@),
        r is Ok ==> cart_wf(r->Ok_0@),
{
    let ram_banks = match check_header(&data) {
        Ok(n) => n,
        Err(e) => {
            return Err(e);
        },
    };
    let kind = data[0x0147];
    if kind == 0x00 {
        Ok(Cartridge::RomOnly(RomOnly { rom_data: data }))
    } else if kind == 0x01 || kind == 0x02 || kind == 0x03 {
        let ram_data = zero_vec(0x800 * (ram_banks as usize));
        Ok(
            Cartridge::MBC1(
                MBC1 {
                    banking_mode: false,
                    ram_enable: false,
                    ram_bank_register: 0,
                    rom_bank_register: 0,
                    ram_data,
                    rom_data: data,
                },
            ),
        )
    } else if kind == 0x11 || kind == 0x12 || kind == 0x13 {
        let ram_data = zero_vec(0x800 * (ram_banks as usize));
        Ok(
            Cartridge::MBC3(
                MBC3 {
                    ram_enable: false,
                    ram_bank_register: 0,
                    rom_bank_register: 0,
                    ram_data,
                    rom_data: data,
                },
            ),
        )
    } else if kind == 0x19 || kind == 0x1A || kind == 0x1B {
        let ram_data = zero_vec(0x800 * (ram_banks as usize));
        Ok(
            Cartridge::MBC5(
                MBC5 {
                    ram_enable: false,
                    ram_bank_register: 0,
                    rom_bank_register_lo: 0,
                    rom_bank_register_hi: 0,
                    ram_data,
                    rom_data: data,
                },
            ),
        )
    } else {
        Err(EmuError::UnsupportedCartridgeType { code: kind })
    }
}


/// A plain ROM cartridge accepts every write sequence: its writes are
/// inert, so a processor step over it is always owed success.
pub proof fn lemma_rom_only_writes_ok(c: CartV)
    requires
        c is RomOnly,
    ensures
        cart_writes_ok2(c),
{
}

/// An MBC1 ROM-bank register of zero maps the switchable window to bank
/// one: exactly bank one on carts of up to 32 banks, and bank one of the
/// selected 512 KiB group on larger carts.
pub proof fn lemma_mbc1_bank_zero(ram_reg: u8, banks: int)
    ensures
        2 <= banks <= 32 ==> mbc1_high_bank(0, ram_reg, banks) == 1,
        banks > 32 ==> mbc1_high_bank(0, ram_reg, banks) == 1 + (((ram_reg & 0x03) << 4) as int),
{
    let high = (ram_reg & 0x03) << 4;
    assert((1u8 | high) == 1 + high) by (bit_vector)
        requires
            high == (ram_reg & 0x03) << 4,
    ;
    assert((1u8 | 0u8) == 1) by (bit_vector);
}

/// An MBC5 bank number of zero really selects bank zero: there is no
/// zero-to-one remap, and the low register alone names banks up to 255.
pub proof fn lemma_mbc5_bank_zero()
    by (bit_vector)
    ensures
        mbc5_rom_bank(0, 0) == 0,
        forall|lo: u8| #[trigger] mbc5_rom_bank(lo, 0) == lo,
{
}

} // verus!
