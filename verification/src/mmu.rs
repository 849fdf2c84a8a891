//! Memory-management unit: the flat 64 KiB address space with its I/O
//! quirks, the DIV/TIMA timer chain, the OAM-DMA engine, the joypad
//! multiplexer and the interrupt-flag bookkeeping.  Writes into the two
//! cartridge windows are routed to the memory-bank controller; a serial
//! byte accepted for the debug hook is collected in an output buffer that
//! the host drains.
use crate::EmuError;
use crate::cartridge::CartV;
use crate::cartridge::Cartridge;
use crate::cartridge::cart_wf;
use crate::cartridge::cart_write_result;
use crate::cartridge::cart_write_state;
use crate::cartridge::create;
use crate::cartridge::spec_create;
use crate::joypad::Button;
use crate::joypad::Joypad;
use crate::joypad::spec_button_bit;
use crate::joypad::spec_joypad_read;
use crate::utils::is_bit_set;
use crate::utils::spec_bit8;
use vstd::prelude::*;

verus! {

/// Ghost image of the unit: memory as a byte sequence, the internal
/// sixteen-bit DIV counter, the timer edge latch, the DMA countdown, the
/// latched joypad state, the cartridge, and the serial bytes emitted so
/// far.
pub struct MmuV {
    pub mem: Seq<u8>,
    pub div_counter: u16,
    pub prev_and_result: bool,
    pub dma_cycles_counter: u16,
    pub joypad: u8,
    pub cart: CartV,
    pub serial: Seq<u8>,
}

pub struct MMU {
    pub memory: Vec<u8>,
    pub div_counter: u16,
    pub prev_and_result: bool,
    pub dma_cycles_counter: u16,
    pub joypad: Joypad,
    pub cartridge: Cartridge,
    pub serial_out: Vec<u8>,
}

impl View for MMU {
    type V = MmuV;

    open spec fn view(&self) -> MmuV {
        MmuV {
            mem: self.memory@,
            div_counter: self.div_counter,
            prev_and_result: self.prev_and_result,
            dma_cycles_counter: self.dma_cycles_counter,
            joypad: self.joypad.0,
            cart: self.cartridge@,
            serial: self.serial_out@,
        }
    }
}

pub open spec fn mmu_wf(m: MmuV) -> bool {
    &&& m.mem.len() == 0x10000
    &&& cart_wf(m.cart)
}

/// What a read returns: external RAM and the unusable strip read as zero,
/// echo RAM mirrors work RAM, the joypad register is multiplexed, DIV is
/// the high byte of the internal counter, everything else is the plain
/// memory byte.
pub open spec fn mmu_read(m: MmuV, address: u16) -> u8 {
    if 0xA000 <= address && address < 0xC000 {
        0x00
    } else if 0xE000 <= address && address < 0xFE00 {
        m.mem[address - 0x2000]
    } else if 0xFEA0 <= address && address < 0xFF00 {
        0x00
    } else if address == 0xFF00 {
        spec_joypad_read(m.joypad, m.mem[0xFF00])
    } else if address == 0xFF04 {
        (m.div_counter >> 8) as u8
    } else {
        m.mem[address as int]
    }
}

/// State after a write.  Any write to 0xFF46 arms the 640-cycle DMA
/// countdown; cartridge windows go to the bank controller; echo RAM writes
/// land in work RAM; the unusable strip ignores writes; the joypad
/// register takes only its select bits; a DIV write clears the whole
/// internal counter.
pub open spec fn mmu_write_state(m: MmuV, address: u16, value: u8) -> MmuV {
    ({
        let m1 = if address == 0xFF46 {
            MmuV { dma_cycles_counter: 0x0280, ..m }
        } else {
            m
        };
        if address < 0x8000 || (0xA000 <= address && address < 0xC000) {
            MmuV { cart: cart_write_state(m1.cart, address, value), ..m1 }
        } else if 0xE000 <= address && address < 0xFE00 {
            MmuV { mem: m1.mem.update(address - 0x2000, value), ..m1 }
        } else if 0xFEA0 <= address && address < 0xFF00 {
            m1
        } else if address == 0xFF00 {
            MmuV { mem: m1.mem.update(0xFF00, (m1.mem[0xFF00] & 0xCF) | (value & 0x30)), ..m1 }
        } else if address == 0xFF04 {
            MmuV { div_counter: 0, ..m1 }
        } else {
            MmuV { mem: m1.mem.update(address as int, value), ..m1 }
        }
    })
}

/// A write fails only inside the cartridge windows, with the controller's
/// error; everywhere else it succeeds.
pub open spec fn mmu_write_result(m: MmuV, address: u16, value: u8) -> Result<(), EmuError> {
    if address < 0x8000 || (0xA000 <= address && address < 0xC000) {
        cart_write_result(m.cart, address, value)
    } else {
        Ok(())
    }
}

/// DIV bit tapped by the timer, selected by the low two TAC bits.
pub open spec fn spec_tac_bit(tac: u8) -> u16 {
    if tac & 0x03 == 0x00 {
        9
    } else if tac & 0x03 == 0x01 {
        3
    } else if tac & 0x03 == 0x02 {
        5
    } else {
        7
    }
}

/// Memory after the DMA transfer lands: 0xA0 bytes copied from the page
/// named by 0xFF46 into the sprite table.
pub open spec fn spec_dma_copy(mem: Seq<u8>) -> Seq<u8> {
    Seq::new(
        0x10000,
        |i: int|
            if 0xFE00 <= i < 0xFEA0 {
                mem[(mem[0xFF46] as int) * 0x100 + (i - 0xFE00)]
            } else {
                mem[i]
            },
    )
}

/// One timer step of `cycles` T-cycles: the DMA countdown runs (and the
/// transfer lands when it reaches zero), DIV advances, and TIMA increments
/// exactly on a falling edge of the tapped DIV bit ANDed with the enable
/// bit; on overflow TIMA reloads from TMA and the timer interrupt is
/// requested.
pub open spec fn spec_timers(m: MmuV, cycles: u16) -> MmuV {
    ({
        let m1 = if m.dma_cycles_counter > 0 {
            let rem: u16 = if m.dma_cycles_counter <= cycles {
                0
            } else {
                (m.dma_cycles_counter - cycles) as u16
            };
            if rem == 0 {
                MmuV { dma_cycles_counter: 0, mem: spec_dma_copy(m.mem), ..m }
            } else {
                MmuV { dma_cycles_counter: rem, ..m }
            }
        } else {
            m
        };
        let div: u16 = if m1.div_counter + cycles > 0xFFFF {
            (m1.div_counter + cycles - 0x10000) as u16
        } else {
            (m1.div_counter + cycles) as u16
        };
        let m2 = MmuV { div_counter: div, ..m1 };
        let tac = m2.mem[0xFF07];
        let and_result = ((div >> spec_tac_bit(tac)) & 0x01 == 0x01) && spec_bit8(tac, 2);
        let m3 = if m2.prev_and_result && !and_result {
            if m2.mem[0xFF05] == 0xFF {
                MmuV {
                    mem: m2.mem.update(0xFF0F, m2.mem[0xFF0F] | (1u8 << 2u8)).update(
                        0xFF05,
                        m2.mem[0xFF06],
                    ),
                    ..m2
                }
            } else {
                MmuV { mem: m2.mem.update(0xFF05, (m2.mem[0xFF05] + 1) as u8), ..m2 }
            }
        } else {
            m2
        };
        MmuV { prev_and_result: and_result, ..m3 }
    })
}

/// A key press latches the button and, when it newly went down while one
/// of the (active-low) select lines is open, requests the joypad
/// interrupt.
pub open spec fn spec_press_key(m: MmuV, button: Button) -> MmuV {
    ({
        let newly = !(button is UNKNOWN) && spec_bit8(m.joypad, spec_button_bit(button));
        let jp: u8 = if newly {
            m.joypad & !(1u8 << spec_button_bit(button))
        } else {
            m.joypad
        };
        if newly && (m.mem[0xFF00] >> 4) & 0x03 < 0x03 {
            MmuV { joypad: jp, mem: m.mem.update(0xFF0F, m.mem[0xFF0F] | (1u8 << 4u8)), ..m }
        } else {
            MmuV { joypad: jp, ..m }
        }
    })
}

/// Boot-time byte of address `i`: the copied cartridge image below
/// 0x8000, the documented post-boot I/O values, zero elsewhere.
pub open spec fn spec_boot_byte(data: Seq<u8>, i: int) -> u8 {
    if i < 0x8000 {
        data[i]
    } else if i == 0xFF00 {
        0xCF
    } else if i == 0xFF02 {
        0x7E
    } else if i == 0xFF04 {
        0xAB
    } else if i == 0xFF07 {
        0xF8
    } else if i == 0xFF0F {
        0xE1
    } else if i == 0xFF10 {
        0x80
    } else if i == 0xFF11 {
        0xBF
    } else if i == 0xFF12 {
        0xF3
    } else if i == 0xFF13 {
        0xFF
    } else if i == 0xFF14 {
        0xBF
    } else if i == 0xFF16 {
        0x3F
    } else if i == 0xFF18 {
        0xFF
    } else if i == 0xFF19 {
        0xBF
    } else if i == 0xFF1A {
        0x7F
    } else if i == 0xFF1B {
        0xFF
    } else if i == 0xFF1C {
        0x9F
    } else if i == 0xFF1D {
        0xFF
    } else if i == 0xFF1E {
        0xBF
    } else if i == 0xFF20 {
        0xFF
    } else if i == 0xFF23 {
        0xBF
    } else if i == 0xFF24 {
        0x77
    } else if i == 0xFF25 {
        0xF3
    } else if i == 0xFF26 {
        0xF1
    } else if i == 0xFF40 {
        0x91
    } else if i == 0xFF41 {
        0x85
    } else if i == 0xFF46 {
        0xFF
    } else if i == 0xFF47 {
        0xFC
    } else {
        0
    }
}

/// The whole unit at power-on, for a ROM image the factory accepts.
pub open spec fn spec_mmu_new(data: Seq<u8>) -> MmuV {
    MmuV {
        mem: Seq::new(0x10000, |i: int| spec_boot_byte(data, i)),
        div_counter: 0xABCC,
        prev_and_result: false,
        dma_cycles_counter: 0,
        joypad: 0xFF,
        cart: spec_create(data)->Ok_0,
        serial: Seq::empty(),
    }
}

fn zero_mem() -> (v: Vec<u8>)
    ensures
        v@ =~= Seq::new(0x10000, |i: int| 0u8),
{
    let mut v: Vec<u8> = Vec::new();
    let mut i: usize = 0;
    while i < 0x10000
        invariant
            i <= 0x10000,
            v@ =~= Seq::new(i as nat, |j: int| 0u8),
        decreases 0x10000 - i,
    {
        v.push(0);
        i = i + 1;
    }
    v
}

impl MMU {
    /// Power the unit on around a ROM image: copy the low 32 KiB into flat
    /// memory, install the documented post-boot I/O values, and build the
    /// cartridge the header asks for.
    pub fn new(data: Vec<u8>) -> (r: Result<MMU, EmuError>)
        ensures
            r is Ok <==> spec_create(data@) is Ok,
            r is Err ==> spec_create(data@) == Err::<CartV, EmuError>(r->Err_0),
            r is Ok ==> r->Ok_0@ == spec_mmu_new(data@) && mmu_wf(r->Ok_0@),
    {
        if data.len() < 0x8000 {
            return Err(EmuError::RomTooShort);
        }
        let mut memory = zero_mem();
        let mut i: usize = 0;
        while i < 0x8000
            invariant
                i <= 0x8000,
                data@.len() >= 0x8000,
                memory@.len() == 0x10000,
                forall|j: int|
                    0 <= j < 0x10000 ==> memory@[j] == (if j < i {
                        data@[j]
                    } else {
                        0u8
                    }),
            decreases 0x8000 - i,
        {
            let b = data[i];
            memory.set(i, b);
            i = i + 1;
        }
        memory.set(0xFF00, 0xCF);
        memory.set(0xFF02, 0x7E);
        memory.set(0xFF04, 0xAB);
        memory.set(0xFF07, 0xF8);
        memory.set(0xFF0F, 0xE1);
        memory.set(0xFF10, 0x80);
        memory.set(0xFF11, 0xBF);
        memory.set(0xFF12, 0xF3);
        memory.set(0xFF13, 0xFF);
        memory.set(0xFF14, 0xBF);
        memory.set(0xFF16, 0x3F);
        memory.set(0xFF18, 0xFF);
        memory.set(0xFF19, 0xBF);
        memory.set(0xFF1A, 0x7F);
        memory.set(0xFF1B, 0xFF);
        memory.set(0xFF1C, 0x9F);
        memory.set(0xFF1D, 0xFF);
        memory.set(0xFF1E, 0xBF);
        memory.set(0xFF20, 0xFF);
        memory.set(0xFF23, 0xBF);
        memory.set(0xFF24, 0x77);
        memory.set(0xFF25, 0xF3);
        memory.set(0xFF26, 0xF1);
        memory.set(0xFF40, 0x91);
        memory.set(0xFF41, 0x85);
        memory.set(0xFF46, 0xFF);
        memory.set(0xFF47, 0xFC);
        let ghost gdata = data@;
        let cartridge = match create(data) {
            Ok(c) => c,
            Err(e) => {
                return Err(e);
            },
        };
        let r = MMU {
            memory,
            div_counter: 0xABCC,
            prev_and_result: false,
            dma_cycles_counter: 0,
            joypad: Joypad::new(),
            cartridge,
            serial_out: Vec::new(),
        };
        proof {
            assert(r.memory@ =~= Seq::new(0x10000, |i: int| spec_boot_byte(gdata, i)));
        }
        Ok(r)
    }

    pub fn read_byte(&self, address: u16) -> (r: u8)
        requires
            mmu_wf(self@),
        ensures
            r == mmu_read(self@, address),
    {
        if 0xA000 <= address && address < 0xC000 {
            0x00  // reads not allowed on external ram
        } else if 0xE000 <= address && address < 0xFE00 {
            self.memory[address as usize - 0x2000]
        } else if 0xFEA0 <= address && address < 0xFF00 {
            0x00  // reads not allowed on unusable region
        } else if address == 0xFF00 {
            self.joypad.read(self.memory[0xFF00])
        } else if address == 0xFF04 {
            (self.div_counter >> 8) as u8
        } else {
            self.memory[address as usize]
        }
    }

    pub fn write_byte(&mut self, address: u16, value: u8) -> (r: Result<(), EmuError>)
        requires
            mmu_wf(old(self)@),
        ensures
            final(self)@ == mmu_write_state(old(self)@, address, value),
            r == mmu_write_result(old(self)@, address, value),
            mmu_wf(final(self)@),
    {
        if address == 0xFF46 {
            self.dma_cycles_counter = 0x0280;
        }
        if address < 0x8000 || (0xA000 <= address && address < 0xC000) {
            self.cartridge.write_byte(address, value)
        } else if 0xE000 <= address && address < 0xFE00 {
            self.memory.set(address as usize - 0x2000, value);
            Ok(())
        } else if 0xFEA0 <= address && address < 0xFF00 {
            Ok(())
        } else if address == 0xFF00 {
            let cur = self.memory[0xFF00];
            self.memory.set(0xFF00, (cur & 0xCF) | (value & 0x30));
            Ok(())
        } else if address == 0xFF04 {
            self.div_counter = 0;
            Ok(())
        } else {
            self.memory.set(address as usize, value);
            Ok(())
        }
    }

    pub fn press_key(&mut self, button: Button)
        requires
            mmu_wf(old(self)@),
        ensures
            final(self)@ == spec_press_key(old(self)@, button),
            mmu_wf(final(self)@),
    {
        let sel = (self.memory[0xFF00] >> 4) & 0x03;
        if self.joypad.pressed(button) && sel < 0x03 {
            self.request_interrupt(4);
        }
    }

    pub fn release_key(&mut self, button: Button)
        ensures
            button is UNKNOWN ==> final(self)@ == old(self)@,
            !(button is UNKNOWN) ==> final(self)@ == (MmuV {
                joypad: old(self)@.joypad | (1u8 << spec_button_bit(button)),
                ..old(self)@
            }),
    {
        self.joypad.released(button);
    }

    /// OR the requested bit into the interrupt-flag register.  Valid bits
    /// are 0 (VBLANK) through 4 (joypad).
    pub fn request_interrupt(&mut self, bit: u8)
        requires
            mmu_wf(old(self)@),
            bit <= 4,
        ensures
            final(self)@ == (MmuV {
                mem: old(self)@.mem.update(0xFF0F, old(self)@.mem[0xFF0F] | (1u8 << bit)),
                ..old(self)@
            }),
            mmu_wf(final(self)@),
    {
        let cur = self.memory[0xFF0F];
        self.memory.set(0xFF0F, cur | (1u8 << bit));
    }

    /// Record one byte accepted by the serial debug hook.
    pub fn push_serial(&mut self, byte: u8)
        ensures
            final(self)@ == (MmuV { serial: old(self)@.serial.push(byte), ..old(self)@ }),
    {
        self.serial_out.push(byte);
    }

    /// Every byte the serial debug hook has emitted so far, oldest first.
    pub fn serial_output(&self) -> (r: &Vec<u8>)
        ensures
            r@ == self@.serial,
    {
        &self.serial_out
    }

    /// Advance the DMA countdown, DIV and the TIMA edge detector by
    /// `cycles` T-cycles, as `spec_timers` states.
    pub fn update_timers(&mut self, cycles: u16)
        requires
            mmu_wf(old(self)@),
        ensures
            final(self)@ == spec_timers(old(self)@, cycles),
            mmu_wf(final(self)@),
    {
        let ghost m0 = self@;
        if self.dma_cycles_counter > 0 {
            if self.dma_cycles_counter <= cycles {
                self.dma_cycles_counter = 0;
                let src: usize = (self.memory[0xFF46] as usize) * 0x100;
                let ghost pre = self.memory@;
                let mut i: usize = 0;
                while i < 0xA0
                    invariant
                        i <= 0xA0,
                        src == pre[0xFF46] * 0x100,
                        src % 0x100 == 0,
                        src <= 0xFF00,
                        self.memory@.len() == 0x10000,
                        pre.len() == 0x10000,
                        pre == m0.mem,
                        self.div_counter == m0.div_counter,
                        self.prev_and_result == m0.prev_and_result,
                        self.dma_cycles_counter == 0,
                        self.joypad.0 == m0.joypad,
                        self.cartridge@ == m0.cart,
                        cart_wf(m0.cart),
                        self.serial_out@ == m0.serial,
                        forall|k: int|
                            0 <= k < 0x10000 ==> self.memory@[k] == (if 0xFE00 <= k < 0xFE00 + i {
                                pre[src + (k - 0xFE00)]
                            } else {
                                pre[k]
                            }),
                    decreases 0xA0 - i,
                {
                    let b = self.memory[src + i];
                    proof {
                        assert(self.memory@[src + i] == pre[src + i]);
                    }
                    self.memory.set(0xFE00 + i, b);
                    i = i + 1;
                }
                proof {
                    assert(self.memory@ =~= spec_dma_copy(pre));
                }
            } else {
                self.dma_cycles_counter = self.dma_cycles_counter - cycles;
            }
        }
        self.div_counter = self.div_counter.wrapping_add(cycles);
        let tac = self.memory[0xFF07];
        let timer_enabled = is_bit_set(tac, 2);
        let div_counter_bit: u16 = if tac & 0x03 == 0x00 {
            9  // 4096 Hz tap
        } else if tac & 0x03 == 0x01 {
            3  // 262144 Hz tap
        } else if tac & 0x03 == 0x02 {
            5  // 65536 Hz tap
        } else {
            7  // 16384 Hz tap
        };
        let curr_div_bit_value = (self.div_counter >> div_counter_bit) & 0x01 == 0x01;
        let curr_and_result = curr_div_bit_value && timer_enabled;
        if self.prev_and_result && !curr_and_result {
            let prev_tima = self.memory[0xFF05];
            if prev_tima == 0xFF {
                let tma = self.memory[0xFF06];
                self.request_interrupt(2);
                self.memory.set(0xFF05, tma);
            } else {
                self.memory.set(0xFF05, prev_tima + 1);
            }
        }
        self.prev_and_result = curr_and_result;
    }
}


/// Echo RAM: a write anywhere in 0xE000..0xFE00 is read back at the
/// mirrored work-RAM address two pages below, and a write to the
/// mirrored work RAM is read back through the echo region.
pub proof fn lemma_echo_ram(m: MmuV, address: u16, value: u8)
    requires
        mmu_wf(m),
    ensures
        0xE000 <= address < 0xFE00 ==> mmu_read(
            mmu_write_state(m, address, value),
            (address - 0x2000) as u16,
        ) == value,
        0xC000 <= address < 0xDE00 ==> mmu_read(
            mmu_write_state(m, address, value),
            (address + 0x2000) as u16,
        ) == value,
{
}

/// Writing any value to 0xFF04 clears the whole internal DIV counter,
/// and reading 0xFF04 yields its high byte.
pub proof fn lemma_div_register(m: MmuV, value: u8)
    requires
        mmu_wf(m),
    ensures
        mmu_write_state(m, 0xFF04, value).div_counter == 0,
        mmu_read(m, 0xFF04) == (m.div_counter >> 8) as u8,
{
}


/// Memory and serial stream after the serial debug hook runs: a transfer
/// request byte 0x81 hands the data byte to the stream and clears the
/// request.
pub open spec fn serial_hook(m: MmuV) -> MmuV {
    if m.mem[0xFF02] == 0x81 {
        MmuV { serial: m.serial.push(m.mem[0xFF01]), mem: m.mem.update(0xFF02, 0), ..m }
    } else {
        m
    }
}

} // verus!
