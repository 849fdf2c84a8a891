//! The SM83 processor: register file, flag logic, fetch–execute
//! interpreter over the full base and CB-prefixed opcode sets, interrupt
//! dispatch and the HALT low-power state.  Every step reports the
//! canonical DMG T-cycle cost of what it executed.
use crate::EmuError;
use crate::mmu::MMU;
use crate::mmu::mmu_read;
use crate::mmu::mmu_wf;
use crate::mmu::mmu_write_result;
use crate::mmu::mmu_write_state;
use crate::mmu::serial_hook;
use crate::cartridge::cart_writes_ok;
use crate::cartridge::cart_writes_ok2;
use crate::utils::Checks;
use crate::utils::is_bit_set;
use crate::utils::spec_bit8;
use vstd::prelude::*;

verus! {

pub struct CPU {
    pub a: u8,
    pub f: u8,
    pub b: u8,
    pub c: u8,
    pub d: u8,
    pub e: u8,
    pub h: u8,
    pub l: u8,
    pub sp: u16,
    pub pc: u16,
    pub ime: bool,
    pub ime_scheduled: bool,
    pub low_power_mode: bool,
}

/// The low nibble of F is wired to zero.
pub open spec fn cpu_wf(c: CPU) -> bool {
    c.f & 0x0F == 0
}

/// Sixteen-bit addition and subtraction that wrap, and their byte form.
pub open spec fn w_add16(a: u16, d: u16) -> u16 {
    if a + d > 0xFFFF {
        (a + d - 0x10000) as u16
    } else {
        (a + d) as u16
    }
}

pub open spec fn w_sub16(a: u16, d: u16) -> u16 {
    if a - d < 0 {
        (a - d + 0x10000) as u16
    } else {
        (a - d) as u16
    }
}

pub open spec fn w_add8(a: u8, d: u8) -> u8 {
    if a + d > 0xFF {
        (a + d - 0x100) as u8
    } else {
        (a + d) as u8
    }
}

pub open spec fn w_sub8(a: u8, d: u8) -> u8 {
    if a - d < 0 {
        (a - d + 0x100) as u8
    } else {
        (a - d) as u8
    }
}

pub open spec fn spec_af(c: CPU) -> u16 {
    c.f as u16 | ((c.a as u16) << 8)
}

pub open spec fn spec_bc(c: CPU) -> u16 {
    c.c as u16 | ((c.b as u16) << 8)
}

pub open spec fn spec_de(c: CPU) -> u16 {
    c.e as u16 | ((c.d as u16) << 8)
}

pub open spec fn spec_hl(c: CPU) -> u16 {
    c.l as u16 | ((c.h as u16) << 8)
}

/// Register named by a three-bit opcode field; index six is the (HL)
/// memory operand and is never passed here.
pub open spec fn spec_reg8(c: CPU, idx: u8) -> u8 {
    if idx == 0 {
        c.b
    } else if idx == 1 {
        c.c
    } else if idx == 2 {
        c.d
    } else if idx == 3 {
        c.e
    } else if idx == 4 {
        c.h
    } else if idx == 5 {
        c.l
    } else {
        c.a
    }
}

pub open spec fn spec_set_reg8(c: CPU, idx: u8, v: u8) -> CPU {
    if idx == 0 {
        CPU { b: v, ..c }
    } else if idx == 1 {
        CPU { c: v, ..c }
    } else if idx == 2 {
        CPU { d: v, ..c }
    } else if idx == 3 {
        CPU { e: v, ..c }
    } else if idx == 4 {
        CPU { h: v, ..c }
    } else if idx == 5 {
        CPU { l: v, ..c }
    } else {
        CPU { a: v, ..c }
    }
}

/// Splitting a sixteen-bit value into bytes and pairing them again gives
/// the value back.
pub proof fn lemma_pair(lo: u8, hi: u8, v: u16)
    by (bit_vector)
    requires
        lo == v as u8,
        hi == (v >> 8) as u8,
    ensures
        (lo as u16 | ((hi as u16) << 8)) == v,
{
}

/// How forcing one flag bit moves the flag byte.
proof fn lemma_flag_ops()
    by (bit_vector)
    ensures
        forall|f: u8, b: u8| b < 8 ==> ((#[trigger] (f | (1u8 << b))) >> b) & 1 == 1,
        forall|f: u8, b: u8, k: u8|
            b < 8 && k < 8 && b != k ==> #[trigger] (((f | (1u8 << b)) >> k) & 1) == (f >> k) & 1,
        forall|f: u8, b: u8| b < 8 ==> ((#[trigger] (f & !(1u8 << b))) >> b) & 1 == 0,
        forall|f: u8, b: u8, k: u8|
            b < 8 && k < 8 && b != k ==> #[trigger] (((f & !(1u8 << b)) >> k) & 1) == (f >> k)
                & 1,
        forall|f: u8, b: u8| 4 <= b < 8 ==> ((#[trigger] (f | (1u8 << b))) & 0x0F) == (f & 0x0F),
        forall|f: u8, b: u8|
            4 <= b < 8 ==> ((#[trigger] (f & !(1u8 << b))) & 0x0F) == (f & 0x0F),
{
}

impl CPU {
    /// Post-boot register file, as the hardware hands control to the
    /// cartridge at 0x0100.
    pub fn new() -> (r: CPU)
        ensures
            r.a == 0x01 && r.f == 0xB0 && r.b == 0x00 && r.c == 0x13,
            r.d == 0x00 && r.e == 0xD8 && r.h == 0x01 && r.l == 0x4D,
            r.sp == 0xFFFE && r.pc == 0x0100,
            !r.ime && !r.ime_scheduled && !r.low_power_mode,
            cpu_wf(r),
    {
        proof {
            assert(0xB0u8 & 0x0F == 0) by (bit_vector);
        }
        CPU {
            a: 0x01,
            f: 0xB0,
            b: 0x00,
            c: 0x13,
            d: 0x00,
            e: 0xD8,
            h: 0x01,
            l: 0x4D,
            sp: 0xFFFE,
            pc: 0x0100,
            ime: false,
            ime_scheduled: false,
            low_power_mode: false,
        }
    }

    fn af(&self) -> (r: u16)
        ensures
            r == spec_af(*self),
    {
        self.f as u16 | (self.a as u16) << 8
    }

    fn bc(&self) -> (r: u16)
        ensures
            r == spec_bc(*self),
    {
        self.c as u16 | (self.b as u16) << 8
    }

    fn de(&self) -> (r: u16)
        ensures
            r == spec_de(*self),
    {
        self.e as u16 | (self.d as u16) << 8
    }

    fn hl(&self) -> (r: u16)
        ensures
            r == spec_hl(*self),
    {
        self.l as u16 | (self.h as u16) << 8
    }

    fn set_af(&mut self, val: u16)
        ensures
            *final(self) == (CPU {
                a: (val >> 8) as u8,
                f: (val & 0xFFF0) as u8,
                ..*old(self)
            }),
            cpu_wf(*final(self)),
    {
        proof {
            assert((((val & 0xFFF0) as u8) & 0x0F) == 0) by (bit_vector);
        }
        self.f = (val & 0xFFF0) as u8;
        self.a = (val >> 8) as u8;
    }

    fn set_bc(&mut self, val: u16)
        ensures
            *final(self) == (CPU { b: (val >> 8) as u8, c: val as u8, ..*old(self) }),
    {
        self.c = val as u8;
        self.b = (val >> 8) as u8;
    }

    fn set_de(&mut self, val: u16)
        ensures
            *final(self) == (CPU { d: (val >> 8) as u8, e: val as u8, ..*old(self) }),
    {
        self.e = val as u8;
        self.d = (val >> 8) as u8;
    }

    fn set_hl(&mut self, val: u16)
        ensures
            *final(self) == (CPU { h: (val >> 8) as u8, l: val as u8, ..*old(self) }),
    {
        self.l = val as u8;
        self.h = (val >> 8) as u8;
    }

    fn set_flag(&mut self, bit: u8, flag: bool)
        requires
            bit < 8,
        ensures
            *final(self) == (CPU {
                f: if flag {
                    old(self).f | (1u8 << bit)
                } else {
                    old(self).f & !(1u8 << bit)
                },
                ..*old(self)
            }),
    {
        match flag {
            true => {
                self.f = self.f | (1u8 << bit);
            },
            false => {
                self.f = self.f & !(1u8 << bit);
            },
        };
    }

    fn get_z_flag(&self) -> (r: bool)
        ensures
            r == spec_bit8(self.f, 7),
    {
        (self.f >> 7) & 0x01 == 0x01
    }

    fn set_z_flag(&mut self, flag: bool)
        ensures
            spec_bit8(final(self).f, 7) == flag,
            spec_bit8(final(self).f, 6) == spec_bit8(old(self).f, 6),
            spec_bit8(final(self).f, 5) == spec_bit8(old(self).f, 5),
            spec_bit8(final(self).f, 4) == spec_bit8(old(self).f, 4),
            final(self).f & 0x0F == old(self).f & 0x0F,
            *final(self) == (CPU { f: final(self).f, ..*old(self) }),
    {
        proof {
            lemma_flag_ops();
        }
        self.set_flag(7, flag);
    }

    fn get_n_flag(&self) -> (r: bool)
        ensures
            r == spec_bit8(self.f, 6),
    {
        (self.f >> 6) & 0x01 == 0x01
    }

    fn set_n_flag(&mut self, flag: bool)
        ensures
            spec_bit8(final(self).f, 6) == flag,
            spec_bit8(final(self).f, 7) == spec_bit8(old(self).f, 7),
            spec_bit8(final(self).f, 5) == spec_bit8(old(self).f, 5),
            spec_bit8(final(self).f, 4) == spec_bit8(old(self).f, 4),
            final(self).f & 0x0F == old(self).f & 0x0F,
            *final(self) == (CPU { f: final(self).f, ..*old(self) }),
    {
        proof {
            lemma_flag_ops();
        }
        self.set_flag(6, flag);
    }

    fn get_h_flag(&self) -> (r: bool)
        ensures
            r == spec_bit8(self.f, 5),
    {
        (self.f >> 5) & 0x01 == 0x01
    }

    fn set_h_flag(&mut self, flag: bool)
        ensures
            spec_bit8(final(self).f, 5) == flag,
            spec_bit8(final(self).f, 7) == spec_bit8(old(self).f, 7),
            spec_bit8(final(self).f, 6) == spec_bit8(old(self).f, 6),
            spec_bit8(final(self).f, 4) == spec_bit8(old(self).f, 4),
            final(self).f & 0x0F == old(self).f & 0x0F,
            *final(self) == (CPU { f: final(self).f, ..*old(self) }),
    {
        proof {
            lemma_flag_ops();
        }
        self.set_flag(5, flag);
    }

    fn get_c_flag(&self) -> (r: bool)
        ensures
            r == spec_bit8(self.f, 4),
    {
        (self.f >> 4) & 0x01 == 0x01
    }

    fn set_c_flag(&mut self, flag: bool)
        ensures
            spec_bit8(final(self).f, 4) == flag,
            spec_bit8(final(self).f, 7) == spec_bit8(old(self).f, 7),
            spec_bit8(final(self).f, 6) == spec_bit8(old(self).f, 6),
            spec_bit8(final(self).f, 5) == spec_bit8(old(self).f, 5),
            final(self).f & 0x0F == old(self).f & 0x0F,
            *final(self) == (CPU { f: final(self).f, ..*old(self) }),
    {
        proof {
            lemma_flag_ops();
        }
        self.set_flag(4, flag);
    }

    /// Fetch one byte at PC and step past it.
    fn get_byte(&mut self, mmu: &MMU) -> (r: u8)
        requires
            mmu_wf(mmu@),
        ensures
            r == mmu_read(mmu@, old(self).pc),
            *final(self) == (CPU { pc: w_add16(old(self).pc, 1), ..*old(self) }),
    {
        let byte = mmu.read_byte(self.pc);
        self.pc = self.pc.wrapping_add(1);
        byte
    }

    /// Push a sixteen-bit value, high byte first.  Either write can hit
    /// enabled cartridge RAM and fail there; a failure after the first
    /// write leaves SP moved by one.
    fn push_stack(&mut self, mmu: &mut MMU, val: u16) -> (r: Result<(), EmuError>)
        requires
            mmu_wf(old(mmu)@),
        ensures
            mmu_wf(final(mmu)@),
            ({
                let sp1 = w_sub16(old(self).sp, 1);
                let hi = (val >> 8) as u8;
                let m1 = mmu_write_state(old(mmu)@, sp1, hi);
                let sp2 = w_sub16(old(self).sp, 2);
                let lo = val as u8;
                match r {
                    Ok(_) => {
                        &&& mmu_write_result(old(mmu)@, sp1, hi) is Ok
                        &&& mmu_write_result(m1, sp2, lo) is Ok
                        &&& final(mmu)@ == mmu_write_state(m1, sp2, lo)
                        &&& *final(self) == (CPU { sp: sp2, ..*old(self) })
                    },
                    Err(e) => {
                        ||| {
                            &&& mmu_write_result(old(mmu)@, sp1, hi) == Err::<(), EmuError>(e)
                            &&& final(mmu)@ == m1
                            &&& *final(self) == (CPU { sp: sp1, ..*old(self) })
                        }
                        ||| {
                            &&& mmu_write_result(old(mmu)@, sp1, hi) is Ok
                            &&& mmu_write_result(m1, sp2, lo) == Err::<(), EmuError>(e)
                            &&& final(mmu)@ == mmu_write_state(m1, sp2, lo)
                            &&& *final(self) == (CPU { sp: sp2, ..*old(self) })
                        }
                    },
                }
            }),
    {
        self.sp = self.sp.wrapping_sub(1);
        match mmu.write_byte(self.sp, (val >> 8) as u8) {
            Ok(_) => {},
            Err(e) => {
                return Err(e);
            },
        }
        self.sp = self.sp.wrapping_sub(1);
        mmu.write_byte(self.sp, val as u8)
    }

    /// Pop a sixteen-bit value, low byte first.
    fn pop_stack(&mut self, mmu: &MMU) -> (r: u16)
        requires
            mmu_wf(mmu@),
        ensures
            r == (mmu_read(mmu@, old(self).sp) as u16) | ((mmu_read(
                mmu@,
                w_add16(old(self).sp, 1),
            ) as u16) << 8),
            *final(self) == (CPU { sp: w_add16(old(self).sp, 2), ..*old(self) }),
    {
        let l = mmu.read_byte(self.sp);
        self.sp = self.sp.wrapping_add(1);
        let h = mmu.read_byte(self.sp);
        self.sp = self.sp.wrapping_add(1);
        (l as u16) | ((h as u16) << 8)
    }
}

/// Byte result of an add with carry-in, as the accumulator wraps it.
pub open spec fn add_res(a: u8, x: u8, cin: u8) -> u8 {
    w_add8(w_add8(a, x), cin)
}

/// Byte result of a subtract with borrow-in.
pub open spec fn sub_res(a: u8, x: u8, cin: u8) -> u8 {
    w_sub8(w_sub8(a, x), cin)
}

/// Wrapped sixteen-bit add of a signed byte offset.
pub open spec fn w_add_signed16(a: u16, d: int) -> u16 {
    if a + d > 0xFFFF {
        (a + d - 0x10000) as u16
    } else if a + d < 0 {
        (a + d + 0x10000) as u16
    } else {
        (a + d) as u16
    }
}

/// Decimal-adjusted accumulator and carry after DAA: in subtract mode the
/// flags alone choose the correction; in add mode a low nibble above nine
/// or a value above 0x99 does too, and the carry latches for values above
/// 0x99.
pub open spec fn spec_daa(a: u8, n: bool, h: bool, c: bool) -> (u8, bool) {
    if n {
        (
            w_sub8(
                a,
                ((if h {
                    0x06int
                } else {
                    0int
                }) + (if c {
                    0x60int
                } else {
                    0int
                })) as u8,
            ),
            c,
        )
    } else {
        (
            w_add8(
                a,
                ((if h || a & 0x0F > 0x09 {
                    0x06int
                } else {
                    0int
                }) + (if c || a > 0x99 {
                    0x60int
                } else {
                    0int
                })) as u8,
            ),
            c || a > 0x99,
        )
    }
}

impl CPU {
    /// A := A + x + cin with the four flags of an eight-bit addition.
    fn add_a(&mut self, x: u8, cin: u8)
        requires
            cin <= 1,
        ensures
            final(self).a == add_res(old(self).a, x, cin),
            spec_bit8(final(self).f, 7) == (add_res(old(self).a, x, cin) == 0),
            spec_bit8(final(self).f, 6) == false,
            spec_bit8(final(self).f, 5) == <u8 as Checks>::spec_half_carry_add(old(self).a, x, cin),
            spec_bit8(final(self).f, 4) == <u8 as Checks>::spec_carry_add(old(self).a, x, cin),
            final(self).f & 0x0F == old(self).f & 0x0F,
            *final(self) == (CPU { a: final(self).a, f: final(self).f, ..*old(self) }),
    {
        let h = u8::check_half_carry_add(self.a, x, cin);
        self.set_h_flag(h);
        let c = u8::check_carry_add(self.a, x, cin);
        self.set_c_flag(c);
        self.a = self.a.wrapping_add(x).wrapping_add(cin);
        let z = self.a == 0x00;
        self.set_z_flag(z);
        self.set_n_flag(false);
    }

    /// A := A - x - cin with the four flags of an eight-bit subtraction.
    fn sub_a(&mut self, x: u8, cin: u8)
        requires
            cin <= 1,
        ensures
            final(self).a == sub_res(old(self).a, x, cin),
            spec_bit8(final(self).f, 7) == (sub_res(old(self).a, x, cin) == 0),
            spec_bit8(final(self).f, 6) == true,
            spec_bit8(final(self).f, 5) == <u8 as Checks>::spec_half_carry_sub(old(self).a, x, cin),
            spec_bit8(final(self).f, 4) == <u8 as Checks>::spec_carry_sub(old(self).a, x, cin),
            final(self).f & 0x0F == old(self).f & 0x0F,
            *final(self) == (CPU { a: final(self).a, f: final(self).f, ..*old(self) }),
    {
        let h = u8::check_half_carry_sub(self.a, x, cin);
        self.set_h_flag(h);
        let c = u8::check_carry_sub(self.a, x, cin);
        self.set_c_flag(c);
        self.a = self.a.wrapping_sub(x).wrapping_sub(cin);
        let z = self.a == 0x00;
        self.set_z_flag(z);
        self.set_n_flag(true);
    }

    /// Compare A with x: the flags of the subtraction, A unchanged.
    fn cp_a(&mut self, x: u8)
        ensures
            spec_bit8(final(self).f, 7) == (sub_res(old(self).a, x, 0) == 0),
            spec_bit8(final(self).f, 6) == true,
            spec_bit8(final(self).f, 5) == <u8 as Checks>::spec_half_carry_sub(old(self).a, x, 0),
            spec_bit8(final(self).f, 4) == <u8 as Checks>::spec_carry_sub(old(self).a, x, 0),
            final(self).f & 0x0F == old(self).f & 0x0F,
            *final(self) == (CPU { f: final(self).f, ..*old(self) }),
    {
        let h = u8::check_half_carry_sub(self.a, x, 0);
        self.set_h_flag(h);
        let c = u8::check_carry_sub(self.a, x, 0);
        self.set_c_flag(c);
        let z = self.a.wrapping_sub(x) == 0x00;
        self.set_z_flag(z);
        self.set_n_flag(true);
    }

    /// A := A & x; the AND of the arithmetic unit sets the half-carry.
    fn and_a(&mut self, x: u8)
        ensures
            final(self).a == (old(self).a & x),
            spec_bit8(final(self).f, 7) == ((old(self).a & x) == 0),
            spec_bit8(final(self).f, 6) == false,
            spec_bit8(final(self).f, 5) == true,
            spec_bit8(final(self).f, 4) == false,
            final(self).f & 0x0F == old(self).f & 0x0F,
            *final(self) == (CPU { a: final(self).a, f: final(self).f, ..*old(self) }),
    {
        self.a = self.a & x;
        let z = self.a == 0x00;
        self.set_z_flag(z);
        self.set_n_flag(false);
        self.set_h_flag(true);
        self.set_c_flag(false);
    }

    fn xor_a(&mut self, x: u8)
        ensures
            final(self).a == (old(self).a ^ x),
            spec_bit8(final(self).f, 7) == ((old(self).a ^ x) == 0),
            spec_bit8(final(self).f, 6) == false,
            spec_bit8(final(self).f, 5) == false,
            spec_bit8(final(self).f, 4) == false,
            final(self).f & 0x0F == old(self).f & 0x0F,
            *final(self) == (CPU { a: final(self).a, f: final(self).f, ..*old(self) }),
    {
        self.a = self.a ^ x;
        let z = self.a == 0x00;
        self.set_z_flag(z);
        self.set_n_flag(false);
        self.set_h_flag(false);
        self.set_c_flag(false);
    }

    fn or_a(&mut self, x: u8)
        ensures
            final(self).a == (old(self).a | x),
            spec_bit8(final(self).f, 7) == ((old(self).a | x) == 0),
            spec_bit8(final(self).f, 6) == false,
            spec_bit8(final(self).f, 5) == false,
            spec_bit8(final(self).f, 4) == false,
            final(self).f & 0x0F == old(self).f & 0x0F,
            *final(self) == (CPU { a: final(self).a, f: final(self).f, ..*old(self) }),
    {
        self.a = self.a | x;
        let z = self.a == 0x00;
        self.set_z_flag(z);
        self.set_n_flag(false);
        self.set_h_flag(false);
        self.set_c_flag(false);
    }

    /// Increment a byte: Z and H from the result, N cleared, C untouched.
    fn inc8(&mut self, v: u8) -> (r: u8)
        ensures
            r == w_add8(v, 1),
            spec_bit8(final(self).f, 7) == (w_add8(v, 1) == 0),
            spec_bit8(final(self).f, 6) == false,
            spec_bit8(final(self).f, 5) == (w_add8(v, 1) & 0x0F == 0),
            spec_bit8(final(self).f, 4) == spec_bit8(old(self).f, 4),
            final(self).f & 0x0F == old(self).f & 0x0F,
            *final(self) == (CPU { f: final(self).f, ..*old(self) }),
    {
        let r = v.wrapping_add(1);
        self.set_z_flag(r == 0x00);
        self.set_n_flag(false);
        self.set_h_flag(r & 0x0F == 0x00);
        r
    }

    /// Decrement a byte: H from the borrow out of the low nibble, N set,
    /// C untouched.
    fn dec8(&mut self, v: u8) -> (r: u8)
        ensures
            r == w_sub8(v, 1),
            spec_bit8(final(self).f, 7) == (w_sub8(v, 1) == 0),
            spec_bit8(final(self).f, 6) == true,
            spec_bit8(final(self).f, 5) == <u8 as Checks>::spec_half_carry_sub(v, 1, 0),
            spec_bit8(final(self).f, 4) == spec_bit8(old(self).f, 4),
            final(self).f & 0x0F == old(self).f & 0x0F,
            *final(self) == (CPU { f: final(self).f, ..*old(self) }),
    {
        let h = u8::check_half_carry_sub(v, 1, 0x00);
        self.set_h_flag(h);
        let r = v.wrapping_sub(1);
        self.set_z_flag(r == 0x00);
        self.set_n_flag(true);
        r
    }

    /// HL := HL + rr: N cleared, H from bit eleven, C from bit fifteen, Z
    /// untouched.
    fn add_hl(&mut self, rr: u16)
        ensures
            spec_hl(*final(self)) == w_add16(spec_hl(*old(self)), rr),
            final(self).h == (w_add16(spec_hl(*old(self)), rr) >> 8) as u8,
            final(self).l == w_add16(spec_hl(*old(self)), rr) as u8,
            spec_bit8(final(self).f, 7) == spec_bit8(old(self).f, 7),
            spec_bit8(final(self).f, 6) == false,
            spec_bit8(final(self).f, 5) == <u16 as Checks>::spec_half_carry_add(
                spec_hl(*old(self)),
                rr,
                0,
            ),
            spec_bit8(final(self).f, 4) == <u16 as Checks>::spec_carry_add(
                spec_hl(*old(self)),
                rr,
                0,
            ),
            final(self).f & 0x0F == old(self).f & 0x0F,
            *final(self) == (CPU {
                h: final(self).h,
                l: final(self).l,
                f: final(self).f,
                ..*old(self)
            }),
    {
        let hl = self.hl();
        let h = u16::check_half_carry_add(hl, rr, 0x0000);
        self.set_h_flag(h);
        let c = u16::check_carry_add(hl, rr, 0x0000);
        self.set_c_flag(c);
        let nv = hl.wrapping_add(rr);
        self.set_hl(nv);
        self.set_n_flag(false);
        proof {
            let hh = self.h;
            let ll = self.l;
            let target = w_add16(spec_hl(*old(self)), rr);
            assert(ll as u16 | ((hh as u16) << 8) == target) by (bit_vector)
                requires
                    hh == (target >> 8) as u8,
                    ll == target as u8,
            ;
        }
    }

    /// Decimal adjust of the accumulator, as `spec_daa` states; Z from
    /// the result, H cleared, N and the other registers untouched.
    fn daa(&mut self)
        ensures
            final(self).a == spec_daa(
                old(self).a,
                spec_bit8(old(self).f, 6),
                spec_bit8(old(self).f, 5),
                spec_bit8(old(self).f, 4),
            ).0,
            spec_bit8(final(self).f, 7) == (final(self).a == 0),
            spec_bit8(final(self).f, 6) == spec_bit8(old(self).f, 6),
            spec_bit8(final(self).f, 5) == false,
            spec_bit8(final(self).f, 4) == spec_daa(
                old(self).a,
                spec_bit8(old(self).f, 6),
                spec_bit8(old(self).f, 5),
                spec_bit8(old(self).f, 4),
            ).1,
            final(self).f & 0x0F == old(self).f & 0x0F,
            *final(self) == (CPU { a: final(self).a, f: final(self).f, ..*old(self) }),
    {
        if self.get_n_flag() {
            let mut adjustment: u8 = 0;
            if self.get_h_flag() {
                adjustment = adjustment + 0x06;
            }
            if self.get_c_flag() {
                adjustment = adjustment + 0x60;
            }
            self.a = self.a.wrapping_sub(adjustment);
        } else {
            let mut adjustment: u8 = 0;
            if self.get_h_flag() || self.a & 0x0F > 0x09 {
                adjustment = adjustment + 0x06;
            }
            if self.get_c_flag() || self.a > 0x99 {
                adjustment = adjustment + 0x60;
                self.set_c_flag(true);
            }
            self.a = self.a.wrapping_add(adjustment);
        }
        let z = self.a == 0x00;
        self.set_z_flag(z);
        self.set_h_flag(false);
    }

    /// Relative jump: consume the signed offset, take it when `taken`,
    /// and report the cost of that choice.
    fn jr(&mut self, mmu: &MMU, taken: bool) -> (r: u16)
        requires
            mmu_wf(mmu@),
        ensures
            ({
                let off = mmu_read(mmu@, old(self).pc) as i8;
                let pc1 = w_add16(old(self).pc, 1);
                if taken {
                    r == 12 && *final(self) == (CPU {
                        pc: w_add_signed16(pc1, off as int),
                        ..*old(self)
                    })
                } else {
                    r == 8 && *final(self) == (CPU { pc: pc1, ..*old(self) })
                }
            }),
    {
        let x = self.get_byte(mmu) as i8;
        if taken {
            self.pc = self.pc.wrapping_add_signed(x as i16);
            12
        } else {
            8
        }
    }
}

/// Canonical DMG T-cycle cost of a base-table opcode; `taken` matters
/// only for the conditional jumps, calls and returns.
pub open spec fn base_cycles(op: u8, taken: bool) -> u16 {
    if op < 0x40 {
        if op == 0x00 {
            4
        } else if op == 0x01 || op == 0x11 || op == 0x21 || op == 0x31 {
            12
        } else if op == 0x02 || op == 0x12 || op == 0x22 || op == 0x32 {
            8
        } else if op == 0x03 || op == 0x13 || op == 0x23 || op == 0x33 {
            8
        } else if op == 0x04 || op == 0x14 || op == 0x24 {
            4
        } else if op == 0x05 || op == 0x15 || op == 0x25 {
            4
        } else if op == 0x06 || op == 0x16 || op == 0x26 {
            8
        } else if op == 0x07 || op == 0x17 || op == 0x27 || op == 0x37 {
            4
        } else if op == 0x08 {
            20
        } else if op == 0x09 || op == 0x19 || op == 0x29 || op == 0x39 {
            8
        } else if op == 0x0A || op == 0x1A || op == 0x2A || op == 0x3A {
            8
        } else if op == 0x0B || op == 0x1B || op == 0x2B || op == 0x3B {
            8
        } else if op == 0x0C || op == 0x1C || op == 0x2C || op == 0x3C {
            4
        } else if op == 0x0D || op == 0x1D || op == 0x2D || op == 0x3D {
            4
        } else if op == 0x0E || op == 0x1E || op == 0x2E || op == 0x3E {
            8
        } else if op == 0x0F || op == 0x1F || op == 0x2F || op == 0x3F {
            4
        } else if op == 0x10 {
            8
        } else if op == 0x18 {
            12
        } else if op == 0x20 || op == 0x28 || op == 0x30 || op == 0x38 {
            if taken {
                12
            } else {
                8
            }
        } else if op == 0x34 || op == 0x35 || op == 0x36 {
            12
        } else {
            4
        }
    } else if op < 0x80 {
        if op == 0x76 {
            4
        } else if (op & 0x07) == 6 || ((op >> 3) & 0x07) == 6 {
            8
        } else {
            4
        }
    } else if op < 0xC0 {
        if (op & 0x07) == 6 {
            8
        } else {
            4
        }
    } else {
        if op == 0xC0 || op == 0xC8 || op == 0xD0 || op == 0xD8 {
            if taken {
                20
            } else {
                8
            }
        } else if op == 0xC1 || op == 0xD1 || op == 0xE1 || op == 0xF1 {
            12
        } else if op == 0xC2 || op == 0xCA || op == 0xD2 || op == 0xDA {
            if taken {
                16
            } else {
                12
            }
        } else if op == 0xC3 {
            16
        } else if op == 0xC4 || op == 0xCC || op == 0xD4 || op == 0xDC {
            if taken {
                24
            } else {
                12
            }
        } else if op == 0xC5 || op == 0xD5 || op == 0xE5 || op == 0xF5 {
            16
        } else if op == 0xC6 || op == 0xCE || op == 0xD6 || op == 0xDE || op == 0xE6 || op == 0xEE
            || op == 0xF6 || op == 0xFE {
            8
        } else if op == 0xC7 || op == 0xCF || op == 0xD7 || op == 0xDF || op == 0xE7 || op == 0xEF
            || op == 0xF7 || op == 0xFF {
            16
        } else if op == 0xC9 || op == 0xD9 {
            16
        } else if op == 0xCD {
            24
        } else if op == 0xE0 || op == 0xF0 {
            12
        } else if op == 0xE2 || op == 0xF2 {
            8
        } else if op == 0xE8 {
            16
        } else if op == 0xE9 {
            4
        } else if op == 0xEA || op == 0xFA {
            16
        } else if op == 0xF3 || op == 0xFB {
            4
        } else if op == 0xF8 {
            12
        } else if op == 0xF9 {
            8
        } else {
            0
        }
    }
}

/// Whether a conditional opcode's condition holds under flag byte `f`.
/// Unconditional opcodes count as taken.
pub open spec fn branch_taken(op: u8, f: u8) -> bool {
    if op == 0x20 || op == 0xC0 || op == 0xC2 || op == 0xC4 {
        !spec_bit8(f, 7)
    } else if op == 0x28 || op == 0xC8 || op == 0xCA || op == 0xCC {
        spec_bit8(f, 7)
    } else if op == 0x30 || op == 0xD0 || op == 0xD2 || op == 0xD4 {
        !spec_bit8(f, 4)
    } else if op == 0x38 || op == 0xD8 || op == 0xDA || op == 0xDC {
        spec_bit8(f, 4)
    } else {
        true
    }
}

/// T-cycle cost of a CB-prefixed opcode, the prefix fetch included.
pub open spec fn cb_cycles(op2: u8) -> u16 {
    if (op2 & 0x07) == 6 {
        if 0x40 <= op2 && op2 < 0x80 {
            12
        } else {
            16
        }
    } else {
        8
    }
}

/// Cost of the instruction starting with `op` (second byte `op2` for the
/// CB prefix) under flag byte `f`.
pub open spec fn spec_instr_cycles(op: u8, op2: u8, f: u8) -> u16 {
    if op == 0xCB {
        cb_cycles(op2)
    } else {
        base_cycles(op, branch_taken(op, f))
    }
}

/// The eleven opcodes the DMG leaves undefined.
pub open spec fn is_illegal(op: u8) -> bool {
    op == 0xD3 || op == 0xDB || op == 0xDD || op == 0xE3 || op == 0xE4 || op == 0xEB || op == 0xEC
        || op == 0xED || op == 0xF4 || op == 0xFC || op == 0xFD
}

impl CPU {
    fn get_reg8(&self, idx: u8) -> (r: u8)
        requires
            idx < 8,
            idx != 6,
        ensures
            r == spec_reg8(*self, idx),
    {
        if idx == 0 {
            self.b
        } else if idx == 1 {
            self.c
        } else if idx == 2 {
            self.d
        } else if idx == 3 {
            self.e
        } else if idx == 4 {
            self.h
        } else if idx == 5 {
            self.l
        } else {
            self.a
        }
    }

    fn set_reg8(&mut self, idx: u8, v: u8)
        requires
            idx < 8,
            idx != 6,
        ensures
            *final(self) == spec_set_reg8(*old(self), idx, v),
    {
        if idx == 0 {
            self.b = v;
        } else if idx == 1 {
            self.c = v;
        } else if idx == 2 {
            self.d = v;
        } else if idx == 3 {
            self.e = v;
        } else if idx == 4 {
            self.h = v;
        } else if idx == 5 {
            self.l = v;
        } else {
            self.a = v;
        }
    }

    /// Opcodes 0x40..0x7F: the eight-bit register moves, with (HL) as
    /// source or destination, and HALT in the hole at 0x76.
    fn exec_ld_block(&mut self, opcode: u8, mmu: &mut MMU) -> (r: Result<u16, EmuError>)
        requires
            0x40 <= opcode < 0x80,
            mmu_wf(old(mmu)@),
        ensures
            mmu_wf(final(mmu)@),
            cart_writes_ok(old(mmu)@.cart) ==> r is Ok,
            r is Ok ==> r->Ok_0 == base_cycles(opcode, true),
            opcode == 0x76 ==> r is Ok && *final(self) == (CPU {
                low_power_mode: true,
                ..*old(self)
            }) && final(mmu)@ == old(mmu)@,
            opcode != 0x76 && (opcode >> 3) & 0x07 == 6 ==> ({
                let hl = spec_hl(*old(self));
                let v = spec_reg8(*old(self), opcode & 0x07);
                &&& *final(self) == *old(self)
                &&& final(mmu)@ == mmu_write_state(old(mmu)@, hl, v)
                &&& r == (match mmu_write_result(old(mmu)@, hl, v) {
                    Ok(_) => Ok::<u16, EmuError>(8),
                    Err(e) => Err::<u16, EmuError>(e),
                })
            }),
            opcode != 0x76 && (opcode >> 3) & 0x07 != 6 && opcode & 0x07 == 6 ==> r is Ok
                && *final(self) == spec_set_reg8(
                *old(self),
                (opcode >> 3) & 0x07,
                mmu_read(old(mmu)@, spec_hl(*old(self))),
            ) && final(mmu)@ == old(mmu)@,
            opcode != 0x76 && (opcode >> 3) & 0x07 != 6 && opcode & 0x07 != 6 ==> r is Ok
                && *final(self) == spec_set_reg8(
                *old(self),
                (opcode >> 3) & 0x07,
                spec_reg8(*old(self), opcode & 0x07),
            ) && final(mmu)@ == old(mmu)@,
    {
        if opcode == 0x76 {
            self.low_power_mode = true;
            return Ok(4);
        }
        let src = opcode & 0x07;
        let dst = (opcode >> 3) & 0x07;
        proof {
            assert(src < 8 && dst < 8 && !(src == 6 && dst == 6)) by (bit_vector)
                requires
                    src == opcode & 0x07,
                    dst == (opcode >> 3) & 0x07,
                    0x40 <= opcode < 0x80,
                    opcode != 0x76,
            ;
        }
        if dst == 6 {
            let v = self.get_reg8(src);
            match mmu.write_byte(self.hl(), v) {
                Ok(_) => Ok(8),
                Err(e) => Err(e),
            }
        } else if src == 6 {
            let v = mmu.read_byte(self.hl());
            self.set_reg8(dst, v);
            Ok(8)
        } else {
            let v = self.get_reg8(src);
            self.set_reg8(dst, v);
            Ok(4)
        }
    }

    /// Opcodes 0x80..0xBF: the eight accumulator operations, each over
    /// the eight operands.
    fn exec_alu_block(&mut self, opcode: u8, mmu: &MMU) -> (r: u16)
        requires
            0x80 <= opcode < 0xC0,
            mmu_wf(mmu@),
        ensures
            r == base_cycles(opcode, true),
            ({
                let kind = (opcode >> 3) & 0x07;
                let x = if opcode & 0x07 == 6 {
                    mmu_read(mmu@, spec_hl(*old(self)))
                } else {
                    spec_reg8(*old(self), opcode & 0x07)
                };
                let cin: u8 = if (kind == 1 || kind == 3) && spec_bit8(old(self).f, 4) {
                    1
                } else {
                    0
                };
                let a0 = old(self).a;
                &&& *final(self) == (CPU { a: final(self).a, f: final(self).f, ..*old(self) })
                &&& final(self).f & 0x0F == old(self).f & 0x0F
                &&& (kind == 0 || kind == 1) ==> {
                    &&& final(self).a == add_res(a0, x, cin)
                    &&& spec_bit8(final(self).f, 7) == (add_res(a0, x, cin) == 0)
                    &&& spec_bit8(final(self).f, 6) == false
                    &&& spec_bit8(final(self).f, 5) == <u8 as Checks>::spec_half_carry_add(
                        a0,
                        x,
                        cin,
                    )
                    &&& spec_bit8(final(self).f, 4) == <u8 as Checks>::spec_carry_add(a0, x, cin)
                }
                &&& (kind == 2 || kind == 3) ==> {
                    &&& final(self).a == sub_res(a0, x, cin)
                    &&& spec_bit8(final(self).f, 7) == (sub_res(a0, x, cin) == 0)
                    &&& spec_bit8(final(self).f, 6) == true
                    &&& spec_bit8(final(self).f, 5) == <u8 as Checks>::spec_half_carry_sub(
                        a0,
                        x,
                        cin,
                    )
                    &&& spec_bit8(final(self).f, 4) == <u8 as Checks>::spec_carry_sub(a0, x, cin)
                }
                &&& kind == 4 ==> final(self).a == (a0 & x) && spec_bit8(final(self).f, 7) == ((a0
                    & x) == 0) && !spec_bit8(final(self).f, 6) && spec_bit8(final(self).f, 5)
                    && !spec_bit8(final(self).f, 4)
                &&& kind == 5 ==> final(self).a == (a0 ^ x) && spec_bit8(final(self).f, 7) == ((a0
                    ^ x) == 0) && !spec_bit8(final(self).f, 6) && !spec_bit8(final(self).f, 5)
                    && !spec_bit8(final(self).f, 4)
                &&& kind == 6 ==> final(self).a == (a0 | x) && spec_bit8(final(self).f, 7) == ((a0
                    | x) == 0) && !spec_bit8(final(self).f, 6) && !spec_bit8(final(self).f, 5)
                    && !spec_bit8(final(self).f, 4)
                &&& kind == 7 ==> final(self).a == a0 && spec_bit8(final(self).f, 7) == (sub_res(
                    a0,
                    x,
                    0,
                ) == 0) && spec_bit8(final(self).f, 6) && spec_bit8(final(self).f, 5) == <u8 as Checks>::spec_half_carry_sub(
                    a0,
                    x,
                    0,
                ) && spec_bit8(final(self).f, 4) == <u8 as Checks>::spec_carry_sub(a0, x, 0)
            }),
    {
        let src = opcode & 0x07;
        let kind = (opcode >> 3) & 0x07;
        proof {
            assert(src < 8 && kind < 8) by (bit_vector)
                requires
                    src == opcode & 0x07,
                    kind == (opcode >> 3) & 0x07,
            ;
        }
        let x = if src == 6 {
            mmu.read_byte(self.hl())
        } else {
            self.get_reg8(src)
        };
        let cycles: u16 = if src == 6 {
            8
        } else {
            4
        };
        if kind == 0 {
            self.add_a(x, 0);
        } else if kind == 1 {
            let cin: u8 = if self.get_c_flag() {
                1
            } else {
                0
            };
            self.add_a(x, cin);
        } else if kind == 2 {
            self.sub_a(x, 0);
        } else if kind == 3 {
            let cin: u8 = if self.get_c_flag() {
                1
            } else {
                0
            };
            self.sub_a(x, cin);
        } else if kind == 4 {
            self.and_a(x);
        } else if kind == 5 {
            self.xor_a(x);
        } else if kind == 6 {
            self.or_a(x);
        } else {
            self.cp_a(x);
        }
        cycles
    }
}

impl CPU {
    /// Opcodes 0x00..0x40: loads, sixteen-bit arithmetic, the accumulator
    /// rotates, DAA, the relative jumps and the carry-flag opcodes.  Every
    /// sixteen-bit result is the exact sum or difference reduced to
    /// sixteen bits.
    fn exec_misc_block(&mut self, opcode: u8, mmu: &mut MMU) -> (r: Result<u16, EmuError>)
        requires
            opcode < 0x40,
            cpu_wf(*old(self)),
            mmu_wf(old(mmu)@),
        ensures
            cpu_wf(*final(self)),
            mmu_wf(final(mmu)@),
            cart_writes_ok2(old(mmu)@.cart) ==> r is Ok,
            r is Ok ==> r->Ok_0 == base_cycles(opcode, branch_taken(opcode, old(self).f)),
            final(self).ime == old(self).ime,
            final(self).ime_scheduled == old(self).ime_scheduled,
            final(self).low_power_mode == old(self).low_power_mode,
            opcode == 0x27 ==> ({
                let d = spec_daa(
                    old(self).a,
                    spec_bit8(old(self).f, 6),
                    spec_bit8(old(self).f, 5),
                    spec_bit8(old(self).f, 4),
                );
                &&& r is Ok
                &&& final(self).a == d.0
                &&& spec_bit8(final(self).f, 7) == (d.0 == 0)
                &&& spec_bit8(final(self).f, 6) == spec_bit8(old(self).f, 6)
                &&& spec_bit8(final(self).f, 5) == false
                &&& spec_bit8(final(self).f, 4) == d.1
                &&& *final(self) == (CPU { a: final(self).a, f: final(self).f, ..*old(self) })
                &&& final(mmu)@ == old(mmu)@
            }),
            opcode == 0x03 ==> spec_bc(*final(self)) == w_add16(spec_bc(*old(self)), 1),
            opcode == 0x13 ==> spec_de(*final(self)) == w_add16(spec_de(*old(self)), 1),
            opcode == 0x23 ==> spec_hl(*final(self)) == w_add16(spec_hl(*old(self)), 1),
            opcode == 0x33 ==> final(self).sp == w_add16(old(self).sp, 1),
            opcode == 0x0B ==> spec_bc(*final(self)) == w_sub16(spec_bc(*old(self)), 1),
            opcode == 0x1B ==> spec_de(*final(self)) == w_sub16(spec_de(*old(self)), 1),
            opcode == 0x2B ==> spec_hl(*final(self)) == w_sub16(spec_hl(*old(self)), 1),
            opcode == 0x3B ==> final(self).sp == w_sub16(old(self).sp, 1),
            opcode == 0x09 ==> spec_hl(*final(self)) == w_add16(
                spec_hl(*old(self)),
                spec_bc(*old(self)),
            ),
            opcode == 0x19 ==> spec_hl(*final(self)) == w_add16(
                spec_hl(*old(self)),
                spec_de(*old(self)),
            ),
            opcode == 0x29 ==> spec_hl(*final(self)) == w_add16(
                spec_hl(*old(self)),
                spec_hl(*old(self)),
            ),
            opcode == 0x39 ==> spec_hl(*final(self)) == w_add16(
                spec_hl(*old(self)),
                old(self).sp,
            ),
            ({
                // Loads and relative jumps, over the entry state (PC
                // already past the opcode byte).
                let imm8 = mmu_read(old(mmu)@, old(self).pc);
                let imm16 = (imm8 as u16) | ((mmu_read(old(mmu)@, w_add16(old(self).pc, 1))
                    as u16) << 8);
                let jr_dest = w_add_signed16(w_add16(old(self).pc, 1), (imm8 as i8) as int);
                &&& (opcode == 0x01 && r is Ok ==> spec_bc(*final(self)) == imm16)
                &&& (opcode == 0x11 && r is Ok ==> spec_de(*final(self)) == imm16)
                &&& (opcode == 0x21 && r is Ok ==> spec_hl(*final(self)) == imm16)
                &&& (opcode == 0x31 && r is Ok ==> final(self).sp == imm16)
                &&& (opcode == 0x18 && r is Ok ==> final(self).pc == jr_dest)
                &&& ((opcode == 0x20 || opcode == 0x28 || opcode == 0x30 || opcode == 0x38)
                    && r is Ok ==> final(self).pc == (if branch_taken(opcode, old(self).f) {
                    jr_dest as int
                } else {
                    w_add16(old(self).pc, 1) as int
                }))
                &&& (opcode == 0x0A && r is Ok ==> final(self).a == mmu_read(
                    old(mmu)@,
                    spec_bc(*old(self)),
                ))
                &&& (opcode == 0x1A && r is Ok ==> final(self).a == mmu_read(
                    old(mmu)@,
                    spec_de(*old(self)),
                ))
                &&& (opcode == 0x2A && r is Ok ==> final(self).a == mmu_read(
                    old(mmu)@,
                    spec_hl(*old(self)),
                ) && spec_hl(*final(self)) == w_add16(spec_hl(*old(self)), 1))
                &&& (opcode == 0x3A && r is Ok ==> final(self).a == mmu_read(
                    old(mmu)@,
                    spec_hl(*old(self)),
                ) && spec_hl(*final(self)) == w_sub16(spec_hl(*old(self)), 1))
                &&& (opcode == 0x02 ==> final(mmu)@ == mmu_write_state(
                    old(mmu)@,
                    spec_bc(*old(self)),
                    old(self).a,
                ))
                &&& (opcode == 0x12 ==> final(mmu)@ == mmu_write_state(
                    old(mmu)@,
                    spec_de(*old(self)),
                    old(self).a,
                ))
                &&& (opcode == 0x22 && r is Ok ==> final(mmu)@ == mmu_write_state(
                    old(mmu)@,
                    spec_hl(*old(self)),
                    old(self).a,
                ) && spec_hl(*final(self)) == w_add16(spec_hl(*old(self)), 1))
                &&& (opcode == 0x32 && r is Ok ==> final(mmu)@ == mmu_write_state(
                    old(mmu)@,
                    spec_hl(*old(self)),
                    old(self).a,
                ) && spec_hl(*final(self)) == w_sub16(spec_hl(*old(self)), 1))
            }),
    {
        match opcode {
            0x00 => Ok(4),
            0x01 => {
                let lo = self.get_byte(mmu);
                let hi = self.get_byte(mmu);
                let v = (lo as u16) | ((hi as u16) << 8);
                self.set_bc(v);
                proof {
                    lemma_pair(self.c, self.b, v);
                }
                Ok(12)
            },
            0x02 => {
                match mmu.write_byte(self.bc(), self.a) {
                    Ok(_) => Ok(8),
                    Err(e) => Err(e),
                }
            },
            0x03 => {
                let v = self.bc().wrapping_add(1);
                self.set_bc(v);
                proof {
                    lemma_pair(self.c, self.b, v);
                }
                Ok(8)
            },
            0x04 => {
                let v = self.b;
                let nv = self.inc8(v);
                self.b = nv;
                Ok(4)
            },
            0x05 => {
                let v = self.b;
                let nv = self.dec8(v);
                self.b = nv;
                Ok(4)
            },
            0x06 => {
                self.b = self.get_byte(mmu);
                Ok(8)
            },
            0x07 => {
                let msb = self.a & 0x80 == 0x80;
                self.a = self.a << 1;
                self.set_z_flag(false);
                self.set_n_flag(false);
                self.set_h_flag(false);
                if msb {
                    self.set_c_flag(true);
                    self.a = self.a | 0x01;
                } else {
                    self.set_c_flag(false);
                }
                Ok(4)
            },
            0x08 => {
                let lo = self.get_byte(mmu);
                let hi = self.get_byte(mmu);
                let address = (lo as u16) | ((hi as u16) << 8);
                match mmu.write_byte(address, self.sp as u8) {
                    Ok(_) => {},
                    Err(e) => {
                        return Err(e);
                    },
                }
                match mmu.write_byte(address.wrapping_add(1), (self.sp >> 8) as u8) {
                    Ok(_) => {},
                    Err(e) => {
                        return Err(e);
                    },
                }
                Ok(20)
            },
            0x09 => {
                let rr = self.bc();
                self.add_hl(rr);
                Ok(8)
            },
            0x0A => {
                self.a = mmu.read_byte(self.bc());
                Ok(8)
            },
            0x0B => {
                let v = self.bc().wrapping_sub(1);
                self.set_bc(v);
                proof {
                    lemma_pair(self.c, self.b, v);
                }
                Ok(8)
            },
            0x0C => {
                let v = self.c;
                let nv = self.inc8(v);
                self.c = nv;
                Ok(4)
            },
            0x0D => {
                let v = self.c;
                let nv = self.dec8(v);
                self.c = nv;
                Ok(4)
            },
            0x0E => {
                self.c = self.get_byte(mmu);
                Ok(8)
            },
            0x0F => {
                let lsb = self.a & 0x01 == 0x01;
                self.a = self.a >> 1;
                self.set_z_flag(false);
                self.set_n_flag(false);
                self.set_h_flag(false);
                if lsb {
                    self.set_c_flag(true);
                    self.a = self.a | 0x80;
                } else {
                    self.set_c_flag(false);
                }
                Ok(4)
            },
            0x10 => {
                self.get_byte(mmu);
                Ok(8)
            },
            0x11 => {
                let lo = self.get_byte(mmu);
                let hi = self.get_byte(mmu);
                let v = (lo as u16) | ((hi as u16) << 8);
                self.set_de(v);
                proof {
                    lemma_pair(self.e, self.d, v);
                }
                Ok(12)
            },
            0x12 => {
                match mmu.write_byte(self.de(), self.a) {
                    Ok(_) => Ok(8),
                    Err(e) => Err(e),
                }
            },
            0x13 => {
                let v = self.de().wrapping_add(1);
                self.set_de(v);
                proof {
                    lemma_pair(self.e, self.d, v);
                }
                Ok(8)
            },
            0x14 => {
                let v = self.d;
                let nv = self.inc8(v);
                self.d = nv;
                Ok(4)
            },
            0x15 => {
                let v = self.d;
                let nv = self.dec8(v);
                self.d = nv;
                Ok(4)
            },
            0x16 => {
                self.d = self.get_byte(mmu);
                Ok(8)
            },
            0x17 => {
                let msb = self.a & 0x80 == 0x80;
                let carry = self.get_c_flag();
                self.a = self.a << 1;
                self.set_z_flag(false);
                self.set_n_flag(false);
                self.set_h_flag(false);
                if carry {
                    self.a = self.a | 0x01;
                }
                self.set_c_flag(msb);
                Ok(4)
            },
            0x18 => Ok(self.jr(mmu, true)),
            0x19 => {
                let rr = self.de();
                self.add_hl(rr);
                Ok(8)
            },
            0x1A => {
                self.a = mmu.read_byte(self.de());
                Ok(8)
            },
            0x1B => {
                let v = self.de().wrapping_sub(1);
                self.set_de(v);
                proof {
                    lemma_pair(self.e, self.d, v);
                }
                Ok(8)
            },
            0x1C => {
                let v = self.e;
                let nv = self.inc8(v);
                self.e = nv;
                Ok(4)
            },
            0x1D => {
                let v = self.e;
                let nv = self.dec8(v);
                self.e = nv;
                Ok(4)
            },
            0x1E => {
                self.e = self.get_byte(mmu);
                Ok(8)
            },
            0x1F => {
                let lsb = self.a & 0x01 == 0x01;
                let carry = self.get_c_flag();
                self.a = self.a >> 1;
                self.set_z_flag(false);
                self.set_n_flag(false);
                self.set_h_flag(false);
                if carry {
                    self.a = self.a | 0x80;
                }
                self.set_c_flag(lsb);
                Ok(4)
            },
            0x20 => {
                let taken = !self.get_z_flag();
                Ok(self.jr(mmu, taken))
            },
            0x21 => {
                let lo = self.get_byte(mmu);
                let hi = self.get_byte(mmu);
                let v = (lo as u16) | ((hi as u16) << 8);
                self.set_hl(v);
                proof {
                    lemma_pair(self.l, self.h, v);
                }
                Ok(12)
            },
            0x22 => {
                let hl = self.hl();
                match mmu.write_byte(hl, self.a) {
                    Ok(_) => {},
                    Err(e) => {
                        return Err(e);
                    },
                }
                let v = hl.wrapping_add(1);
                self.set_hl(v);
                proof {
                    lemma_pair(self.l, self.h, v);
                }
                Ok(8)
            },
            0x23 => {
                let v = self.hl().wrapping_add(1);
                self.set_hl(v);
                proof {
                    lemma_pair(self.l, self.h, v);
                }
                Ok(8)
            },
            0x24 => {
                let v = self.h;
                let nv = self.inc8(v);
                self.h = nv;
                Ok(4)
            },
            0x25 => {
                let v = self.h;
                let nv = self.dec8(v);
                self.h = nv;
                Ok(4)
            },
            0x26 => {
                self.h = self.get_byte(mmu);
                Ok(8)
            },
            0x27 => {
                self.daa();
                Ok(4)
            },
            0x28 => {
                let taken = self.get_z_flag();
                Ok(self.jr(mmu, taken))
            },
            0x29 => {
                let rr = self.hl();
                self.add_hl(rr);
                Ok(8)
            },
            0x2A => {
                let hl = self.hl();
                self.a = mmu.read_byte(hl);
                let v = hl.wrapping_add(1);
                self.set_hl(v);
                proof {
                    lemma_pair(self.l, self.h, v);
                }
                Ok(8)
            },
            0x2B => {
                let v = self.hl().wrapping_sub(1);
                self.set_hl(v);
                proof {
                    lemma_pair(self.l, self.h, v);
                }
                Ok(8)
            },
            0x2C => {
                let v = self.l;
                let nv = self.inc8(v);
                self.l = nv;
                Ok(4)
            },
            0x2D => {
                let v = self.l;
                let nv = self.dec8(v);
                self.l = nv;
                Ok(4)
            },
            0x2E => {
                self.l = self.get_byte(mmu);
                Ok(8)
            },
            0x2F => {
                self.a = !self.a;
                self.set_n_flag(true);
                self.set_h_flag(true);
                Ok(4)
            },
            0x30 => {
                let taken = !self.get_c_flag();
                Ok(self.jr(mmu, taken))
            },
            0x31 => {
                let lo = self.get_byte(mmu);
                let hi = self.get_byte(mmu);
                self.sp = (lo as u16) | ((hi as u16) << 8);
                Ok(12)
            },
            0x32 => {
                let hl = self.hl();
                match mmu.write_byte(hl, self.a) {
                    Ok(_) => {},
                    Err(e) => {
                        return Err(e);
                    },
                }
                let v = hl.wrapping_sub(1);
                self.set_hl(v);
                proof {
                    lemma_pair(self.l, self.h, v);
                }
                Ok(8)
            },
            0x33 => {
                self.sp = self.sp.wrapping_add(1);
                Ok(8)
            },
            0x34 => {
                let v = mmu.read_byte(self.hl());
                let nv = self.inc8(v);
                match mmu.write_byte(self.hl(), nv) {
                    Ok(_) => Ok(12),
                    Err(e) => Err(e),
                }
            },
            0x35 => {
                let v = mmu.read_byte(self.hl());
                let nv = self.dec8(v);
                match mmu.write_byte(self.hl(), nv) {
                    Ok(_) => Ok(12),
                    Err(e) => Err(e),
                }
            },
            0x36 => {
                let n = self.get_byte(mmu);
                match mmu.write_byte(self.hl(), n) {
                    Ok(_) => Ok(12),
                    Err(e) => Err(e),
                }
            },
            0x37 => {
                self.set_n_flag(false);
                self.set_h_flag(false);
                self.set_c_flag(true);
                Ok(4)
            },
            0x38 => {
                let taken = self.get_c_flag();
                Ok(self.jr(mmu, taken))
            },
            0x39 => {
                let rr = self.sp;
                self.add_hl(rr);
                Ok(8)
            },
            0x3A => {
                let hl = self.hl();
                self.a = mmu.read_byte(hl);
                let v = hl.wrapping_sub(1);
                self.set_hl(v);
                proof {
                    lemma_pair(self.l, self.h, v);
                }
                Ok(8)
            },
            0x3B => {
                self.sp = self.sp.wrapping_sub(1);
                Ok(8)
            },
            0x3C => {
                let v = self.a;
                let nv = self.inc8(v);
                self.a = nv;
                Ok(4)
            },
            0x3D => {
                let v = self.a;
                let nv = self.dec8(v);
                self.a = nv;
                Ok(4)
            },
            0x3E => {
                self.a = self.get_byte(mmu);
                Ok(8)
            },
            _ => {
                self.set_n_flag(false);
                self.set_h_flag(false);
                let c = self.get_c_flag();
                self.set_c_flag(!c);
                Ok(4)
            },
        }
    }
}

/// Value computed by a CB-prefixed shift or rotate family on one byte;
/// `carry` is the incoming carry flag, used by the two rotates through
/// carry.
pub open spec fn cb_shift_val(fam: u8, v: u8, carry: bool) -> u8 {
    if fam == 0 {
        (v << 1u8) | (if v & 0x80 == 0x80 {
            1u8
        } else {
            0u8
        })
    } else if fam == 1 {
        (v >> 1u8) | (if v & 0x01 == 0x01 {
            0x80u8
        } else {
            0u8
        })
    } else if fam == 2 {
        (v << 1u8) | (if carry {
            1u8
        } else {
            0u8
        })
    } else if fam == 3 {
        (v >> 1u8) | (if carry {
            0x80u8
        } else {
            0u8
        })
    } else if fam == 4 {
        v << 1u8
    } else if fam == 5 {
        (v >> 1u8) | (v & 0x80)
    } else if fam == 6 {
        ((v & 0x0F) << 4u8) | (v >> 4u8)
    } else {
        v >> 1u8
    }
}

/// Carry flag left by a CB-prefixed shift or rotate family: the bit that
/// fell out, and never set by SWAP.
pub open spec fn cb_shift_c(fam: u8, v: u8) -> bool {
    if fam == 0 || fam == 2 || fam == 4 {
        v & 0x80 == 0x80
    } else if fam == 6 {
        false
    } else {
        v & 0x01 == 0x01
    }
}

impl CPU {
    /// Apply one CB shift or rotate family to a byte, setting the four
    /// flags it defines.
    fn cb_shift(&mut self, fam: u8, v: u8) -> (r: u8)
        requires
            fam < 8,
        ensures
            r == cb_shift_val(fam, v, spec_bit8(old(self).f, 4)),
            spec_bit8(final(self).f, 7) == (r == 0),
            spec_bit8(final(self).f, 6) == false,
            spec_bit8(final(self).f, 5) == false,
            spec_bit8(final(self).f, 4) == cb_shift_c(fam, v),
            final(self).f & 0x0F == old(self).f & 0x0F,
            *final(self) == (CPU { f: final(self).f, ..*old(self) }),
    {
        let carry = self.get_c_flag();
        let nv: u8 = if fam == 0 {
            (v << 1u8) | (if v & 0x80 == 0x80 {
                1u8
            } else {
                0u8
            })
        } else if fam == 1 {
            (v >> 1u8) | (if v & 0x01 == 0x01 {
                0x80u8
            } else {
                0u8
            })
        } else if fam == 2 {
            (v << 1u8) | (if carry {
                1u8
            } else {
                0u8
            })
        } else if fam == 3 {
            (v >> 1u8) | (if carry {
                0x80u8
            } else {
                0u8
            })
        } else if fam == 4 {
            v << 1u8
        } else if fam == 5 {
            (v >> 1u8) | (v & 0x80)
        } else if fam == 6 {
            ((v & 0x0F) << 4u8) | (v >> 4u8)
        } else {
            v >> 1u8
        };
        let c_out: bool = if fam == 0 || fam == 2 || fam == 4 {
            v & 0x80 == 0x80
        } else if fam == 6 {
            false
        } else {
            v & 0x01 == 0x01
        };
        self.set_z_flag(nv == 0);
        self.set_n_flag(false);
        self.set_h_flag(false);
        self.set_c_flag(c_out);
        nv
    }

    /// The CB-prefixed table: shifts and rotates, single-bit test, reset
    /// and set, over the eight operands.
    fn execute_prefixed(&mut self, mmu: &mut MMU) -> (r: Result<u16, EmuError>)
        requires
            cpu_wf(*old(self)),
            mmu_wf(old(mmu)@),
        ensures
            cpu_wf(*final(self)),
            mmu_wf(final(mmu)@),
            cart_writes_ok(old(mmu)@.cart) ==> r is Ok,
            final(self).ime == old(self).ime,
            final(self).ime_scheduled == old(self).ime_scheduled,
            final(self).low_power_mode == old(self).low_power_mode,
            ({
                let op2 = mmu_read(old(mmu)@, old(self).pc);
                let idx = op2 & 0x07;
                let bit = (op2 >> 3) & 0x07;
                let pc1 = w_add16(old(self).pc, 1);
                let hl = spec_hl(*old(self));
                let memv = mmu_read(old(mmu)@, hl);
                &&& (r is Ok ==> r->Ok_0 == cb_cycles(op2))
                &&& (idx != 6 ==> ({
                    let v = spec_reg8(*old(self), idx);
                    &&& r is Ok
                    &&& final(mmu)@ == old(mmu)@
                    &&& (op2 < 0x40 ==> ({
                        let nv = cb_shift_val(op2 >> 3, v, spec_bit8(old(self).f, 4));
                        &&& *final(self) == spec_set_reg8(
                            CPU { pc: pc1, f: final(self).f, ..*old(self) },
                            idx,
                            nv,
                        )
                        &&& spec_bit8(final(self).f, 7) == (nv == 0)
                        &&& !spec_bit8(final(self).f, 6)
                        &&& !spec_bit8(final(self).f, 5)
                        &&& spec_bit8(final(self).f, 4) == cb_shift_c(op2 >> 3, v)
                    }))
                    &&& (0x40 <= op2 < 0x80 ==> ({
                        &&& *final(self) == (CPU { pc: pc1, f: final(self).f, ..*old(self) })
                        &&& spec_bit8(final(self).f, 7) == !spec_bit8(v, bit)
                        &&& !spec_bit8(final(self).f, 6)
                        &&& spec_bit8(final(self).f, 5)
                        &&& spec_bit8(final(self).f, 4) == spec_bit8(old(self).f, 4)
                    }))
                    &&& (0x80 <= op2 < 0xC0 ==> *final(self) == spec_set_reg8(
                        CPU { pc: pc1, ..*old(self) },
                        idx,
                        v & !(1u8 << bit),
                    ))
                    &&& (0xC0 <= op2 ==> *final(self) == spec_set_reg8(
                        CPU { pc: pc1, ..*old(self) },
                        idx,
                        v | (1u8 << bit),
                    ))
                }))
                &&& (idx == 6 && op2 < 0x40 ==> ({
                    let nv = cb_shift_val(op2 >> 3, memv, spec_bit8(old(self).f, 4));
                    &&& *final(self) == (CPU { pc: pc1, f: final(self).f, ..*old(self) })
                    &&& spec_bit8(final(self).f, 7) == (nv == 0)
                    &&& !spec_bit8(final(self).f, 6)
                    &&& !spec_bit8(final(self).f, 5)
                    &&& spec_bit8(final(self).f, 4) == cb_shift_c(op2 >> 3, memv)
                    &&& final(mmu)@ == mmu_write_state(old(mmu)@, hl, nv)
                    &&& r == (match mmu_write_result(old(mmu)@, hl, nv) {
                        Ok(_) => Ok::<u16, EmuError>(16),
                        Err(e) => Err::<u16, EmuError>(e),
                    })
                }))
                &&& (idx == 6 && 0x40 <= op2 < 0x80 ==> ({
                    &&& r is Ok
                    &&& final(mmu)@ == old(mmu)@
                    &&& *final(self) == (CPU { pc: pc1, f: final(self).f, ..*old(self) })
                    &&& spec_bit8(final(self).f, 7) == !spec_bit8(memv, bit)
                    &&& !spec_bit8(final(self).f, 6)
                    &&& spec_bit8(final(self).f, 5)
                    &&& spec_bit8(final(self).f, 4) == spec_bit8(old(self).f, 4)
                }))
                &&& (idx == 6 && 0x80 <= op2 < 0xC0 ==> ({
                    &&& *final(self) == (CPU { pc: pc1, ..*old(self) })
                    &&& final(mmu)@ == mmu_write_state(old(mmu)@, hl, memv & !(1u8 << bit))
                    &&& r == (match mmu_write_result(old(mmu)@, hl, memv & !(1u8 << bit)) {
                        Ok(_) => Ok::<u16, EmuError>(16),
                        Err(e) => Err::<u16, EmuError>(e),
                    })
                }))
                &&& (idx == 6 && 0xC0 <= op2 ==> ({
                    &&& *final(self) == (CPU { pc: pc1, ..*old(self) })
                    &&& final(mmu)@ == mmu_write_state(old(mmu)@, hl, memv | (1u8 << bit))
                    &&& r == (match mmu_write_result(old(mmu)@, hl, memv | (1u8 << bit)) {
                        Ok(_) => Ok::<u16, EmuError>(16),
                        Err(e) => Err::<u16, EmuError>(e),
                    })
                }))
            }),
    {
        let opcode = self.get_byte(mmu);
        let idx = opcode & 0x07;
        let bit = (opcode >> 3) & 0x07;
        proof {
            assert(idx < 8 && bit < 8 && (opcode < 0x40 ==> (opcode >> 3) < 8)) by (bit_vector)
                requires
                    idx == opcode & 0x07,
                    bit == (opcode >> 3) & 0x07,
            ;
        }
        if opcode < 0x40 {
            let fam = opcode >> 3;
            if idx == 6 {
                let v = mmu.read_byte(self.hl());
                let nv = self.cb_shift(fam, v);
                match mmu.write_byte(self.hl(), nv) {
                    Ok(_) => Ok(16),
                    Err(e) => Err(e),
                }
            } else {
                let v = self.get_reg8(idx);
                let nv = self.cb_shift(fam, v);
                self.set_reg8(idx, nv);
                Ok(8)
            }
        } else if opcode < 0x80 {
            let v = if idx == 6 {
                mmu.read_byte(self.hl())
            } else {
                self.get_reg8(idx)
            };
            let set = is_bit_set(v, bit);
            self.set_z_flag(!set);
            self.set_n_flag(false);
            self.set_h_flag(true);
            if idx == 6 {
                Ok(12)
            } else {
                Ok(8)
            }
        } else if opcode < 0xC0 {
            if idx == 6 {
                let v = mmu.read_byte(self.hl());
                match mmu.write_byte(self.hl(), v & !(1u8 << bit)) {
                    Ok(_) => Ok(16),
                    Err(e) => Err(e),
                }
            } else {
                let v = self.get_reg8(idx);
                self.set_reg8(idx, v & !(1u8 << bit));
                Ok(8)
            }
        } else {
            if idx == 6 {
                let v = mmu.read_byte(self.hl());
                match mmu.write_byte(self.hl(), v | (1u8 << bit)) {
                    Ok(_) => Ok(16),
                    Err(e) => Err(e),
                }
            } else {
                let v = self.get_reg8(idx);
                self.set_reg8(idx, v | (1u8 << bit));
                Ok(8)
            }
        }
    }

    /// Absolute jump target fetch shared by the jumps and calls.
    fn fetch_a16(&mut self, mmu: &MMU) -> (r: u16)
        requires
            mmu_wf(mmu@),
        ensures
            r == (mmu_read(mmu@, old(self).pc) as u16) | ((mmu_read(
                mmu@,
                w_add16(old(self).pc, 1),
            ) as u16) << 8),
            *final(self) == (CPU { pc: w_add16(old(self).pc, 2), ..*old(self) }),
    {
        let lo = self.get_byte(mmu);
        let hi = self.get_byte(mmu);
        (lo as u16) | ((hi as u16) << 8)
    }

    /// Opcodes 0xC0..0xFF: stack, jumps, calls, returns, the immediate
    /// accumulator operations, the high-page loads, the interrupt-enable
    /// opcodes, and the eleven undefined opcodes, each reported with its
    /// address.
    #[verifier::rlimit(100)]
    #[verifier::spinoff_prover]
    fn exec_ctrl_block(&mut self, opcode: u8, mmu: &mut MMU) -> (r: Result<u16, EmuError>)
        requires
            0xC0 <= opcode,
            opcode != 0xCB,
            cpu_wf(*old(self)),
            mmu_wf(old(mmu)@),
        ensures
            cpu_wf(*final(self)),
            mmu_wf(final(mmu)@),
            is_illegal(opcode) ==> r == Err::<u16, EmuError>(
                EmuError::IllegalOpcode { opcode, pc: w_sub16(old(self).pc, 1) },
            ) && *final(self) == *old(self) && final(mmu)@ == old(mmu)@,
            !is_illegal(opcode) && cart_writes_ok2(old(mmu)@.cart) ==> r is Ok,
            opcode != 0xF3 && opcode != 0xFB ==> final(self).ime_scheduled == old(
                self,
            ).ime_scheduled,
            opcode != 0xF3 && opcode != 0xD9 ==> final(self).ime == old(self).ime,
            final(self).low_power_mode == old(self).low_power_mode,
            !is_illegal(opcode) && r is Ok ==> r->Ok_0 == base_cycles(
                opcode,
                branch_taken(opcode, old(self).f),
            ),
            ({
                // Control-flow effects: restart targets, jumps, calls,
                // returns and the stack pairs, over the entry state (PC
                // already past the opcode byte).
                let imm16 = (mmu_read(old(mmu)@, old(self).pc) as u16) | ((mmu_read(
                    old(mmu)@,
                    w_add16(old(self).pc, 1),
                ) as u16) << 8);
                let popped = (mmu_read(old(mmu)@, old(self).sp) as u16) | ((mmu_read(
                    old(mmu)@,
                    w_add16(old(self).sp, 1),
                ) as u16) << 8);
                &&& (opcode == 0xC7 && r is Ok ==> final(self).pc == 0x0000 && final(self).sp
                    == w_sub16(old(self).sp, 2))
                &&& (opcode == 0xCF && r is Ok ==> final(self).pc == 0x0008 && final(self).sp
                    == w_sub16(old(self).sp, 2))
                &&& (opcode == 0xD7 && r is Ok ==> final(self).pc == 0x0010 && final(self).sp
                    == w_sub16(old(self).sp, 2))
                &&& (opcode == 0xDF && r is Ok ==> final(self).pc == 0x0018 && final(self).sp
                    == w_sub16(old(self).sp, 2))
                &&& (opcode == 0xE7 && r is Ok ==> final(self).pc == 0x0020 && final(self).sp
                    == w_sub16(old(self).sp, 2))
                &&& (opcode == 0xEF && r is Ok ==> final(self).pc == 0x0028 && final(self).sp
                    == w_sub16(old(self).sp, 2))
                &&& (opcode == 0xF7 && r is Ok ==> final(self).pc == 0x0030 && final(self).sp
                    == w_sub16(old(self).sp, 2))
                &&& (opcode == 0xFF && r is Ok ==> final(self).pc == 0x0038 && final(self).sp
                    == w_sub16(old(self).sp, 2))
                &&& (opcode == 0xC3 && r is Ok ==> final(self).pc == imm16)
                &&& (opcode == 0xCD && r is Ok ==> final(self).pc == imm16 && final(self).sp
                    == w_sub16(old(self).sp, 2))
                &&& ((opcode == 0xC2 || opcode == 0xCA || opcode == 0xD2 || opcode == 0xDA)
                    && r is Ok ==> final(self).pc == (if branch_taken(opcode, old(self).f) {
                    imm16 as int
                } else {
                    w_add16(old(self).pc, 2) as int
                }))
                &&& ((opcode == 0xC4 || opcode == 0xCC || opcode == 0xD4 || opcode == 0xDC)
                    && r is Ok && branch_taken(opcode, old(self).f) ==> final(self).pc == imm16
                    && final(self).sp == w_sub16(old(self).sp, 2))
                &&& (opcode == 0xC9 && r is Ok ==> final(self).pc == popped && final(self).sp
                    == w_add16(old(self).sp, 2))
                &&& (opcode == 0xD9 && r is Ok ==> final(self).pc == popped && final(self).sp
                    == w_add16(old(self).sp, 2) && final(self).ime)
                &&& ((opcode == 0xC0 || opcode == 0xC8 || opcode == 0xD0 || opcode == 0xD8)
                    && r is Ok && branch_taken(opcode, old(self).f) ==> final(self).pc == popped
                    && final(self).sp == w_add16(old(self).sp, 2))
                &&& (opcode == 0xC1 && r is Ok ==> spec_bc(*final(self)) == popped
                    && final(self).sp == w_add16(old(self).sp, 2))
                &&& (opcode == 0xD1 && r is Ok ==> spec_de(*final(self)) == popped
                    && final(self).sp == w_add16(old(self).sp, 2))
                &&& (opcode == 0xE1 && r is Ok ==> spec_hl(*final(self)) == popped
                    && final(self).sp == w_add16(old(self).sp, 2))
                &&& (opcode == 0xF1 && r is Ok ==> final(self).a == (popped >> 8) as u8
                    && final(self).f == (popped & 0xFFF0) as u8 && final(self).sp == w_add16(
                    old(self).sp,
                    2,
                ))
                &&& (opcode == 0xE9 && r is Ok ==> final(self).pc == spec_hl(*old(self)))
                &&& (opcode == 0xF9 && r is Ok ==> final(self).sp == spec_hl(*old(self)))
                &&& (opcode == 0xF3 && r is Ok ==> !final(self).ime
                    && !final(self).ime_scheduled)
                &&& (opcode == 0xFB && r is Ok ==> final(self).ime_scheduled)
                &&& ({
                    // Immediate accumulator operations and the high-page
                    // loads.
                    let imm8 = mmu_read(old(mmu)@, old(self).pc);
                    let cin: u8 = if spec_bit8(old(self).f, 4) {
                        1
                    } else {
                        0
                    };
                    &&& ((opcode == 0xC6 || opcode == 0xCE || opcode == 0xD6 || opcode == 0xDE
                        || opcode == 0xE6 || opcode == 0xEE || opcode == 0xF6 || opcode == 0xFE)
                        && r is Ok ==> *final(self) == (CPU {
                        a: final(self).a,
                        f: final(self).f,
                        pc: w_add16(old(self).pc, 1),
                        ..*old(self)
                    }) && final(self).f & 0x0F == old(self).f & 0x0F && final(mmu)@ == old(
                        mmu,
                    )@)
                    &&& ((opcode == 0xC6 || opcode == 0xCE) && r is Ok ==> ({
                        let ci: u8 = if opcode == 0xCE {
                            cin
                        } else {
                            0
                        };
                        &&& final(self).a == add_res(old(self).a, imm8, ci)
                        &&& spec_bit8(final(self).f, 7) == (add_res(old(self).a, imm8, ci) == 0)
                        &&& !spec_bit8(final(self).f, 6)
                        &&& spec_bit8(final(self).f, 5) == <u8 as Checks>::spec_half_carry_add(
                            old(self).a,
                            imm8,
                            ci,
                        )
                        &&& spec_bit8(final(self).f, 4) == <u8 as Checks>::spec_carry_add(
                            old(self).a,
                            imm8,
                            ci,
                        )
                    }))
                    &&& ((opcode == 0xD6 || opcode == 0xDE) && r is Ok ==> ({
                        let ci: u8 = if opcode == 0xDE {
                            cin
                        } else {
                            0
                        };
                        &&& final(self).a == sub_res(old(self).a, imm8, ci)
                        &&& spec_bit8(final(self).f, 7) == (sub_res(old(self).a, imm8, ci) == 0)
                        &&& spec_bit8(final(self).f, 6)
                        &&& spec_bit8(final(self).f, 5) == <u8 as Checks>::spec_half_carry_sub(
                            old(self).a,
                            imm8,
                            ci,
                        )
                        &&& spec_bit8(final(self).f, 4) == <u8 as Checks>::spec_carry_sub(
                            old(self).a,
                            imm8,
                            ci,
                        )
                    }))
                    &&& (opcode == 0xE6 && r is Ok ==> final(self).a == (old(self).a & imm8)
                        && spec_bit8(final(self).f, 7) == ((old(self).a & imm8) == 0)
                        && !spec_bit8(final(self).f, 6) && spec_bit8(final(self).f, 5)
                        && !spec_bit8(final(self).f, 4))
                    &&& (opcode == 0xEE && r is Ok ==> final(self).a == (old(self).a ^ imm8)
                        && spec_bit8(final(self).f, 7) == ((old(self).a ^ imm8) == 0)
                        && !spec_bit8(final(self).f, 6) && !spec_bit8(final(self).f, 5)
                        && !spec_bit8(final(self).f, 4))
                    &&& (opcode == 0xF6 && r is Ok ==> final(self).a == (old(self).a | imm8)
                        && spec_bit8(final(self).f, 7) == ((old(self).a | imm8) == 0)
                        && !spec_bit8(final(self).f, 6) && !spec_bit8(final(self).f, 5)
                        && !spec_bit8(final(self).f, 4))
                    &&& (opcode == 0xFE && r is Ok ==> final(self).a == old(self).a && spec_bit8(
                        final(self).f,
                        7,
                    ) == (sub_res(old(self).a, imm8, 0) == 0) && spec_bit8(final(self).f, 6)
                        && spec_bit8(final(self).f, 5) == <u8 as Checks>::spec_half_carry_sub(
                        old(self).a,
                        imm8,
                        0,
                    ) && spec_bit8(final(self).f, 4) == <u8 as Checks>::spec_carry_sub(
                        old(self).a,
                        imm8,
                        0,
                    ))
                    &&& (opcode == 0xF0 && r is Ok ==> final(self).a == mmu_read(
                        old(mmu)@,
                        0xFF00 | (imm8 as u16),
                    ))
                    &&& (opcode == 0xF2 && r is Ok ==> final(self).a == mmu_read(
                        old(mmu)@,
                        0xFF00 | (old(self).c as u16),
                    ))
                    &&& (opcode == 0xE0 && r is Ok ==> final(mmu)@ == mmu_write_state(
                        old(mmu)@,
                        0xFF00 | (imm8 as u16),
                        old(self).a,
                    ))
                    &&& (opcode == 0xE2 && r is Ok ==> final(mmu)@ == mmu_write_state(
                        old(mmu)@,
                        0xFF00 | (old(self).c as u16),
                        old(self).a,
                    ))
                    &&& (opcode == 0xE8 && r is Ok ==> final(self).sp == w_add_signed16(
                        old(self).sp,
                        (imm8 as i8) as int,
                    ))
                    &&& (opcode == 0xF8 && r is Ok ==> spec_hl(*final(self)) == w_add_signed16(
                        old(self).sp,
                        (imm8 as i8) as int,
                    ) && final(self).sp == old(self).sp)
                    &&& ((opcode == 0xC5 || opcode == 0xD5 || opcode == 0xE5 || opcode == 0xF5)
                        && r is Ok ==> final(self).sp == w_sub16(old(self).sp, 2))
                })
            }),
    {
        match opcode {
            0xC0 => {
                if !self.get_z_flag() {
                    self.pc = self.pop_stack(mmu);
                    Ok(20)
                } else {
                    Ok(8)
                }
            },
            0xC1 => {
                let x = self.pop_stack(mmu);
                self.set_bc(x);
                proof {
                    lemma_pair(self.c, self.b, x);
                }
                Ok(12)
            },
            0xC2 => {
                let address = self.fetch_a16(mmu);
                if !self.get_z_flag() {
                    self.pc = address;
                    Ok(16)
                } else {
                    Ok(12)
                }
            },
            0xC3 => {
                self.pc = self.fetch_a16(mmu);
                Ok(16)
            },
            0xC4 => {
                let address = self.fetch_a16(mmu);
                if !self.get_z_flag() {
                    let pc = self.pc;
                    match self.push_stack(mmu, pc) {
                        Ok(_) => {},
                        Err(e) => {
                            return Err(e);
                        },
                    }
                    self.pc = address;
                    Ok(24)
                } else {
                    Ok(12)
                }
            },
            0xC5 => {
                let v = self.bc();
                match self.push_stack(mmu, v) {
                    Ok(_) => Ok(16),
                    Err(e) => Err(e),
                }
            },
            0xC6 => {
                let x = self.get_byte(mmu);
                self.add_a(x, 0);
                Ok(8)
            },
            0xC7 => {
                let pc = self.pc;
                match self.push_stack(mmu, pc) {
                    Ok(_) => {},
                    Err(e) => {
                        return Err(e);
                    },
                }
                self.pc = 0x0000;
                Ok(16)
            },
            0xC8 => {
                if self.get_z_flag() {
                    self.pc = self.pop_stack(mmu);
                    Ok(20)
                } else {
                    Ok(8)
                }
            },
            0xC9 => {
                self.pc = self.pop_stack(mmu);
                Ok(16)
            },
            0xCA => {
                let address = self.fetch_a16(mmu);
                if self.get_z_flag() {
                    self.pc = address;
                    Ok(16)
                } else {
                    Ok(12)
                }
            },
            0xCC => {
                let address = self.fetch_a16(mmu);
                if self.get_z_flag() {
                    let pc = self.pc;
                    match self.push_stack(mmu, pc) {
                        Ok(_) => {},
                        Err(e) => {
                            return Err(e);
                        },
                    }
                    self.pc = address;
                    Ok(24)
                } else {
                    Ok(12)
                }
            },
            0xCD => {
                let address = self.fetch_a16(mmu);
                let pc = self.pc;
                match self.push_stack(mmu, pc) {
                    Ok(_) => {},
                    Err(e) => {
                        return Err(e);
                    },
                }
                self.pc = address;
                Ok(24)
            },
            0xCE => {
                let x = self.get_byte(mmu);
                let cin: u8 = if self.get_c_flag() {
                    1
                } else {
                    0
                };
                self.add_a(x, cin);
                Ok(8)
            },
            0xCF => {
                let pc = self.pc;
                match self.push_stack(mmu, pc) {
                    Ok(_) => {},
                    Err(e) => {
                        return Err(e);
                    },
                }
                self.pc = 0x0008;
                Ok(16)
            },
            0xD0 => {
                if !self.get_c_flag() {
                    self.pc = self.pop_stack(mmu);
                    Ok(20)
                } else {
                    Ok(8)
                }
            },
            0xD1 => {
                let x = self.pop_stack(mmu);
                self.set_de(x);
                proof {
                    lemma_pair(self.e, self.d, x);
                }
                Ok(12)
            },
            0xD2 => {
                let address = self.fetch_a16(mmu);
                if !self.get_c_flag() {
                    self.pc = address;
                    Ok(16)
                } else {
                    Ok(12)
                }
            },
            0xD4 => {
                let address = self.fetch_a16(mmu);
                if !self.get_c_flag() {
                    let pc = self.pc;
                    match self.push_stack(mmu, pc) {
                        Ok(_) => {},
                        Err(e) => {
                            return Err(e);
                        },
                    }
                    self.pc = address;
                    Ok(24)
                } else {
                    Ok(12)
                }
            },
            0xD5 => {
                let v = self.de();
                match self.push_stack(mmu, v) {
                    Ok(_) => Ok(16),
                    Err(e) => Err(e),
                }
            },
            0xD6 => {
                let x = self.get_byte(mmu);
                self.sub_a(x, 0);
                Ok(8)
            },
            0xD7 => {
                let pc = self.pc;
                match self.push_stack(mmu, pc) {
                    Ok(_) => {},
                    Err(e) => {
                        return Err(e);
                    },
                }
                self.pc = 0x0010;
                Ok(16)
            },
            0xD8 => {
                if self.get_c_flag() {
                    self.pc = self.pop_stack(mmu);
                    Ok(20)
                } else {
                    Ok(8)
                }
            },
            0xD9 => {
                self.pc = self.pop_stack(mmu);
                self.ime = true;
                Ok(16)
            },
            0xDA => {
                let address = self.fetch_a16(mmu);
                if self.get_c_flag() {
                    self.pc = address;
                    Ok(16)
                } else {
                    Ok(12)
                }
            },
            0xDC => {
                let address = self.fetch_a16(mmu);
                if self.get_c_flag() {
                    let pc = self.pc;
                    match self.push_stack(mmu, pc) {
                        Ok(_) => {},
                        Err(e) => {
                            return Err(e);
                        },
                    }
                    self.pc = address;
                    Ok(24)
                } else {
                    Ok(12)
                }
            },
            0xDE => {
                let x = self.get_byte(mmu);
                let cin: u8 = if self.get_c_flag() {
                    1
                } else {
                    0
                };
                self.sub_a(x, cin);
                Ok(8)
            },
            0xDF => {
                let pc = self.pc;
                match self.push_stack(mmu, pc) {
                    Ok(_) => {},
                    Err(e) => {
                        return Err(e);
                    },
                }
                self.pc = 0x0018;
                Ok(16)
            },
            0xE0 => {
                let n = self.get_byte(mmu);
                match mmu.write_byte(0xFF00 | (n as u16), self.a) {
                    Ok(_) => Ok(12),
                    Err(e) => Err(e),
                }
            },
            0xE1 => {
                let x = self.pop_stack(mmu);
                self.set_hl(x);
                proof {
                    lemma_pair(self.l, self.h, x);
                }
                Ok(12)
            },
            0xE2 => {
                match mmu.write_byte(0xFF00 | (self.c as u16), self.a) {
                    Ok(_) => Ok(8),
                    Err(e) => Err(e),
                }
            },
            0xE5 => {
                let v = self.hl();
                match self.push_stack(mmu, v) {
                    Ok(_) => Ok(16),
                    Err(e) => Err(e),
                }
            },
            0xE6 => {
                let x = self.get_byte(mmu);
                self.and_a(x);
                Ok(8)
            },
            0xE7 => {
                let pc = self.pc;
                match self.push_stack(mmu, pc) {
                    Ok(_) => {},
                    Err(e) => {
                        return Err(e);
                    },
                }
                self.pc = 0x0020;
                Ok(16)
            },
            0xE8 => {
                let x = self.get_byte(mmu);
                self.set_z_flag(false);
                self.set_n_flag(false);
                let h = u8::check_half_carry_add(self.sp as u8, x, 0);
                self.set_h_flag(h);
                let c = u8::check_carry_add(self.sp as u8, x, 0);
                self.set_c_flag(c);
                self.sp = self.sp.wrapping_add_signed((x as i8) as i16);
                Ok(16)
            },
            0xE9 => {
                self.pc = self.hl();
                Ok(4)
            },
            0xEA => {
                let address = self.fetch_a16(mmu);
                match mmu.write_byte(address, self.a) {
                    Ok(_) => Ok(16),
                    Err(e) => Err(e),
                }
            },
            0xEE => {
                let x = self.get_byte(mmu);
                self.xor_a(x);
                Ok(8)
            },
            0xEF => {
                let pc = self.pc;
                match self.push_stack(mmu, pc) {
                    Ok(_) => {},
                    Err(e) => {
                        return Err(e);
                    },
                }
                self.pc = 0x0028;
                Ok(16)
            },
            0xF0 => {
                let n = self.get_byte(mmu);
                self.a = mmu.read_byte(0xFF00 | (n as u16));
                Ok(12)
            },
            0xF1 => {
                let x = self.pop_stack(mmu);
                self.set_af(x);
                Ok(12)
            },
            0xF2 => {
                self.a = mmu.read_byte(0xFF00 | (self.c as u16));
                Ok(8)
            },
            0xF3 => {
                self.ime = false;
                self.ime_scheduled = false;
                Ok(4)
            },
            0xF5 => {
                let v = self.af();
                match self.push_stack(mmu, v) {
                    Ok(_) => Ok(16),
                    Err(e) => Err(e),
                }
            },
            0xF6 => {
                let x = self.get_byte(mmu);
                self.or_a(x);
                Ok(8)
            },
            0xF7 => {
                let pc = self.pc;
                match self.push_stack(mmu, pc) {
                    Ok(_) => {},
                    Err(e) => {
                        return Err(e);
                    },
                }
                self.pc = 0x0030;
                Ok(16)
            },
            0xF8 => {
                let x = self.get_byte(mmu);
                self.set_z_flag(false);
                self.set_n_flag(false);
                let h = u8::check_half_carry_add(self.sp as u8, x, 0);
                self.set_h_flag(h);
                let c = u8::check_carry_add(self.sp as u8, x, 0);
                self.set_c_flag(c);
                let v = self.sp.wrapping_add_signed((x as i8) as i16);
                self.set_hl(v);
                proof {
                    lemma_pair(self.l, self.h, v);
                }
                Ok(12)
            },
            0xF9 => {
                self.sp = self.hl();
                Ok(8)
            },
            0xFA => {
                let address = self.fetch_a16(mmu);
                self.a = mmu.read_byte(address);
                Ok(16)
            },
            0xFB => {
                self.ime_scheduled = true;
                Ok(4)
            },
            0xFE => {
                let x = self.get_byte(mmu);
                self.cp_a(x);
                Ok(8)
            },
            0xFF => {
                let pc = self.pc;
                match self.push_stack(mmu, pc) {
                    Ok(_) => {},
                    Err(e) => {
                        return Err(e);
                    },
                }
                self.pc = 0x0038;
                Ok(16)
            },
            _ => {
                Err(
                    EmuError::IllegalOpcode {
                        opcode,
                        pc: self.pc.wrapping_sub(1),
                    },
                )
            },
        }
    }

    /// State after the delayed interrupt-enable promotion at the end of
    /// a step: EI arms it, and it lands one instruction later.
    pub open spec fn promote_ime(c: CPU, op: u8) -> CPU {
        if c.ime_scheduled && op != 0xFB {
            CPU { ime: true, ime_scheduled: false, ..c }
        } else {
            c
        }
    }

    /// One full processor step: the interrupt phase, then either the
    /// four-cycle halt idle or one fetched instruction, then the delayed
    /// IME promotion and the serial debug hook.  The cost reported for a
    /// fetched instruction is the canonical DMG table value for it; the
    /// eleven undefined opcodes abort with their address.
    #[verifier::rlimit(60)]
    #[verifier::spinoff_prover]
    pub fn execute_next(&mut self, mmu: &mut MMU) -> (r: Result<u16, EmuError>)
        requires
            cpu_wf(*old(self)),
            mmu_wf(old(mmu)@),
        ensures
            cpu_wf(*final(self)),
            mmu_wf(final(mmu)@),
            ({
                let ie = old(mmu)@.mem[0xFFFF];
                let iff = old(mmu)@.mem[0xFF0F];
                let pending = 0x1F & ie & iff;
                let op = mmu_read(old(mmu)@, old(self).pc);
                let op2 = mmu_read(old(mmu)@, w_add16(old(self).pc, 1));
                &&& (cart_writes_ok2(old(mmu)@.cart) && ((pending == 0 && !old(
                    self,
                ).low_power_mode) || (pending != 0 && !old(self).ime) ==> !is_illegal(op)) ==> r
                    is Ok)
                &&& (pending != 0 && old(self).ime ==> (r is Ok ==> r == Ok::<u16, EmuError>(
                    20,
                ) && final(self).pc == int_vector(lowest_int_bit(ie & iff)) && final(self).sp
                    == w_sub16(old(self).sp, 2) && !final(self).ime
                    && !final(self).low_power_mode))
                &&& (pending == 0 && old(self).low_power_mode ==> r == Ok::<u16, EmuError>(4)
                    && *final(self) == *old(self) && final(mmu)@ == old(mmu)@)
                &&& ((pending == 0 && !old(self).low_power_mode) || (pending != 0 && !old(
                    self,
                ).ime) ==> {
                    let fetched = CPU {
                        pc: w_add16(old(self).pc, 1),
                        low_power_mode: false,
                        ..*old(self)
                    };
                    let dst = (op >> 3) & 0x07;
                    let src = op & 0x07;
                    &&& (is_illegal(op) ==> r == Err::<u16, EmuError>(
                        EmuError::IllegalOpcode { opcode: op, pc: old(self).pc },
                    ))
                    &&& (!is_illegal(op) && r is Ok ==> r->Ok_0 == spec_instr_cycles(
                        op,
                        op2,
                        old(self).f,
                    ))
                    &&& (op == 0x76 && r is Ok ==> *final(self) == CPU::promote_ime(
                        (CPU { low_power_mode: true, ..fetched }),
                        op,
                    ) && final(mmu)@ == serial_hook(old(mmu)@))
                    &&& (0x40 <= op < 0x80 && op != 0x76 && dst != 6 && src != 6 && r is Ok
                        ==> *final(self) == CPU::promote_ime(
                        spec_set_reg8(fetched, dst, spec_reg8(fetched, src)),
                        op,
                    ) && final(mmu)@ == serial_hook(old(mmu)@))
                    &&& (0x40 <= op < 0x80 && op != 0x76 && dst != 6 && src == 6 && r is Ok
                        ==> *final(self) == CPU::promote_ime(
                        spec_set_reg8(fetched, dst, mmu_read(old(mmu)@, spec_hl(fetched))),
                        op,
                    ) && final(mmu)@ == serial_hook(old(mmu)@))
                    &&& (0x40 <= op < 0x80 && op != 0x76 && dst == 6 && r is Ok ==> *final(self)
                        == CPU::promote_ime(fetched, op) && final(mmu)@ == serial_hook(
                        mmu_write_state(old(mmu)@, spec_hl(fetched), spec_reg8(fetched, src)),
                    ))
                    &&& (0x80 <= op < 0xC0 && r is Ok ==> ({
                        let kind = (op >> 3) & 0x07;
                        let x = if src == 6 {
                            mmu_read(old(mmu)@, spec_hl(fetched))
                        } else {
                            spec_reg8(fetched, src)
                        };
                        let cin: u8 = if (kind == 1 || kind == 3) && spec_bit8(old(self).f, 4) {
                            1
                        } else {
                            0
                        };
                        &&& final(mmu)@ == serial_hook(old(mmu)@)
                        &&& ((kind == 0 || kind == 1) ==> final(self).a == add_res(
                            old(self).a,
                            x,
                            cin,
                        ))
                        &&& ((kind == 2 || kind == 3) ==> final(self).a == sub_res(
                            old(self).a,
                            x,
                            cin,
                        ))
                        &&& (kind == 4 ==> final(self).a == (old(self).a & x))
                        &&& (kind == 5 ==> final(self).a == (old(self).a ^ x))
                        &&& (kind == 6 ==> final(self).a == (old(self).a | x))
                        &&& (kind == 7 ==> final(self).a == old(self).a && spec_bit8(
                            final(self).f,
                            7,
                        ) == (sub_res(old(self).a, x, 0) == 0))
                    }))
                    &&& (is_illegal(op) ==> *final(self) == fetched && final(mmu)@ == old(mmu)@)
                    &&& (op == 0x27 && r is Ok ==> ({
                        let d = spec_daa(
                            old(self).a,
                            spec_bit8(old(self).f, 6),
                            spec_bit8(old(self).f, 5),
                            spec_bit8(old(self).f, 4),
                        );
                        &&& final(self).a == d.0
                        &&& spec_bit8(final(self).f, 7) == (d.0 == 0)
                        &&& spec_bit8(final(self).f, 6) == spec_bit8(old(self).f, 6)
                        &&& !spec_bit8(final(self).f, 5)
                        &&& spec_bit8(final(self).f, 4) == d.1
                        &&& *final(self) == CPU::promote_ime(
                            (CPU { a: final(self).a, f: final(self).f, ..fetched }),
                            op,
                        )
                        &&& final(mmu)@ == serial_hook(old(mmu)@)
                    }))
                    &&& (op == 0x03 && r is Ok ==> spec_bc(*final(self)) == w_add16(
                        spec_bc(*old(self)),
                        1,
                    ))
                    &&& (op == 0x13 && r is Ok ==> spec_de(*final(self)) == w_add16(
                        spec_de(*old(self)),
                        1,
                    ))
                    &&& (op == 0x23 && r is Ok ==> spec_hl(*final(self)) == w_add16(
                        spec_hl(*old(self)),
                        1,
                    ))
                    &&& (op == 0x33 && r is Ok ==> final(self).sp == w_add16(old(self).sp, 1))
                    &&& (op == 0x0B && r is Ok ==> spec_bc(*final(self)) == w_sub16(
                        spec_bc(*old(self)),
                        1,
                    ))
                    &&& (op == 0x1B && r is Ok ==> spec_de(*final(self)) == w_sub16(
                        spec_de(*old(self)),
                        1,
                    ))
                    &&& (op == 0x2B && r is Ok ==> spec_hl(*final(self)) == w_sub16(
                        spec_hl(*old(self)),
                        1,
                    ))
                    &&& (op == 0x3B && r is Ok ==> final(self).sp == w_sub16(old(self).sp, 1))
                    &&& (op == 0x09 && r is Ok ==> spec_hl(*final(self)) == w_add16(
                        spec_hl(*old(self)),
                        spec_bc(*old(self)),
                    ))
                    &&& (op == 0x19 && r is Ok ==> spec_hl(*final(self)) == w_add16(
                        spec_hl(*old(self)),
                        spec_de(*old(self)),
                    ))
                    &&& (op == 0x29 && r is Ok ==> spec_hl(*final(self)) == w_add16(
                        spec_hl(*old(self)),
                        spec_hl(*old(self)),
                    ))
                    &&& (op == 0x39 && r is Ok ==> spec_hl(*final(self)) == w_add16(
                        spec_hl(*old(self)),
                        old(self).sp,
                    ))
                    &&& (op == 0xE8 && r is Ok ==> final(self).sp == w_add_signed16(
                        old(self).sp,
                        (op2 as i8) as int,
                    ))
                    &&& (op == 0xF8 && r is Ok ==> spec_hl(*final(self)) == w_add_signed16(
                        old(self).sp,
                        (op2 as i8) as int,
                    ) && final(self).sp == old(self).sp)
                    &&& (op == 0xF3 && r is Ok ==> !final(self).ime
                        && !final(self).ime_scheduled)
                    &&& (op == 0xFB && r is Ok ==> final(self).ime_scheduled && final(self).ime
                        == old(self).ime)
                    &&& (op == 0xD9 && r is Ok ==> final(self).ime)
                    &&& (op != 0xFB && r is Ok ==> !final(self).ime_scheduled)
                    &&& (op != 0xFB && op != 0xF3 && old(self).ime_scheduled && r is Ok
                        ==> final(self).ime)
                    &&& ((op == 0xC6 || op == 0xCE || op == 0xD6 || op == 0xDE || op == 0xE6 || op
                        == 0xEE || op == 0xF6 || op == 0xFE) && r is Ok ==> ({
                        let ci: u8 = if (op == 0xCE || op == 0xDE) && spec_bit8(old(self).f, 4) {
                            1
                        } else {
                            0
                        };
                        &&& *final(self) == CPU::promote_ime(
                            (CPU {
                                a: final(self).a,
                                f: final(self).f,
                                pc: w_add16(old(self).pc, 2),
                                ..fetched
                            }),
                            op,
                        )
                        &&& final(mmu)@ == serial_hook(old(mmu)@)
                        &&& ((op == 0xC6 || op == 0xCE) ==> final(self).a == add_res(
                            old(self).a,
                            op2,
                            ci,
                        ) && spec_bit8(final(self).f, 7) == (add_res(old(self).a, op2, ci) == 0)
                            && !spec_bit8(final(self).f, 6) && spec_bit8(final(self).f, 5)
                            == <u8 as Checks>::spec_half_carry_add(old(self).a, op2, ci)
                            && spec_bit8(final(self).f, 4) == <u8 as Checks>::spec_carry_add(
                            old(self).a,
                            op2,
                            ci,
                        ))
                        &&& ((op == 0xD6 || op == 0xDE) ==> final(self).a == sub_res(
                            old(self).a,
                            op2,
                            ci,
                        ) && spec_bit8(final(self).f, 7) == (sub_res(old(self).a, op2, ci) == 0)
                            && spec_bit8(final(self).f, 6) && spec_bit8(final(self).f, 5)
                            == <u8 as Checks>::spec_half_carry_sub(old(self).a, op2, ci)
                            && spec_bit8(final(self).f, 4) == <u8 as Checks>::spec_carry_sub(
                            old(self).a,
                            op2,
                            ci,
                        ))
                        &&& (op == 0xE6 ==> final(self).a == (old(self).a & op2))
                        &&& (op == 0xEE ==> final(self).a == (old(self).a ^ op2))
                        &&& (op == 0xF6 ==> final(self).a == (old(self).a | op2))
                        &&& (op == 0xFE ==> final(self).a == old(self).a && spec_bit8(
                            final(self).f,
                            7,
                        ) == (sub_res(old(self).a, op2, 0) == 0) && spec_bit8(final(self).f, 6)
                            && spec_bit8(final(self).f, 5)
                            == <u8 as Checks>::spec_half_carry_sub(old(self).a, op2, 0)
                            && spec_bit8(final(self).f, 4) == <u8 as Checks>::spec_carry_sub(
                            old(self).a,
                            op2,
                            0,
                        ))
                    }))
                })
            }),
    {
        let icycles = match self.execute_interrupts(mmu) {
            Ok(n) => n,
            Err(e) => {
                return Err(e);
            },
        };
        if icycles > 0 {
            return Ok(icycles);
        } else if self.low_power_mode {
            return Ok(4);
        }
        let opcode = self.get_byte(mmu);
        let res: Result<u16, EmuError> = if opcode < 0x40 {
            self.exec_misc_block(opcode, mmu)
        } else if opcode < 0x80 {
            self.exec_ld_block(opcode, mmu)
        } else if opcode < 0xC0 {
            Ok(self.exec_alu_block(opcode, mmu))
        } else if opcode == 0xCB {
            self.execute_prefixed(mmu)
        } else {
            self.exec_ctrl_block(opcode, mmu)
        };
        let cycles = match res {
            Ok(n) => n,
            Err(e) => {
                return Err(e);
            },
        };
        if self.ime_scheduled && opcode != 0xFB {
            self.ime = true;
            self.ime_scheduled = false;
        }
        if mmu.read_byte(0xFF02) == 0x81 {
            let b = mmu.read_byte(0xFF01);
            mmu.push_serial(b);
            let wr = mmu.write_byte(0xFF02, 0x00);
            proof {
                assert(wr is Ok);
            }
        }
        Ok(cycles)
    }
}

/// Lowest pending interrupt bit: the dispatch priority is VBLANK, then
/// LCD STAT, timer, serial, joypad.
pub open spec fn lowest_int_bit(x: u8) -> u8 {
    if x & 0x01 == 0x01 {
        0
    } else if x & 0x02 == 0x02 {
        1
    } else if x & 0x04 == 0x04 {
        2
    } else if x & 0x08 == 0x08 {
        3
    } else {
        4
    }
}

/// Handler address of interrupt bit `b`.
pub open spec fn int_vector(b: u8) -> u16 {
    (0x40 + 8 * b) as u16
}

impl CPU {
    /// Interrupt phase of a step.  Any pending enabled interrupt leaves
    /// low-power mode; if the master enable is set, the lowest pending
    /// bit is acknowledged: IME cleared, PC pushed, its flag bit cleared
    /// and PC set to its vector, for twenty T-cycles.  Returns zero
    /// cycles when nothing was dispatched; it fails exactly when one of
    /// the two stack writes lands in a cartridge window and fails there,
    /// with that write's error and the state the failed push leaves.
    fn execute_interrupts(&mut self, mmu: &mut MMU) -> (r: Result<u16, EmuError>)
        requires
            mmu_wf(old(mmu)@),
        ensures
            mmu_wf(final(mmu)@),
            final(self).f == old(self).f,
            cart_writes_ok2(old(mmu)@.cart) ==> r is Ok,
            ({
                let ie = old(mmu)@.mem[0xFFFF];
                let iff = old(mmu)@.mem[0xFF0F];
                let pending = 0x1F & ie & iff;
                if pending == 0 {
                    &&& r == Ok::<u16, EmuError>(0)
                    &&& *final(self) == *old(self)
                    &&& final(mmu)@ == old(mmu)@
                } else if !old(self).ime {
                    &&& r == Ok::<u16, EmuError>(0)
                    &&& *final(self) == (CPU { low_power_mode: false, ..*old(self) })
                    &&& final(mmu)@ == old(mmu)@
                } else {
                    let bit = lowest_int_bit(ie & iff);
                    let sp1 = w_sub16(old(self).sp, 1);
                    let hi = (old(self).pc >> 8) as u8;
                    let w1 = mmu_write_result(old(mmu)@, sp1, hi);
                    let m1 = mmu_write_state(old(mmu)@, sp1, hi);
                    let sp2 = w_sub16(old(self).sp, 2);
                    let lo = old(self).pc as u8;
                    let w2 = mmu_write_result(m1, sp2, lo);
                    let m2 = mmu_write_state(m1, sp2, lo);
                    &&& (w1 is Err ==> r == Err::<u16, EmuError>(w1->Err_0) && final(mmu)@ == m1
                        && *final(self) == (CPU {
                        low_power_mode: false,
                        ime: false,
                        sp: sp1,
                        ..*old(self)
                    }))
                    &&& (w1 is Ok && w2 is Err ==> r == Err::<u16, EmuError>(w2->Err_0)
                        && final(mmu)@ == m2 && *final(self) == (CPU {
                        low_power_mode: false,
                        ime: false,
                        sp: sp2,
                        ..*old(self)
                    }))
                    &&& (w1 is Ok && w2 is Ok ==> {
                        &&& r == Ok::<u16, EmuError>(20)
                        &&& *final(self) == (CPU {
                            low_power_mode: false,
                            ime: false,
                            sp: sp2,
                            pc: int_vector(bit),
                            ..*old(self)
                        })
                        &&& final(mmu)@ == mmu_write_state(m2, 0xFF0F, iff & !(1u8 << bit))
                    })
                }
            }),
    {
        let ie_reg = mmu.read_byte(0xFFFF);
        let if_reg = mmu.read_byte(0xFF0F);
        if 0x1F & ie_reg & if_reg > 0 {
            self.low_power_mode = false;
            if self.ime {
                self.ime = false;
                let pc = self.pc;
                match self.push_stack(mmu, pc) {
                    Ok(_) => {},
                    Err(e) => {
                        return Err(e);
                    },
                }
                let x = ie_reg & if_reg;
                let bit: u8 = if x & 0x01 == 0x01 {
                    0
                } else if x & 0x02 == 0x02 {
                    1
                } else if x & 0x04 == 0x04 {
                    2
                } else if x & 0x08 == 0x08 {
                    3
                } else {
                    4
                };
                proof {
                    assert(0x1Fu8 & ie_reg & if_reg > 0 ==> ((ie_reg & if_reg) & 0x01 == 0x01 || (
                    ie_reg & if_reg) & 0x02 == 0x02 || (ie_reg & if_reg) & 0x04 == 0x04 || (ie_reg
                        & if_reg) & 0x08 == 0x08 || (ie_reg & if_reg) & 0x10 == 0x10))
                        by (bit_vector);
                }
                self.pc = 0x0040 + 8 * (bit as u16);
                match mmu.write_byte(0xFF0F, if_reg & !(1u8 << bit)) {
                    Ok(_) => {},
                    Err(e) => {
                        return Err(e);
                    },
                }
                return Ok(20);
            }
        }
        Ok(0)
    }
}


/// Both nibbles of a packed binary-coded-decimal byte are digits.
pub open spec fn bcd_valid(x: u8) -> bool {
    x & 0x0F <= 9 && (x >> 4) <= 9
}

/// The decimal number a packed binary-coded-decimal byte encodes.
pub open spec fn bcd_val(x: u8) -> int {
    10 * ((x >> 4) as int) + ((x & 0x0F) as int)
}

/// Adding two packed decimal bytes and then decimal-adjusting the sum
/// with the addition's flags yields a valid packed decimal byte again,
/// equal to the decimal sum modulo one hundred, with the carry out
/// telling whether the decimal sum reached one hundred.
pub proof fn lemma_daa_round_trip(a: u8, n: u8)
    by (bit_vector)
    requires
        bcd_valid(a),
        bcd_valid(n),
    ensures
        bcd_valid(
            spec_daa(
                w_add8(a, n),
                false,
                <u8 as Checks>::spec_half_carry_add(a, n, 0),
                <u8 as Checks>::spec_carry_add(a, n, 0),
            ).0,
        ),
        bcd_val(
            spec_daa(
                w_add8(a, n),
                false,
                <u8 as Checks>::spec_half_carry_add(a, n, 0),
                <u8 as Checks>::spec_carry_add(a, n, 0),
            ).0,
        ) == (bcd_val(a) + bcd_val(n)) % 100,
        spec_daa(
            w_add8(a, n),
            false,
            <u8 as Checks>::spec_half_carry_add(a, n, 0),
            <u8 as Checks>::spec_carry_add(a, n, 0),
        ).1 == (bcd_val(a) + bcd_val(n) >= 100),
{
}

} // verus!
