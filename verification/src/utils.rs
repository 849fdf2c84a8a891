//! Bit-level helpers shared by every subsystem: single-bit tests and the
//! half-carry / full-carry predicates of the SM83 arithmetic unit.
use vstd::prelude::*;

verus! {

/// Bit `bit` of `value`, as the hardware reads it.
pub open spec fn spec_bit8(value: u8, bit: u8) -> bool {
    (value >> bit) & 0x01 == 0x01
}

/// The masked form the code computes is the modular form the contracts
/// speak in, at byte width.
pub proof fn lemma_nibble_mask_u8()
    by (bit_vector)
    ensures
        forall|x: u8| #[trigger] (x & 0x0F) == x % 16,
{
}

/// The same connection for the low twelve bits of a sixteen-bit word.
pub proof fn lemma_nibble_mask_u16()
    by (bit_vector)
    ensures
        forall|x: u16| #[trigger] (x & 0x0FFF) == x % 0x1000,
{
}

/// Bounds that masking and shifting keep, used to show that computed bank
/// numbers stay inside the ROM and RAM actually present.
pub proof fn lemma_mask_bounds_u8()
    by (bit_vector)
    ensures
        forall|x: u8, m: u8| #[trigger] (x & m) <= m,
        forall|x: u8, y: u8| x < 64 && y < 64 ==> #[trigger] (x | y) < 64,
        forall|x: u8, y: u8| #[trigger] (x | y) <= x + y,
        forall|x: u8| #[trigger] ((x & 0x03) << 4) <= 0x30,
        forall|x: u8| #[trigger] ((x & 0x03) << 2) <= 12,
{
}

/// The nine-bit ROM bank number of the largest controller stays below 512.
pub proof fn lemma_mask_bounds_u16()
    by (bit_vector)
    ensures
        forall|x: u16, m: u16| #[trigger] (x & m) <= m,
{
}

/// Setting one bit makes that bit read back true and keeps every set bit
/// set.
pub proof fn lemma_or_sets_bit()
    by (bit_vector)
    ensures
        forall|x: u8, b: u8| b < 8 ==> spec_bit8(#[trigger] (x | (1u8 << b)), b),
        forall|x: u8, b: u8, k: u8|
            b < 8 && k < 8 && spec_bit8(x, k) ==> #[trigger] spec_bit8((x | (1u8 << b)), k),
{
}

pub fn is_bit_set(value: u8, bit: u8) -> (r: bool)
    requires
        bit < 8,
    ensures
        r == spec_bit8(value, bit),
{
    (value >> bit) & 0x01 == 0x01
}

/// Carry predicates for the arithmetic unit.  `c` is the carry-in and is at
/// most one; the half-carry predicates look at the low nibble (low twelve
/// bits for sixteen-bit additions), the full ones at the whole width.
pub trait Checks: Sized {
    spec fn carry_in_ok(c: Self) -> bool;

    spec fn spec_half_carry_add(a: Self, b: Self, c: Self) -> bool;

    spec fn spec_half_carry_sub(a: Self, b: Self, c: Self) -> bool;

    spec fn spec_carry_add(a: Self, b: Self, c: Self) -> bool;

    spec fn spec_carry_sub(a: Self, b: Self, c: Self) -> bool;

    fn check_half_carry_add(a: Self, b: Self, c: Self) -> (r: bool)
        requires
            Self::carry_in_ok(c),
        ensures
            r == Self::spec_half_carry_add(a, b, c),
    ;

    fn check_half_carry_sub(a: Self, b: Self, c: Self) -> (r: bool)
        requires
            Self::carry_in_ok(c),
        ensures
            r == Self::spec_half_carry_sub(a, b, c),
    ;

    fn check_carry_add(a: Self, b: Self, c: Self) -> (r: bool)
        requires
            Self::carry_in_ok(c),
        ensures
            r == Self::spec_carry_add(a, b, c),
    ;

    fn check_carry_sub(a: Self, b: Self, c: Self) -> (r: bool)
        requires
            Self::carry_in_ok(c),
        ensures
            r == Self::spec_carry_sub(a, b, c),
    ;
}

impl Checks for u8 {
    open spec fn carry_in_ok(c: u8) -> bool {
        c <= 1
    }

    open spec fn spec_half_carry_add(a: u8, b: u8, c: u8) -> bool {
        a % 16 + b % 16 + c > 15
    }

    open spec fn spec_half_carry_sub(a: u8, b: u8, c: u8) -> bool {
        b % 16 + c > a % 16
    }

    open spec fn spec_carry_add(a: u8, b: u8, c: u8) -> bool {
        a + b + c > 255
    }

    open spec fn spec_carry_sub(a: u8, b: u8, c: u8) -> bool {
        b + c > a
    }

    fn check_half_carry_add(a: u8, b: u8, c: u8) -> (r: bool) {
        proof {
            lemma_nibble_mask_u8();
        }
        (a & 0x0F) + (b & 0x0F) + (c & 0x0F) > 0x0F
    }

    fn check_half_carry_sub(a: u8, b: u8, c: u8) -> (r: bool) {
        proof {
            lemma_nibble_mask_u8();
        }
        (b & 0x0F) + (c & 0x0F) > (a & 0x0F)
    }

    fn check_carry_add(a: u8, b: u8, c: u8) -> (r: bool) {
        (a as u16) + (b as u16) + (c as u16) > 0xFF
    }

    fn check_carry_sub(a: u8, b: u8, c: u8) -> (r: bool) {
        if a == b {
            return c == 0x01;
        }
        b > a || b + c > a
    }
}

impl Checks for u16 {
    open spec fn carry_in_ok(c: u16) -> bool {
        c <= 1
    }

    open spec fn spec_half_carry_add(a: u16, b: u16, c: u16) -> bool {
        a % 0x1000 + b % 0x1000 + c > 0x0FFF
    }

    open spec fn spec_half_carry_sub(a: u16, b: u16, c: u16) -> bool {
        b % 0x1000 + c > a % 0x1000
    }

    open spec fn spec_carry_add(a: u16, b: u16, c: u16) -> bool {
        a + b + c > 0xFFFF
    }

    open spec fn spec_carry_sub(a: u16, b: u16, c: u16) -> bool {
        b + c > a
    }

    fn check_half_carry_add(a: u16, b: u16, c: u16) -> (r: bool) {
        proof {
            lemma_nibble_mask_u16();
        }
        (a & 0x0FFF) + (b & 0x0FFF) + c > 0x0FFF
    }

    fn check_half_carry_sub(a: u16, b: u16, c: u16) -> (r: bool) {
        proof {
            lemma_nibble_mask_u16();
        }
        (b & 0x0FFF) + c > (a & 0x0FFF)
    }

    fn check_carry_add(a: u16, b: u16, c: u16) -> (r: bool) {
        (a as u32) + (b as u32) + (c as u32) > 0xFFFF
    }

    fn check_carry_sub(a: u16, b: u16, c: u16) -> (r: bool) {
        if a == b {
            return c == 0x01;
        }
        b > a || b + c > a
    }
}

} // verus!
