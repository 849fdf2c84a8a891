//! Eight-button pad with a latched state byte.  A zero bit means the button
//! is held; the low nibble of the state holds the action buttons, the high
//! nibble the directions, multiplexed through the two select lines of the
//! joypad register.
use crate::utils::is_bit_set;
use crate::utils::spec_bit8;
use vstd::prelude::*;

verus! {

#[derive(Clone, Copy, Debug, PartialEq, Eq, Structural)]
pub enum Button {
    A,
    B,
    SELECT,
    START,
    RIGHT,
    LEFT,
    UP,
    DOWN,
    UNKNOWN,
}

/// Position of a button in the latched state byte.
pub open spec fn spec_button_bit(button: Button) -> u8 {
    match button {
        Button::A => 0,
        Button::B => 1,
        Button::SELECT => 2,
        Button::START => 3,
        Button::RIGHT => 4,
        Button::LEFT => 5,
        Button::UP => 6,
        Button::DOWN => 7,
        Button::UNKNOWN => 8,
    }
}

impl Button {
    pub fn values() -> (r: [Button; 9])
        ensures
            r@ =~= seq![
                Button::A,
                Button::B,
                Button::SELECT,
                Button::START,
                Button::RIGHT,
                Button::LEFT,
                Button::UP,
                Button::DOWN,
                Button::UNKNOWN,
            ],
    {
        [
            Button::A,
            Button::B,
            Button::SELECT,
            Button::START,
            Button::RIGHT,
            Button::LEFT,
            Button::UP,
            Button::DOWN,
            Button::UNKNOWN,
        ]
    }

    fn bit(self) -> (r: u8)
        ensures
            r == spec_button_bit(self),
    {
        match self {
            Button::A => 0,
            Button::B => 1,
            Button::SELECT => 2,
            Button::START => 3,
            Button::RIGHT => 4,
            Button::LEFT => 5,
            Button::UP => 6,
            Button::DOWN => 7,
            Button::UNKNOWN => 8,
        }
    }
}

pub struct Joypad(pub u8);

/// Value read back from the joypad register: select lines in the high
/// nibble are kept, and the low nibble shows whichever button groups the
/// two (active-low) select bits ask for.
pub open spec fn spec_joypad_read(state: u8, r_joypad: u8) -> u8 {
    (r_joypad & 0xF0) | if !spec_bit8(r_joypad, 4) && !spec_bit8(r_joypad, 5) {
        0x0F & (state | (state >> 4))
    } else if !spec_bit8(r_joypad, 4) {
        0x0F & (state >> 4)
    } else if !spec_bit8(r_joypad, 5) {
        0x0F & state
    } else {
        0x0F
    }
}

impl Joypad {
    pub fn new() -> (r: Joypad)
        ensures
            r.0 == 0xFF,
    {
        Joypad(0xFF)
    }

    pub fn read(&self, r_joypad: u8) -> (r: u8)
        ensures
            r == spec_joypad_read(self.0, r_joypad),
    {
        (r_joypad & 0xF0) | match (is_bit_set(r_joypad, 4), is_bit_set(r_joypad, 5)) {
            (false, false) => 0x0F & (self.0 | (self.0 >> 4)),  // both action & direction buttons
            (false, true) => 0x0F & (self.0 >> 4),  // only direction buttons
            (true, false) => 0x0F & self.0,  // only action buttons
            (true, true) => 0x0F,  // none
        }
    }

    /// Latch a press; true exactly when the button was up until now.
    pub fn pressed(&mut self, button: Button) -> (r: bool)
        ensures
            button is UNKNOWN ==> final(self).0 == old(self).0 && !r,
            !(button is UNKNOWN) && !spec_bit8(old(self).0, spec_button_bit(button)) ==> (final(self).0 == old(self).0 && !r),
            !(button is UNKNOWN) && spec_bit8(old(self).0, spec_button_bit(button)) ==> (final(self).0 == (old(self).0 & !(1u8 << spec_button_bit(button))) && r),
    {
        if let Button::UNKNOWN = button {
            return false;
        }
        let bit = button.bit();
        if !is_bit_set(self.0, bit) {
            return false;
        }
        self.0 = self.0 & !(1u8 << bit);
        true
    }

    pub fn released(&mut self, button: Button)
        ensures
            button is UNKNOWN ==> final(self).0 == old(self).0,
            !(button is UNKNOWN) ==> final(self).0 == (old(self).0 | (1u8 << spec_button_bit(button))),
    {
        if let Button::UNKNOWN = button {
            return ;
        }
        let bit = button.bit();
        self.0 = self.0 | (1u8 << bit);
    }
}

} // verus!
