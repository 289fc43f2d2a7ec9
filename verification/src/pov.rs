use vstd::prelude::*;

use crate::joystick::NonNegU16;

verus! {

/// A pov hat built from four direction buttons: bit 0 up, bit 1 right, bit 2
/// down, bit 3 left.
#[derive(Debug, Clone, Copy, Default)]
pub struct Pov {
    pub val: u8,
}

/// The angle of a combination of pressed directions, clockwise from up in
/// degrees, or `0xFFFF` when it names no direction.
pub open spec fn pov_angle(val: u8) -> u16 {
    if val == 1 {
        0
    } else if val == 3 {
        45
    } else if val == 2 {
        90
    } else if val == 6 {
        135
    } else if val == 4 {
        180
    } else if val == 12 {
        225
    } else if val == 8 {
        270
    } else if val == 9 {
        315
    } else {
        0xFFFF
    }
}

impl Pov {
    pub fn to_val(&self) -> (r: NonNegU16)
        ensures
            r@ == pov_angle(self.val),
    {
        match self.val {
            0b0001 => NonNegU16::new(0),
            0b0011 => NonNegU16::new(45),
            0b0010 => NonNegU16::new(90),
            0b0110 => NonNegU16::new(90 + 45),
            0b0100 => NonNegU16::new(180),
            0b1100 => NonNegU16::new(180 + 45),
            0b1000 => NonNegU16::new(180 + 90),
            0b1001 => NonNegU16::new(180 + 90 + 45),
            _ => NonNegU16::none(),
        }
    }

    pub fn set_up(&mut self, pressed: bool)
        ensures
            final(self).val == (old(self).val & !1u8) | (if pressed {
                1u8
            } else {
                0u8
            }),
    {
        let bit: u8 = if pressed {
            1
        } else {
            0
        };
        self.val = self.val & !1u8 | bit;
    }

    pub fn set_right(&mut self, pressed: bool)
        ensures
            final(self).val == (old(self).val & !2u8) | (if pressed {
                2u8
            } else {
                0u8
            }),
    {
        let bit: u8 = if pressed {
            2
        } else {
            0
        };
        self.val = self.val & !2u8 | bit;
    }

    pub fn set_down(&mut self, pressed: bool)
        ensures
            final(self).val == (old(self).val & !4u8) | (if pressed {
                4u8
            } else {
                0u8
            }),
    {
        let bit: u8 = if pressed {
            4
        } else {
            0
        };
        self.val = self.val & !4u8 | bit;
    }

    pub fn set_left(&mut self, pressed: bool)
        ensures
            final(self).val == (old(self).val & !8u8) | (if pressed {
                8u8
            } else {
                0u8
            }),
    {
        let bit: u8 = if pressed {
            8
        } else {
            0
        };
        self.val = self.val & !8u8 | bit;
    }
}

/// The bit of the direction `d` clockwise from up: 0 up, 1 right, 2 down,
/// 3 left.
pub open spec fn direction_bit(d: nat) -> u8 {
    (1u8 << (d as u8)) as u8
}

/// One direction pressed points the pov at that direction's compass angle,
/// clockwise from up in quarter turns of 90 degrees; two neighbouring
/// directions pressed point half way between them, 45 degrees on from the
/// first going clockwise.
pub proof fn law_pov_compass(d: nat)
    requires
        d < 4,
    ensures
        pov_angle(direction_bit(d)) == 90 * d,
        pov_angle(direction_bit(d) | direction_bit((d + 1) % 4)) == 90 * d + 45,
{
    if d == 0 {
        assert((1u8 << 0u8) == 1u8 && (1u8 << 1u8) == 2u8 && (1u8 | 2u8) == 3u8) by (bit_vector);
    } else if d == 1 {
        assert((1u8 << 1u8) == 2u8 && (1u8 << 2u8) == 4u8 && (2u8 | 4u8) == 6u8) by (bit_vector);
    } else if d == 2 {
        assert((1u8 << 2u8) == 4u8 && (1u8 << 3u8) == 8u8 && (4u8 | 8u8) == 12u8) by (bit_vector);
    } else {
        assert((1u8 << 3u8) == 8u8 && (1u8 << 0u8) == 1u8 && (8u8 | 1u8) == 9u8) by (bit_vector);
    }
}

/// Pressing no direction, two opposite ones, or three or more points the pov
/// nowhere.
pub proof fn law_pov_nowhere(val: u8)
    requires
        val < 16,
        val == 0 || val == 5 || val == 10 || val == 7 || val == 11 || val == 13 || val == 14
            || val == 15,
    ensures
        pov_angle(val) == 0xFFFF,
{
}

} // verus!
