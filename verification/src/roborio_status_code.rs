use vstd::prelude::*;

use crate::bits::{is_bit_mask, lemma_bit_masks, write_flag};

verus! {

/// The fields of the status byte the robot sends the driver station, least
/// significant bit first: disabled, teleop code running, autonomous code running,
/// test code running, the sender is a roboRIO, the robot has code, and two bits
/// of unknown meaning.
pub struct RobotStatusCodeView {
    pub disabled: bool,
    pub teleop_code: bool,
    pub auton_code: bool,
    pub test_code: bool,
    pub is_roborio: bool,
    pub robot_has_code: bool,
    pub bit_6: bool,
    pub bit_7: bool,
}

pub open spec fn decode_robot_status_code(b: u8) -> RobotStatusCodeView {
    RobotStatusCodeView {
        disabled: b & 1 != 0,
        teleop_code: b & 2 != 0,
        auton_code: b & 4 != 0,
        test_code: b & 8 != 0,
        is_roborio: b & 16 != 0,
        robot_has_code: b & 32 != 0,
        bit_6: b & 64 != 0,
        bit_7: b & 128 != 0,
    }
}

/// The status the robot reports to the driver station.
#[derive(Default, Clone, Copy, Debug, PartialEq, Eq, Hash)]
pub struct RobotStatusCode(pub u8);

impl View for RobotStatusCode {
    type V = RobotStatusCodeView;

    open spec fn view(&self) -> RobotStatusCodeView {
        decode_robot_status_code(self.0)
    }
}

impl RobotStatusCode {
    pub fn new() -> (r: Self)
        ensures
            r.0 == 0,
    {
        RobotStatusCode(0)
    }

    pub fn from_bits(bits: u8) -> (r: Self)
        ensures
            r.0 == bits,
            r@ == decode_robot_status_code(bits),
    {
        RobotStatusCode(bits)
    }

    pub fn to_bits(&self) -> (r: u8)
        ensures
            r == self.0,
    {
        self.0
    }

    fn set_flag(&mut self, m: u8, on: bool)
        requires
            is_bit_mask(m),
        ensures
            final(self).0 & m != 0 <==> on,
            forall|m2: u8| m & m2 == 0 ==> #[trigger] (final(self).0 & m2) == old(self).0 & m2,
    {
        self.0 = write_flag(self.0, m, on);
    }

    pub fn set_has_robot_code(&mut self, has_robot_code: bool) -> (r: &mut Self)
        ensures
            *final(self) == *final(r),
            r@ == (RobotStatusCodeView { robot_has_code: has_robot_code, ..old(self)@ }),
    {
        self.set_flag(32, has_robot_code);
        proof {
            lemma_bit_masks();
        }
        self
    }

    pub fn has_robot_code(&self) -> (r: bool)
        ensures
            r == self@.robot_has_code,
    {
        self.0 & 32 != 0
    }

    /// Marks the robot disabled, running no mode's code.
    pub fn set_disabled(&mut self) -> (r: &mut Self)
        ensures
            *final(self) == *final(r),
            r@ == (RobotStatusCodeView { disabled: true, teleop_code: false, test_code: false, auton_code: false, ..old(self)@ }),
    {
        self.set_flag(1, true);
        self.set_flag(2, false);
        self.set_flag(8, false);
        self.set_flag(4, false);
        proof {
            lemma_bit_masks();
        }
        self
    }

    /// Marks the robot running teleop code, and only that.
    pub fn set_teleop(&mut self) -> (r: &mut Self)
        ensures
            *final(self) == *final(r),
            r@ == (RobotStatusCodeView { disabled: false, teleop_code: true, test_code: false, auton_code: false, ..old(self)@ }),
    {
        self.set_flag(1, false);
        self.set_flag(2, true);
        self.set_flag(8, false);
        self.set_flag(4, false);
        proof {
            lemma_bit_masks();
        }
        self
    }

    /// Marks the robot running test code, and only that.
    pub fn set_test(&mut self) -> (r: &mut Self)
        ensures
            *final(self) == *final(r),
            r@ == (RobotStatusCodeView { disabled: false, teleop_code: false, test_code: true, auton_code: false, ..old(self)@ }),
    {
        self.set_flag(1, false);
        self.set_flag(2, false);
        self.set_flag(8, true);
        self.set_flag(4, false);
        proof {
            lemma_bit_masks();
        }
        self
    }

    /// Marks the robot running autonomous code, and only that.
    pub fn observe_robot_autonomus(&mut self) -> (r: &mut Self)
        ensures
            *final(self) == *final(r),
            r@ == (RobotStatusCodeView { disabled: false, teleop_code: false, test_code: false, auton_code: true, ..old(self)@ }),
    {
        self.set_flag(1, false);
        self.set_flag(2, false);
        self.set_flag(8, false);
        self.set_flag(4, true);
        proof {
            lemma_bit_masks();
        }
        self
    }

    pub fn set_is_roborio(&mut self, is_roborio: bool) -> (r: &mut Self)
        ensures
            *final(self) == *final(r),
            r@ == (RobotStatusCodeView { is_roborio: is_roborio, ..old(self)@ }),
    {
        self.set_flag(16, is_roborio);
        proof {
            lemma_bit_masks();
        }
        self
    }
}

/// The status byte a robot reports, bit by bit from the least significant:
/// disabled, running teleop code, running autonomous code, running test code,
/// a roboRIO, robot code present, then two bits of unknown meaning.
pub proof fn law_robot_status_bits(b: u8)
    ensures
        decode_robot_status_code(b).disabled == ((b >> 0u8) & 1 == 1),
        decode_robot_status_code(b).teleop_code == ((b >> 1u8) & 1 == 1),
        decode_robot_status_code(b).auton_code == ((b >> 2u8) & 1 == 1),
        decode_robot_status_code(b).test_code == ((b >> 3u8) & 1 == 1),
        decode_robot_status_code(b).is_roborio == ((b >> 4u8) & 1 == 1),
        decode_robot_status_code(b).robot_has_code == ((b >> 5u8) & 1 == 1),
        decode_robot_status_code(b).bit_6 == ((b >> 6u8) & 1 == 1),
        decode_robot_status_code(b).bit_7 == ((b >> 7u8) & 1 == 1),
{
    assert((b & 1 != 0) == ((b >> 0u8) & 1 == 1) && (b & 2 != 0) == ((b >> 1u8) & 1 == 1) && (b & 4
        != 0) == ((b >> 2u8) & 1 == 1) && (b & 8 != 0) == ((b >> 3u8) & 1 == 1) && (b & 16 != 0) == ((b
        >> 4u8) & 1 == 1) && (b & 32 != 0) == ((b >> 5u8) & 1 == 1) && (b & 64 != 0) == ((b >> 6u8) & 1
        == 1) && (b & 128 != 0) == ((b >> 7u8) & 1 == 1)) by (bit_vector);
}

} // verus!
