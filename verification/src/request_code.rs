use vstd::prelude::*;

use crate::bits::{is_bit_mask, lemma_bit_masks, write_flag};

verus! {

/// The fields of the request byte the driver station sends the robot, least
/// significant bit first: request the library and roboRIO version, a reserved
/// bit, restart the robot code, restart the roboRIO, a "normal" request bit, and
/// three reserved bits.
pub struct RobotRequestCodeView {
    pub request_tcp_lib_info: bool,
    pub reserved_0: bool,
    pub restart_roborio_code: bool,
    pub restart_roborio: bool,
    pub request_normal: bool,
    pub reserved_1: u8,
}

pub open spec fn decode_robot_request_code(b: u8) -> RobotRequestCodeView {
    RobotRequestCodeView {
        request_tcp_lib_info: b & 1 != 0,
        reserved_0: b & 2 != 0,
        restart_roborio_code: b & 4 != 0,
        restart_roborio: b & 8 != 0,
        request_normal: b & 16 != 0,
        reserved_1: b & 224,
    }
}

/// The request the driver station sends the robot.
#[derive(Default, Clone, Copy, Debug, PartialEq, Eq, Hash)]
pub struct RobotRequestCode(pub u8);

impl View for RobotRequestCode {
    type V = RobotRequestCodeView;

    open spec fn view(&self) -> RobotRequestCodeView {
        decode_robot_request_code(self.0)
    }
}

impl RobotRequestCode {
    pub fn new() -> (r: Self)
        ensures
            r.0 == 0,
    {
        RobotRequestCode(0)
    }

    pub fn from_bits(bits: u8) -> (r: Self)
        ensures
            r.0 == bits,
            r@ == decode_robot_request_code(bits),
    {
        RobotRequestCode(bits)
    }

    pub fn to_bits(&self) -> (r: u8)
        ensures
            r == self.0,
    {
        self.0
    }

    fn set_flag(&mut self, m: u8, on: bool)
        requires
            is_bit_mask(m),
        ensures
            final(self).0 & m != 0 <==> on,
            forall|m2: u8| m & m2 == 0 ==> #[trigger] (final(self).0 & m2) == old(self).0 & m2,
    {
        self.0 = write_flag(self.0, m, on);
    }

    pub fn is_requesting_lib_info(&self) -> (r: bool)
        ensures
            r == self@.request_tcp_lib_info,
    {
        self.0 & 1 != 0
    }

    pub fn set_request_lib(&mut self, val: bool) -> (r: &mut Self)
        ensures
            *final(self) == *final(r),
            r@ == (RobotRequestCodeView { request_tcp_lib_info: val, ..old(self)@ }),
    {
        self.set_flag(1, val);
        proof {
            lemma_bit_masks();
        }
        self
    }

    /// Whether a reserved bit is set.
    pub fn is_invalid(&self) -> (r: bool)
        ensures
            r == (self@.reserved_0 || self@.reserved_1 != 0),
    {
        self.0 & 2 != 0 || self.0 & 224 != 0
    }

    pub fn should_restart_roborio(&self) -> (r: bool)
        ensures
            r == self@.restart_roborio,
    {
        self.0 & 8 != 0
    }

    pub fn should_restart_roborio_code(&self) -> (r: bool)
        ensures
            r == self@.restart_roborio_code,
    {
        self.0 & 4 != 0
    }

    pub fn set_restart_roborio(&mut self, restart_roborio: bool) -> (r: &mut Self)
        ensures
            *final(self) == *final(r),
            r@ == (RobotRequestCodeView { restart_roborio: restart_roborio, ..old(self)@ }),
    {
        self.set_flag(8, restart_roborio);
        proof {
            lemma_bit_masks();
        }
        self
    }

    pub fn set_restart_roborio_code(&mut self, restart_roborio_code: bool) -> (r: &mut Self)
        ensures
            *final(self) == *final(r),
            r@ == (RobotRequestCodeView { restart_roborio_code: restart_roborio_code, ..old(self)@ }),
    {
        self.set_flag(4, restart_roborio_code);
        proof {
            lemma_bit_masks();
        }
        self
    }
}

/// The fields of the request byte the robot sends the driver station, least
/// significant bit first: request the time, request to be disabled, and six bits
/// of unknown meaning.
pub struct DriverstationRequestCodeView {
    pub request_time: bool,
    pub request_disable: bool,
    pub others: u8,
}

pub open spec fn decode_driverstation_request_code(b: u8) -> DriverstationRequestCodeView {
    DriverstationRequestCodeView {
        request_time: b & 1 != 0,
        request_disable: b & 2 != 0,
        others: b & 252,
    }
}

/// The request the robot sends the driver station.
#[derive(Default, Clone, Copy, Debug, PartialEq, Eq, Hash)]
pub struct DriverstationRequestCode(pub u8);

impl View for DriverstationRequestCode {
    type V = DriverstationRequestCodeView;

    open spec fn view(&self) -> DriverstationRequestCodeView {
        decode_driverstation_request_code(self.0)
    }
}

impl DriverstationRequestCode {
    pub fn new() -> (r: Self)
        ensures
            r.0 == 0,
    {
        DriverstationRequestCode(0)
    }

    pub fn from_bits(bits: u8) -> (r: Self)
        ensures
            r.0 == bits,
            r@ == decode_driverstation_request_code(bits),
    {
        DriverstationRequestCode(bits)
    }

    pub fn to_bits(&self) -> (r: u8)
        ensures
            r == self.0,
    {
        self.0
    }

    fn set_flag(&mut self, m: u8, on: bool)
        requires
            is_bit_mask(m),
        ensures
            final(self).0 & m != 0 <==> on,
            forall|m2: u8| m & m2 == 0 ==> #[trigger] (final(self).0 & m2) == old(self).0 & m2,
    {
        self.0 = write_flag(self.0, m, on);
    }

    pub fn request_time(&self) -> (r: bool)
        ensures
            r == self@.request_time,
    {
        self.0 & 1 != 0
    }

    pub fn request_disabled(&self) -> (r: bool)
        ensures
            r == self@.request_disable,
    {
        self.0 & 2 != 0
    }

    /// The same bit as `request_disabled`.
    pub fn request_whatever_makes_the_robot_not_enable(&self) -> (r: bool)
        ensures
            r == self@.request_disable,
    {
        self.0 & 2 != 0
    }

    pub fn set_request_time(&mut self, request: bool) -> (r: &mut Self)
        ensures
            *final(self) == *final(r),
            r@ == (DriverstationRequestCodeView { request_time: request, ..old(self)@ }),
    {
        self.set_flag(1, request);
        proof {
            lemma_bit_masks();
            lemma_low_bits_disjoint();
        }
        self
    }

    pub fn set_request_disable(&mut self, disable: bool) -> (r: &mut Self)
        ensures
            *final(self) == *final(r),
            r@ == (DriverstationRequestCodeView { request_disable: disable, ..old(self)@ }),
    {
        self.set_flag(2, disable);
        proof {
            lemma_bit_masks();
            lemma_low_bits_disjoint();
        }
        self
    }
}

/// The two low bits share nothing with the six high ones.
proof fn lemma_low_bits_disjoint()
    ensures
        1u8 & 252 == 0 && 2u8 & 252 == 0 && 1u8 & 2 == 0,
{
    lemma_bit_masks();
    assert(1u8 & 252 == 0 && 2u8 & 252 == 0) by (bit_vector);
}

/// The request byte a driver station sends, bit by bit from the least
/// significant: bit 0 asks for the library and roboRIO versions, bit 2
/// restarts the robot code, bit 3 restarts the roboRIO, bit 4 is the normal
/// request; bit 1 and bits 5 to 7 are reserved.
pub proof fn law_robot_request_bits(b: u8)
    ensures
        decode_robot_request_code(b).request_tcp_lib_info == ((b >> 0u8) & 1 == 1),
        decode_robot_request_code(b).reserved_0 == ((b >> 1u8) & 1 == 1),
        decode_robot_request_code(b).restart_roborio_code == ((b >> 2u8) & 1 == 1),
        decode_robot_request_code(b).restart_roborio == ((b >> 3u8) & 1 == 1),
        decode_robot_request_code(b).request_normal == ((b >> 4u8) & 1 == 1),
        decode_robot_request_code(b).reserved_1 == (b >> 5u8) << 5u8,
{
    assert((b & 1 != 0) == ((b >> 0u8) & 1 == 1) && (b & 2 != 0) == ((b >> 1u8) & 1 == 1) && (b & 4
        != 0) == ((b >> 2u8) & 1 == 1) && (b & 8 != 0) == ((b >> 3u8) & 1 == 1) && (b & 16 != 0) == ((b
        >> 4u8) & 1 == 1) && b & 224 == (b >> 5u8) << 5u8) by (bit_vector);
}

/// The request byte a robot sends, bit by bit from the least significant:
/// bit 0 asks for the time, bit 1 asks to be disabled; bits 2 to 7 are kept
/// as they come.
pub proof fn law_driverstation_request_bits(b: u8)
    ensures
        decode_driverstation_request_code(b).request_time == ((b >> 0u8) & 1 == 1),
        decode_driverstation_request_code(b).request_disable == ((b >> 1u8) & 1 == 1),
        decode_driverstation_request_code(b).others == (b >> 2u8) << 2u8,
{
    assert((b & 1 != 0) == ((b >> 0u8) & 1 == 1) && (b & 2 != 0) == ((b >> 1u8) & 1 == 1) && b & 252
        == (b >> 2u8) << 2u8) by (bit_vector);
}

} // verus!
