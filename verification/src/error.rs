use vstd::prelude::*;

use crate::buffer_reader::BufferReaderError;
use crate::buffer_writter::BufferWritterError;
use crate::joystick::JoystickParseError;

verus! {

/// Why a packet between the driver station and the robot could not be read or
/// written.
#[derive(Debug)]
pub enum RobotPacketParseError {
    BufferWriteError(BufferWritterError),
    BufferReaderError(BufferReaderError),
    DriverToRobotInvalidCommVersion(u8),
    InvalidControlCode(u8),
    InvalidRequestCode(u8),
    InvalidStationCode(u8),
    JoystickParseError(JoystickParseError),
    DriverToRobotInvalidExtraTag(u8),
    TooManyJoysticksInPacket,
    RobotToDriverInvalidCommVersion(u8),
    RobotToDriverInvalidUsageTag(u8),
    InvalidTimeZoneData,
    InvalidTimeData,
}

impl From<BufferReaderError> for RobotPacketParseError {
    fn from(value: BufferReaderError) -> (r: Self)
        ensures
            r == RobotPacketParseError::BufferReaderError(value),
    {
        RobotPacketParseError::BufferReaderError(value)
    }
}

impl vstd::std_specs::convert::FromSpecImpl<BufferReaderError> for RobotPacketParseError {
    open spec fn obeys_from_spec() -> bool {
        true
    }

    open spec fn from_spec(v: BufferReaderError) -> Self {
        RobotPacketParseError::BufferReaderError(v)
    }
}

impl From<BufferWritterError> for RobotPacketParseError {
    fn from(value: BufferWritterError) -> (r: Self)
        ensures
            r == RobotPacketParseError::BufferWriteError(value),
    {
        RobotPacketParseError::BufferWriteError(value)
    }
}

impl vstd::std_specs::convert::FromSpecImpl<BufferWritterError> for RobotPacketParseError {
    open spec fn obeys_from_spec() -> bool {
        true
    }

    open spec fn from_spec(v: BufferWritterError) -> Self {
        RobotPacketParseError::BufferWriteError(v)
    }
}

impl From<JoystickParseError> for RobotPacketParseError {
    fn from(value: JoystickParseError) -> (r: Self)
        ensures
            r == RobotPacketParseError::JoystickParseError(value),
    {
        RobotPacketParseError::JoystickParseError(value)
    }
}

impl vstd::std_specs::convert::FromSpecImpl<JoystickParseError> for RobotPacketParseError {
    open spec fn obeys_from_spec() -> bool {
        true
    }

    open spec fn from_spec(v: JoystickParseError) -> Self {
        RobotPacketParseError::JoystickParseError(v)
    }
}

} // verus!
