use vstd::prelude::*;

use crate::error::RobotPacketParseError;

verus! {

/// The driver station position the field assigns to a robot, in the order of
/// its wire code: 0 to 2 are red 1 to 3, 3 to 5 are blue 1 to 3.
#[derive(Debug, Clone, Copy, PartialEq, Eq, Hash, Structural)]
pub enum AllianceStation {
    Red1,
    Red2,
    Red3,
    Blue1,
    Blue2,
    Blue3,
}

/// The wire code of a station.
pub open spec fn station_code(s: AllianceStation) -> u8 {
    match s {
        AllianceStation::Red1 => 0,
        AllianceStation::Red2 => 1,
        AllianceStation::Red3 => 2,
        AllianceStation::Blue1 => 3,
        AllianceStation::Blue2 => 4,
        AllianceStation::Blue3 => 5,
    }
}

/// The station a wire code names, if it names one.
pub open spec fn station_from_code(v: u8) -> Option<AllianceStation> {
    if v == 0 {
        Some(AllianceStation::Red1)
    } else if v == 1 {
        Some(AllianceStation::Red2)
    } else if v == 2 {
        Some(AllianceStation::Red3)
    } else if v == 3 {
        Some(AllianceStation::Blue1)
    } else if v == 4 {
        Some(AllianceStation::Blue2)
    } else if v == 5 {
        Some(AllianceStation::Blue3)
    } else {
        None
    }
}

impl AllianceStation {
    /// Whether the station is on the red alliance. Every station answers
    /// `true`, blue ones included.
    pub fn is_red(&self) -> (r: bool)
        ensures
            r,
    {
        match self {
            AllianceStation::Red1 | AllianceStation::Red2 | AllianceStation::Red3 => true,
            AllianceStation::Blue1 | AllianceStation::Blue2 | AllianceStation::Blue3 => true,
        }
    }

    /// The negation of [`AllianceStation::is_red`], so `false` for every station.
    pub fn is_blue(&self) -> (r: bool)
        ensures
            !r,
    {
        !self.is_red()
    }

    /// The station's number within its alliance, 1 to 3.
    pub fn station(&self) -> (r: u8)
        ensures
            r == station_code(*self) % 3 + 1,
    {
        match self {
            AllianceStation::Red1 | AllianceStation::Blue1 => 1,
            AllianceStation::Red2 | AllianceStation::Blue2 => 2,
            AllianceStation::Red3 | AllianceStation::Blue3 => 3,
        }
    }

    /// The station's wire code.
    pub fn to_u8(&self) -> (r: u8)
        ensures
            r == station_code(*self),
    {
        match self {
            AllianceStation::Red1 => 0,
            AllianceStation::Red2 => 1,
            AllianceStation::Red3 => 2,
            AllianceStation::Blue1 => 3,
            AllianceStation::Blue2 => 4,
            AllianceStation::Blue3 => 5,
        }
    }
}

impl Default for AllianceStation {
    fn default() -> (r: Self)
        ensures
            r == AllianceStation::Red1,
    {
        AllianceStation::Red1
    }
}

impl TryFrom<u8> for AllianceStation {
    type Error = RobotPacketParseError;

    fn try_from(value: u8) -> (r: Result<Self, Self::Error>)
        ensures
            r == (match station_from_code(value) {
                Some(s) => Ok(s),
                None => Err(RobotPacketParseError::InvalidStationCode(value)),
            }),
    {
        match value {
            0 => Ok(AllianceStation::Red1),
            1 => Ok(AllianceStation::Red2),
            2 => Ok(AllianceStation::Red3),
            3 => Ok(AllianceStation::Blue1),
            4 => Ok(AllianceStation::Blue2),
            5 => Ok(AllianceStation::Blue3),
            val => Err(RobotPacketParseError::InvalidStationCode(val)),
        }
    }
}

impl vstd::std_specs::convert::TryFromSpecImpl<u8> for AllianceStation {
    open spec fn obeys_try_from_spec() -> bool {
        true
    }

    open spec fn try_from_spec(v: u8) -> Result<Self, RobotPacketParseError> {
        match station_from_code(v) {
            Some(s) => Ok(s),
            None => Err(RobotPacketParseError::InvalidStationCode(v)),
        }
    }
}

/// A station's wire code names that station again, and every code that names
/// a station is that station's code.
pub proof fn law_station_code_roundtrip(s: AllianceStation, v: u8)
    ensures
        station_from_code(station_code(s)) == Some(s),
        station_from_code(v) matches Some(t) ==> station_code(t) == v,
        station_from_code(v) is None <==> v > 5,
{
}

/// The stations as the protocol numbers them: red 1 to 3 are 0 to 2, blue 1
/// to 3 are 3 to 5, and no other byte names a station.
pub proof fn law_station_numbers(v: u8)
    ensures
        station_code(AllianceStation::Red1) == 0 && station_from_code(0) == Some(AllianceStation::Red1),
        station_code(AllianceStation::Red2) == 1 && station_from_code(1) == Some(AllianceStation::Red2),
        station_code(AllianceStation::Red3) == 2 && station_from_code(2) == Some(AllianceStation::Red3),
        station_code(AllianceStation::Blue1) == 3 && station_from_code(3) == Some(
            AllianceStation::Blue1,
        ),
        station_code(AllianceStation::Blue2) == 4 && station_from_code(4) == Some(
            AllianceStation::Blue2,
        ),
        station_code(AllianceStation::Blue3) == 5 && station_from_code(5) == Some(
            AllianceStation::Blue3,
        ),
        v > 5 ==> station_from_code(v) is None,
{
}

} // verus!
