use vstd::prelude::*;

verus! {

/// A warning a robot program reports to the driver station console, by its code.
#[derive(Debug, Clone, Copy, PartialEq, Eq, Structural)]
pub enum Warnings {
    SampleRateTooHigh,
    VoltageOutOfRange,
    CompressorTaskError,
    LoopTimingError,
    NonBinaryDigitalValue,
    IncorrectBatteryChannel,
    BadJoystickIndex,
    BadJoystickAxis,
    InvalidMotorIndex,
    DriverStationTaskError,
    EnhancedIOPWMPeriodOutOfRange,
    SPIWriteNoMOSI,
    SPIReadNoMISO,
    SPIReadNoData,
    IncompatibleState,
    Unknown(i32),
}

/// The code of each warning; `Unknown` carries its own.
pub open spec fn warnings_code(w: Warnings) -> i32 {
    match w {
        Warnings::SampleRateTooHigh => 1i32,
        Warnings::VoltageOutOfRange => 2i32,
        Warnings::CompressorTaskError => 3i32,
        Warnings::LoopTimingError => 4i32,
        Warnings::NonBinaryDigitalValue => 5i32,
        Warnings::IncorrectBatteryChannel => 6i32,
        Warnings::BadJoystickIndex => 7i32,
        Warnings::BadJoystickAxis => 8i32,
        Warnings::InvalidMotorIndex => 9i32,
        Warnings::DriverStationTaskError => 10i32,
        Warnings::EnhancedIOPWMPeriodOutOfRange => 11i32,
        Warnings::SPIWriteNoMOSI => 12i32,
        Warnings::SPIReadNoMISO => 13i32,
        Warnings::SPIReadNoData => 14i32,
        Warnings::IncompatibleState => 15i32,
        Warnings::Unknown(v) => v,
    }
}

/// The warning a code names: the named one, or `Unknown` for any
/// other code.
pub open spec fn warnings_from_code(v: i32) -> Warnings {
    if v == 1 {
        Warnings::SampleRateTooHigh
    } else if v == 2 {
        Warnings::VoltageOutOfRange
    } else if v == 3 {
        Warnings::CompressorTaskError
    } else if v == 4 {
        Warnings::LoopTimingError
    } else if v == 5 {
        Warnings::NonBinaryDigitalValue
    } else if v == 6 {
        Warnings::IncorrectBatteryChannel
    } else if v == 7 {
        Warnings::BadJoystickIndex
    } else if v == 8 {
        Warnings::BadJoystickAxis
    } else if v == 9 {
        Warnings::InvalidMotorIndex
    } else if v == 10 {
        Warnings::DriverStationTaskError
    } else if v == 11 {
        Warnings::EnhancedIOPWMPeriodOutOfRange
    } else if v == 12 {
        Warnings::SPIWriteNoMOSI
    } else if v == 13 {
        Warnings::SPIReadNoMISO
    } else if v == 14 {
        Warnings::SPIReadNoData
    } else if v == 15 {
        Warnings::IncompatibleState
    } else {
        Warnings::Unknown(v)
    }
}

impl From<i32> for Warnings {
    fn from(v: i32) -> (r: Self)
        ensures
            r == warnings_from_code(v),
    {
        match v {
            1 => Warnings::SampleRateTooHigh,
            2 => Warnings::VoltageOutOfRange,
            3 => Warnings::CompressorTaskError,
            4 => Warnings::LoopTimingError,
            5 => Warnings::NonBinaryDigitalValue,
            6 => Warnings::IncorrectBatteryChannel,
            7 => Warnings::BadJoystickIndex,
            8 => Warnings::BadJoystickAxis,
            9 => Warnings::InvalidMotorIndex,
            10 => Warnings::DriverStationTaskError,
            11 => Warnings::EnhancedIOPWMPeriodOutOfRange,
            12 => Warnings::SPIWriteNoMOSI,
            13 => Warnings::SPIReadNoMISO,
            14 => Warnings::SPIReadNoData,
            15 => Warnings::IncompatibleState,
            val => Warnings::Unknown(val),
        }
    }
}

impl vstd::std_specs::convert::FromSpecImpl<i32> for Warnings {
    open spec fn obeys_from_spec() -> bool {
        true
    }

    open spec fn from_spec(v: i32) -> Self {
        warnings_from_code(v)
    }
}

impl From<Warnings> for i32 {
    fn from(v: Warnings) -> (r: Self)
        ensures
            r == warnings_code(v),
    {
        match v {
            Warnings::SampleRateTooHigh => 1,
            Warnings::VoltageOutOfRange => 2,
            Warnings::CompressorTaskError => 3,
            Warnings::LoopTimingError => 4,
            Warnings::NonBinaryDigitalValue => 5,
            Warnings::IncorrectBatteryChannel => 6,
            Warnings::BadJoystickIndex => 7,
            Warnings::BadJoystickAxis => 8,
            Warnings::InvalidMotorIndex => 9,
            Warnings::DriverStationTaskError => 10,
            Warnings::EnhancedIOPWMPeriodOutOfRange => 11,
            Warnings::SPIWriteNoMOSI => 12,
            Warnings::SPIReadNoMISO => 13,
            Warnings::SPIReadNoData => 14,
            Warnings::IncompatibleState => 15,
            Warnings::Unknown(val) => val,
        }
    }
}

impl vstd::std_specs::convert::FromSpecImpl<Warnings> for i32 {
    open spec fn obeys_from_spec() -> bool {
        true
    }

    open spec fn from_spec(v: Warnings) -> i32 {
        warnings_code(v)
    }
}

/// A code turned into a warning and back is the same code; a warning turned
/// into its code and back is the same warning, unless it is an `Unknown` that
/// carries a named code.
pub proof fn law_warnings_code_roundtrip(v: i32, w: Warnings)
    requires
        w matches Warnings::Unknown(c) ==> warnings_from_code(c) is Unknown,
    ensures
        warnings_code(warnings_from_code(v)) == v,
        warnings_from_code(warnings_code(w)) == w,
{
}

/// An error a robot program reports to the driver station console, by its code.
#[derive(Debug, Clone, Copy, PartialEq, Eq, Structural)]
pub enum Errors {
    ModuleIndexOutOfRange,
    ChannelIndexOutOfRange,
    NotAllocated,
    ResourceAlreadyAllocated,
    NoAvailableResources,
    NullParameter,
    Timeout,
    CompassManufacturerError,
    CompassTypeError,
    IncompatibleMode,
    AnalogTriggerLimitOrderError,
    AnalogTriggerPulseOutputError,
    TaskError,
    TaskIDError,
    TaskDeletedError,
    TaskOptionsError,
    TaskMemoryError,
    TaskPriorityError,
    DriveUninitialized,
    CompressorNonMatching,
    CompressorAlreadyDefined,
    CompressorUndefined,
    InconsistentArrayValueAdded,
    MismatchedComplexTypeClose,
    DashboardDataOverflow,
    DashboardDataCollision,
    EnhancedIOMissing,
    LineNotOutput,
    ParameterOutOfRange,
    SPIClockRateTooLow,
    JaguarVersionError,
    JaguarMessageNotFound,
    NetworkTablesReadError,
    NetworkTablesBufferFull,
    NetworkTablesWrongType,
    NetworkTablesCorrupt,
    SmartDashboardMissingKey,
    CommandIllegalUse,
    UnsupportedInSimulation,
    CameraServerError,
    InvalidParameter,
    AssertionFailure,
    Error,
    Unknown(i32),
}

/// The code of each error; `Unknown` carries its own.
pub open spec fn errors_code(w: Errors) -> i32 {
    match w {
        Errors::ModuleIndexOutOfRange => -1i32,
        Errors::ChannelIndexOutOfRange => -45i32,
        Errors::NotAllocated => -2i32,
        Errors::ResourceAlreadyAllocated => -3i32,
        Errors::NoAvailableResources => -4i32,
        Errors::NullParameter => -5i32,
        Errors::Timeout => -6i32,
        Errors::CompassManufacturerError => -7i32,
        Errors::CompassTypeError => -8i32,
        Errors::IncompatibleMode => -9i32,
        Errors::AnalogTriggerLimitOrderError => -10i32,
        Errors::AnalogTriggerPulseOutputError => -11i32,
        Errors::TaskError => -12i32,
        Errors::TaskIDError => -13i32,
        Errors::TaskDeletedError => -14i32,
        Errors::TaskOptionsError => -15i32,
        Errors::TaskMemoryError => -16i32,
        Errors::TaskPriorityError => -17i32,
        Errors::DriveUninitialized => -18i32,
        Errors::CompressorNonMatching => -19i32,
        Errors::CompressorAlreadyDefined => -20i32,
        Errors::CompressorUndefined => -21i32,
        Errors::InconsistentArrayValueAdded => -22i32,
        Errors::MismatchedComplexTypeClose => -23i32,
        Errors::DashboardDataOverflow => -24i32,
        Errors::DashboardDataCollision => -25i32,
        Errors::EnhancedIOMissing => -26i32,
        Errors::LineNotOutput => -27i32,
        Errors::ParameterOutOfRange => -28i32,
        Errors::SPIClockRateTooLow => -29i32,
        Errors::JaguarVersionError => -30i32,
        Errors::JaguarMessageNotFound => -31i32,
        Errors::NetworkTablesReadError => -40i32,
        Errors::NetworkTablesBufferFull => -41i32,
        Errors::NetworkTablesWrongType => -42i32,
        Errors::NetworkTablesCorrupt => -43i32,
        Errors::SmartDashboardMissingKey => -44i32,
        Errors::CommandIllegalUse => -50i32,
        Errors::UnsupportedInSimulation => -80i32,
        Errors::CameraServerError => -90i32,
        Errors::InvalidParameter => -100i32,
        Errors::AssertionFailure => -110i32,
        Errors::Error => -111i32,
        Errors::Unknown(v) => v,
    }
}

/// The error a code names: the named one, or `Unknown` for any
/// other code.
pub open spec fn errors_from_code(v: i32) -> Errors {
    if v == -1 {
        Errors::ModuleIndexOutOfRange
    } else if v == -45 {
        Errors::ChannelIndexOutOfRange
    } else if v == -2 {
        Errors::NotAllocated
    } else if v == -3 {
        Errors::ResourceAlreadyAllocated
    } else if v == -4 {
        Errors::NoAvailableResources
    } else if v == -5 {
        Errors::NullParameter
    } else if v == -6 {
        Errors::Timeout
    } else if v == -7 {
        Errors::CompassManufacturerError
    } else if v == -8 {
        Errors::CompassTypeError
    } else if v == -9 {
        Errors::IncompatibleMode
    } else if v == -10 {
        Errors::AnalogTriggerLimitOrderError
    } else if v == -11 {
        Errors::AnalogTriggerPulseOutputError
    } else if v == -12 {
        Errors::TaskError
    } else if v == -13 {
        Errors::TaskIDError
    } else if v == -14 {
        Errors::TaskDeletedError
    } else if v == -15 {
        Errors::TaskOptionsError
    } else if v == -16 {
        Errors::TaskMemoryError
    } else if v == -17 {
        Errors::TaskPriorityError
    } else if v == -18 {
        Errors::DriveUninitialized
    } else if v == -19 {
        Errors::CompressorNonMatching
    } else if v == -20 {
        Errors::CompressorAlreadyDefined
    } else if v == -21 {
        Errors::CompressorUndefined
    } else if v == -22 {
        Errors::InconsistentArrayValueAdded
    } else if v == -23 {
        Errors::MismatchedComplexTypeClose
    } else if v == -24 {
        Errors::DashboardDataOverflow
    } else if v == -25 {
        Errors::DashboardDataCollision
    } else if v == -26 {
        Errors::EnhancedIOMissing
    } else if v == -27 {
        Errors::LineNotOutput
    } else if v == -28 {
        Errors::ParameterOutOfRange
    } else if v == -29 {
        Errors::SPIClockRateTooLow
    } else if v == -30 {
        Errors::JaguarVersionError
    } else if v == -31 {
        Errors::JaguarMessageNotFound
    } else if v == -40 {
        Errors::NetworkTablesReadError
    } else if v == -41 {
        Errors::NetworkTablesBufferFull
    } else if v == -42 {
        Errors::NetworkTablesWrongType
    } else if v == -43 {
        Errors::NetworkTablesCorrupt
    } else if v == -44 {
        Errors::SmartDashboardMissingKey
    } else if v == -50 {
        Errors::CommandIllegalUse
    } else if v == -80 {
        Errors::UnsupportedInSimulation
    } else if v == -90 {
        Errors::CameraServerError
    } else if v == -100 {
        Errors::InvalidParameter
    } else if v == -110 {
        Errors::AssertionFailure
    } else if v == -111 {
        Errors::Error
    } else {
        Errors::Unknown(v)
    }
}

impl From<i32> for Errors {
    fn from(v: i32) -> (r: Self)
        ensures
            r == errors_from_code(v),
    {
        match v {
            -1 => Errors::ModuleIndexOutOfRange,
            -45 => Errors::ChannelIndexOutOfRange,
            -2 => Errors::NotAllocated,
            -3 => Errors::ResourceAlreadyAllocated,
            -4 => Errors::NoAvailableResources,
            -5 => Errors::NullParameter,
            -6 => Errors::Timeout,
            -7 => Errors::CompassManufacturerError,
            -8 => Errors::CompassTypeError,
            -9 => Errors::IncompatibleMode,
            -10 => Errors::AnalogTriggerLimitOrderError,
            -11 => Errors::AnalogTriggerPulseOutputError,
            -12 => Errors::TaskError,
            -13 => Errors::TaskIDError,
            -14 => Errors::TaskDeletedError,
            -15 => Errors::TaskOptionsError,
            -16 => Errors::TaskMemoryError,
            -17 => Errors::TaskPriorityError,
            -18 => Errors::DriveUninitialized,
            -19 => Errors::CompressorNonMatching,
            -20 => Errors::CompressorAlreadyDefined,
            -21 => Errors::CompressorUndefined,
            -22 => Errors::InconsistentArrayValueAdded,
            -23 => Errors::MismatchedComplexTypeClose,
            -24 => Errors::DashboardDataOverflow,
            -25 => Errors::DashboardDataCollision,
            -26 => Errors::EnhancedIOMissing,
            -27 => Errors::LineNotOutput,
            -28 => Errors::ParameterOutOfRange,
            -29 => Errors::SPIClockRateTooLow,
            -30 => Errors::JaguarVersionError,
            -31 => Errors::JaguarMessageNotFound,
            -40 => Errors::NetworkTablesReadError,
            -41 => Errors::NetworkTablesBufferFull,
            -42 => Errors::NetworkTablesWrongType,
            -43 => Errors::NetworkTablesCorrupt,
            -44 => Errors::SmartDashboardMissingKey,
            -50 => Errors::CommandIllegalUse,
            -80 => Errors::UnsupportedInSimulation,
            -90 => Errors::CameraServerError,
            -100 => Errors::InvalidParameter,
            -110 => Errors::AssertionFailure,
            -111 => Errors::Error,
            val => Errors::Unknown(val),
        }
    }
}

impl vstd::std_specs::convert::FromSpecImpl<i32> for Errors {
    open spec fn obeys_from_spec() -> bool {
        true
    }

    open spec fn from_spec(v: i32) -> Self {
        errors_from_code(v)
    }
}

impl From<Errors> for i32 {
    fn from(v: Errors) -> (r: Self)
        ensures
            r == errors_code(v),
    {
        match v {
            Errors::ModuleIndexOutOfRange => -1,
            Errors::ChannelIndexOutOfRange => -45,
            Errors::NotAllocated => -2,
            Errors::ResourceAlreadyAllocated => -3,
            Errors::NoAvailableResources => -4,
            Errors::NullParameter => -5,
            Errors::Timeout => -6,
            Errors::CompassManufacturerError => -7,
            Errors::CompassTypeError => -8,
            Errors::IncompatibleMode => -9,
            Errors::AnalogTriggerLimitOrderError => -10,
            Errors::AnalogTriggerPulseOutputError => -11,
            Errors::TaskError => -12,
            Errors::TaskIDError => -13,
            Errors::TaskDeletedError => -14,
            Errors::TaskOptionsError => -15,
            Errors::TaskMemoryError => -16,
            Errors::TaskPriorityError => -17,
            Errors::DriveUninitialized => -18,
            Errors::CompressorNonMatching => -19,
            Errors::CompressorAlreadyDefined => -20,
            Errors::CompressorUndefined => -21,
            Errors::InconsistentArrayValueAdded => -22,
            Errors::MismatchedComplexTypeClose => -23,
            Errors::DashboardDataOverflow => -24,
            Errors::DashboardDataCollision => -25,
            Errors::EnhancedIOMissing => -26,
            Errors::LineNotOutput => -27,
            Errors::ParameterOutOfRange => -28,
            Errors::SPIClockRateTooLow => -29,
            Errors::JaguarVersionError => -30,
            Errors::JaguarMessageNotFound => -31,
            Errors::NetworkTablesReadError => -40,
            Errors::NetworkTablesBufferFull => -41,
            Errors::NetworkTablesWrongType => -42,
            Errors::NetworkTablesCorrupt => -43,
            Errors::SmartDashboardMissingKey => -44,
            Errors::CommandIllegalUse => -50,
            Errors::UnsupportedInSimulation => -80,
            Errors::CameraServerError => -90,
            Errors::InvalidParameter => -100,
            Errors::AssertionFailure => -110,
            Errors::Error => -111,
            Errors::Unknown(val) => val,
        }
    }
}

impl vstd::std_specs::convert::FromSpecImpl<Errors> for i32 {
    open spec fn obeys_from_spec() -> bool {
        true
    }

    open spec fn from_spec(v: Errors) -> i32 {
        errors_code(v)
    }
}

/// A code turned into an error and back is the same code; an error turned into
/// its code and back is the same error, unless it is an `Unknown` that carries
/// a named code.
pub proof fn law_errors_code_roundtrip(v: i32, w: Errors)
    requires
        w matches Errors::Unknown(c) ==> errors_from_code(c) is Unknown,
    ensures
        errors_code(errors_from_code(v)) == v,
        errors_from_code(errors_code(w)) == w,
{
}

/// Each named warning carries the fixed code the protocol gives it, and that
/// code reads back as it.
pub proof fn law_warnings_protocol_codes()
    ensures
        warnings_code(Warnings::SampleRateTooHigh) == 1i32,
        warnings_from_code(1i32) == Warnings::SampleRateTooHigh,
        warnings_code(Warnings::VoltageOutOfRange) == 2i32,
        warnings_from_code(2i32) == Warnings::VoltageOutOfRange,
        warnings_code(Warnings::CompressorTaskError) == 3i32,
        warnings_from_code(3i32) == Warnings::CompressorTaskError,
        warnings_code(Warnings::LoopTimingError) == 4i32,
        warnings_from_code(4i32) == Warnings::LoopTimingError,
        warnings_code(Warnings::NonBinaryDigitalValue) == 5i32,
        warnings_from_code(5i32) == Warnings::NonBinaryDigitalValue,
        warnings_code(Warnings::IncorrectBatteryChannel) == 6i32,
        warnings_from_code(6i32) == Warnings::IncorrectBatteryChannel,
        warnings_code(Warnings::BadJoystickIndex) == 7i32,
        warnings_from_code(7i32) == Warnings::BadJoystickIndex,
        warnings_code(Warnings::BadJoystickAxis) == 8i32,
        warnings_from_code(8i32) == Warnings::BadJoystickAxis,
        warnings_code(Warnings::InvalidMotorIndex) == 9i32,
        warnings_from_code(9i32) == Warnings::InvalidMotorIndex,
        warnings_code(Warnings::DriverStationTaskError) == 10i32,
        warnings_from_code(10i32) == Warnings::DriverStationTaskError,
        warnings_code(Warnings::EnhancedIOPWMPeriodOutOfRange) == 11i32,
        warnings_from_code(11i32) == Warnings::EnhancedIOPWMPeriodOutOfRange,
        warnings_code(Warnings::SPIWriteNoMOSI) == 12i32,
        warnings_from_code(12i32) == Warnings::SPIWriteNoMOSI,
        warnings_code(Warnings::SPIReadNoMISO) == 13i32,
        warnings_from_code(13i32) == Warnings::SPIReadNoMISO,
        warnings_code(Warnings::SPIReadNoData) == 14i32,
        warnings_from_code(14i32) == Warnings::SPIReadNoData,
        warnings_code(Warnings::IncompatibleState) == 15i32,
        warnings_from_code(15i32) == Warnings::IncompatibleState,
{
}

/// Each named error carries the fixed code the protocol gives it, and that
/// code reads back as it.
pub proof fn law_errors_protocol_codes()
    ensures
        errors_code(Errors::ModuleIndexOutOfRange) == -1i32,
        errors_from_code(-1i32) == Errors::ModuleIndexOutOfRange,
        errors_code(Errors::ChannelIndexOutOfRange) == -45i32,
        errors_from_code(-45i32) == Errors::ChannelIndexOutOfRange,
        errors_code(Errors::NotAllocated) == -2i32,
        errors_from_code(-2i32) == Errors::NotAllocated,
        errors_code(Errors::ResourceAlreadyAllocated) == -3i32,
        errors_from_code(-3i32) == Errors::ResourceAlreadyAllocated,
        errors_code(Errors::NoAvailableResources) == -4i32,
        errors_from_code(-4i32) == Errors::NoAvailableResources,
        errors_code(Errors::NullParameter) == -5i32,
        errors_from_code(-5i32) == Errors::NullParameter,
        errors_code(Errors::Timeout) == -6i32,
        errors_from_code(-6i32) == Errors::Timeout,
        errors_code(Errors::CompassManufacturerError) == -7i32,
        errors_from_code(-7i32) == Errors::CompassManufacturerError,
        errors_code(Errors::CompassTypeError) == -8i32,
        errors_from_code(-8i32) == Errors::CompassTypeError,
        errors_code(Errors::IncompatibleMode) == -9i32,
        errors_from_code(-9i32) == Errors::IncompatibleMode,
        errors_code(Errors::AnalogTriggerLimitOrderError) == -10i32,
        errors_from_code(-10i32) == Errors::AnalogTriggerLimitOrderError,
        errors_code(Errors::AnalogTriggerPulseOutputError) == -11i32,
        errors_from_code(-11i32) == Errors::AnalogTriggerPulseOutputError,
        errors_code(Errors::TaskError) == -12i32,
        errors_from_code(-12i32) == Errors::TaskError,
        errors_code(Errors::TaskIDError) == -13i32,
        errors_from_code(-13i32) == Errors::TaskIDError,
        errors_code(Errors::TaskDeletedError) == -14i32,
        errors_from_code(-14i32) == Errors::TaskDeletedError,
        errors_code(Errors::TaskOptionsError) == -15i32,
        errors_from_code(-15i32) == Errors::TaskOptionsError,
        errors_code(Errors::TaskMemoryError) == -16i32,
        errors_from_code(-16i32) == Errors::TaskMemoryError,
        errors_code(Errors::TaskPriorityError) == -17i32,
        errors_from_code(-17i32) == Errors::TaskPriorityError,
        errors_code(Errors::DriveUninitialized) == -18i32,
        errors_from_code(-18i32) == Errors::DriveUninitialized,
        errors_code(Errors::CompressorNonMatching) == -19i32,
        errors_from_code(-19i32) == Errors::CompressorNonMatching,
        errors_code(Errors::CompressorAlreadyDefined) == -20i32,
        errors_from_code(-20i32) == Errors::CompressorAlreadyDefined,
        errors_code(Errors::CompressorUndefined) == -21i32,
        errors_from_code(-21i32) == Errors::CompressorUndefined,
        errors_code(Errors::InconsistentArrayValueAdded) == -22i32,
        errors_from_code(-22i32) == Errors::InconsistentArrayValueAdded,
        errors_code(Errors::MismatchedComplexTypeClose) == -23i32,
        errors_from_code(-23i32) == Errors::MismatchedComplexTypeClose,
        errors_code(Errors::DashboardDataOverflow) == -24i32,
        errors_from_code(-24i32) == Errors::DashboardDataOverflow,
        errors_code(Errors::DashboardDataCollision) == -25i32,
        errors_from_code(-25i32) == Errors::DashboardDataCollision,
        errors_code(Errors::EnhancedIOMissing) == -26i32,
        errors_from_code(-26i32) == Errors::EnhancedIOMissing,
        errors_code(Errors::LineNotOutput) == -27i32,
        errors_from_code(-27i32) == Errors::LineNotOutput,
        errors_code(Errors::ParameterOutOfRange) == -28i32,
        errors_from_code(-28i32) == Errors::ParameterOutOfRange,
        errors_code(Errors::SPIClockRateTooLow) == -29i32,
        errors_from_code(-29i32) == Errors::SPIClockRateTooLow,
        errors_code(Errors::JaguarVersionError) == -30i32,
        errors_from_code(-30i32) == Errors::JaguarVersionError,
        errors_code(Errors::JaguarMessageNotFound) == -31i32,
        errors_from_code(-31i32) == Errors::JaguarMessageNotFound,
        errors_code(Errors::NetworkTablesReadError) == -40i32,
        errors_from_code(-40i32) == Errors::NetworkTablesReadError,
        errors_code(Errors::NetworkTablesBufferFull) == -41i32,
        errors_from_code(-41i32) == Errors::NetworkTablesBufferFull,
        errors_code(Errors::NetworkTablesWrongType) == -42i32,
        errors_from_code(-42i32) == Errors::NetworkTablesWrongType,
        errors_code(Errors::NetworkTablesCorrupt) == -43i32,
        errors_from_code(-43i32) == Errors::NetworkTablesCorrupt,
        errors_code(Errors::SmartDashboardMissingKey) == -44i32,
        errors_from_code(-44i32) == Errors::SmartDashboardMissingKey,
        errors_code(Errors::CommandIllegalUse) == -50i32,
        errors_from_code(-50i32) == Errors::CommandIllegalUse,
        errors_code(Errors::UnsupportedInSimulation) == -80i32,
        errors_from_code(-80i32) == Errors::UnsupportedInSimulation,
        errors_code(Errors::CameraServerError) == -90i32,
        errors_from_code(-90i32) == Errors::CameraServerError,
        errors_code(Errors::InvalidParameter) == -100i32,
        errors_from_code(-100i32) == Errors::InvalidParameter,
        errors_code(Errors::AssertionFailure) == -110i32,
        errors_from_code(-110i32) == Errors::AssertionFailure,
        errors_code(Errors::Error) == -111i32,
        errors_from_code(-111i32) == Errors::Error,
{
}

} // verus!
