use vstd::prelude::*;

use crate::buffer_reader::{be_value, BufferReader, BufferReaderError, ReadFromBuff};
use crate::robot_voltage::RobotVoltage;
use crate::team_number::TeamNumber;

verus! {

/// The packet the field management system sends a driver station.
#[derive(Debug, Clone, Copy, PartialEq, Eq, Structural)]
pub struct FMSPacket {
    pub packet_count: u16,
    pub ds_version: u8,
    pub fms_control: u8,
    pub team_number: TeamNumber,
    pub robot_voltage: RobotVoltage,
}

/// Why a field management packet could not be read.
#[derive(Debug, Clone, Copy, PartialEq, Eq, Structural)]
pub enum FMSPacketParseError {
    InvalidDataLength,
    InvalidData,
}

impl From<BufferReaderError> for FMSPacketParseError {
    /// Every reader error is a packet too short.
    fn from(value: BufferReaderError) -> (r: Self)
        ensures
            r == FMSPacketParseError::InvalidDataLength,
    {
        FMSPacketParseError::InvalidDataLength
    }
}

impl vstd::std_specs::convert::FromSpecImpl<BufferReaderError> for FMSPacketParseError {
    open spec fn obeys_from_spec() -> bool {
        true
    }

    open spec fn from_spec(v: BufferReaderError) -> Self {
        FMSPacketParseError::InvalidDataLength
    }
}

/// Reading a field management packet from `d` at `i`: the packet count (u16),
/// the driver station version and the control byte, the team number (u16),
/// and the voltage's whole volts and fraction. Too few bytes is an error.
pub open spec fn fms_read(d: Seq<u8>, i: nat) -> Result<FMSPacket, FMSPacketParseError> {
    if i + 8 > d.len() {
        Err(FMSPacketParseError::InvalidDataLength)
    } else {
        Ok(
            FMSPacket {
                packet_count: be_value(d.subrange(i as int, i as int + 2)) as u16,
                ds_version: d[i as int + 2],
                fms_control: d[i as int + 3],
                team_number: TeamNumber(be_value(d.subrange(i as int + 4, i as int + 6)) as u16),
                robot_voltage: RobotVoltage { int: d[i as int + 6], dec: d[i as int + 7] },
            },
        )
    }
}

/// Turns a reader error into a packet too short.
fn too_short<T>(r: Result<T, BufferReaderError>) -> (o: Result<T, FMSPacketParseError>)
    ensures
        match r {
            Ok(v) => o == Ok::<T, FMSPacketParseError>(v),
            Err(_) => o == Err::<T, FMSPacketParseError>(FMSPacketParseError::InvalidDataLength),
        },
{
    match r {
        Ok(v) => Ok(v),
        Err(_) => Err(FMSPacketParseError::InvalidDataLength),
    }
}

impl<'a> ReadFromBuff<'a> for FMSPacket {
    type Error = FMSPacketParseError;

    /// Reads a packet ([`fms_read`]).
    fn read_from_buff(buf: &mut BufferReader<'a>) -> (r: Result<Self, Self::Error>)
        ensures
            final(buf).spec_buf() == old(buf).spec_buf(),
            r == fms_read(old(buf).spec_buf(), old(buf).spec_index()),
    {
        proof {
            buf.lemma_len_bound();
        }
        let packet_count = too_short(buf.read_u16())?;
        let ds_version = too_short(buf.read_u8())?;
        let fms_control = too_short(buf.read_u8())?;
        let team = too_short(buf.read_u16())?;
        let whole = too_short(buf.read_u8())?;
        let dec = too_short(buf.read_u8())?;
        Ok(
            FMSPacket {
                packet_count,
                ds_version,
                fms_control,
                team_number: TeamNumber(team),
                robot_voltage: RobotVoltage { int: whole, dec },
            },
        )
    }
}

/// The kinds of resource a robot program reports using, in the order of
/// their usage report codes.
#[allow(non_camel_case_types)]
#[derive(Debug, Clone, Copy, PartialEq, Eq)]
pub enum ResourceType {
    kResourceType_Controller,
    kResourceType_Module,
    kResourceType_Language,
    kResourceType_CANPlugin,
    kResourceType_Accelerometer,
    kResourceType_ADXL345,
    kResourceType_AnalogChannel,
    kResourceType_AnalogTrigger,
    kResourceType_AnalogTriggerOutput,
    kResourceType_CANJaguar,
    kResourceType_Compressor,
    kResourceType_Counter,
    kResourceType_Dashboard,
    kResourceType_DigitalInput,
    kResourceType_DigitalOutput,
    kResourceType_DriverStationCIO,
    kResourceType_DriverStationEIO,
    kResourceType_DriverStationLCD,
    kResourceType_Encoder,
    kResourceType_GearTooth,
    kResourceType_Gyro,
    kResourceType_I2C,
    kResourceType_Framework,
    kResourceType_Jaguar,
    kResourceType_Joystick,
    kResourceType_Kinect,
    kResourceType_KinectStick,
    kResourceType_PIDController,
    kResourceType_Preferences,
    kResourceType_PWM,
    kResourceType_Relay,
    kResourceType_RobotDrive,
    kResourceType_SerialPort,
    kResourceType_Servo,
    kResourceType_Solenoid,
    kResourceType_SPI,
    kResourceType_Task,
    kResourceType_Ultrasonic,
    kResourceType_Victor,
    kResourceType_Button,
    kResourceType_Command,
    kResourceType_AxisCamera,
    kResourceType_PCVideoServer,
    kResourceType_SmartDashboard,
    kResourceType_Talon,
    kResourceType_HiTechnicColorSensor,
    kResourceType_HiTechnicAccel,
    kResourceType_HiTechnicCompass,
    kResourceType_SRF08,
    kResourceType_AnalogOutput,
    kResourceType_VictorSP,
    kResourceType_PWMTalonSRX,
    kResourceType_CANTalonSRX,
    kResourceType_ADXL362,
    kResourceType_ADXRS450,
    kResourceType_RevSPARK,
    kResourceType_MindsensorsSD540,
    kResourceType_DigitalGlitchFilter,
    kResourceType_ADIS16448,
    kResourceType_PDP,
    kResourceType_PCM,
    kResourceType_PigeonIMU,
    kResourceType_NidecBrushless,
    kResourceType_CANifier,
    kResourceType_TalonFX,
    kResourceType_CTRE_future1,
    kResourceType_CTRE_future2,
    kResourceType_CTRE_future3,
    kResourceType_CTRE_future4,
    kResourceType_CTRE_future5,
    kResourceType_CTRE_future6,
    kResourceType_LinearFilter,
    kResourceType_XboxController,
    kResourceType_UsbCamera,
    kResourceType_NavX,
    kResourceType_Pixy,
    kResourceType_Pixy2,
    kResourceType_ScanseSweep,
    kResourceType_Shuffleboard,
    kResourceType_CAN,
    kResourceType_DigilentDMC60,
    kResourceType_PWMVictorSPX,
    kResourceType_RevSparkMaxPWM,
    kResourceType_RevSparkMaxCAN,
    kResourceType_ADIS16470,
    kResourceType_PIDController2,
    kResourceType_ProfiledPIDController,
    kResourceType_Kinematics,
    kResourceType_Odometry,
    kResourceType_Units,
    kResourceType_TrapezoidProfile,
    kResourceType_DutyCycle,
    kResourceType_AddressableLEDs,
    kResourceType_FusionVenom,
    kResourceType_CTRE_future7,
    kResourceType_CTRE_future8,
    kResourceType_CTRE_future9,
    kResourceType_CTRE_future10,
    kResourceType_CTRE_future11,
    kResourceType_CTRE_future12,
    kResourceType_CTRE_future13,
    kResourceType_CTRE_future14,
}

} // verus!
