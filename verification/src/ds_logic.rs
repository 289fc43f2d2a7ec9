use vstd::prelude::*;

use crate::buffer_writter::{wrote_all, BufferWritter, BufferWritterError, WriteToBuff};
use crate::control_code::ControlCode;
use crate::driver_to_robot::{dtr_core_wire, DriverstationToRobotPacket};
use crate::error::RobotPacketParseError;
use crate::roborio_status_code::RobotStatusCode;
use crate::robot_to_driver::RobotToDriverstationPacket;
use crate::robot_voltage::RobotVoltage;
use crate::time_data::TimeData;

verus! {

/// What a driver station last saw of the robot.
#[derive(Debug, Default, Clone, Copy)]
pub struct DsObserved {
    pub observed_voltage: RobotVoltage,
    pub observed_state: RobotStatusCode,
    pub observed_control: ControlCode,
}

/// Prepares and writes the next packet of a driver station: it carries `time`,
/// is written ([`DriverstationToRobotPacket::write_to_buf`]) and then the
/// sequence number moves on, wrapping. Returns the sequence number sent and
/// how the write went.
pub fn send_packet<T: BufferWritter>(
    packet: &mut DriverstationToRobotPacket,
    time: TimeData,
    buf: &mut T,
) -> (r: (u16, Result<(), RobotPacketParseError>))
    ensures
        r.0 == old(packet).core_data.sequence,
        final(packet).core_data.sequence == (old(packet).core_data.sequence + 1) % 0x1_0000,
        final(packet).core_data.tag_comm_version == old(packet).core_data.tag_comm_version,
        final(packet).core_data.control_code == old(packet).core_data.control_code,
        final(packet).core_data.request_code == old(packet).core_data.request_code,
        final(packet).core_data.station == old(packet).core_data.station,
        final(packet).countdown == old(packet).countdown,
        final(packet).joystick_data == old(packet).joystick_data,
        final(packet).time_data == time,
        wrote_all(
            *old(buf),
            *final(buf),
            dtr_core_wire(old(packet).core_data),
            match r.1 {
                Ok(()) => Ok::<(), BufferWritterError>(()),
                Err(RobotPacketParseError::BufferWriteError(e)) => Err(e),
                Err(_) => Err(BufferWritterError::BufferTooSmall),
            },
        ),
{
    packet.time_data = time;
    let sent = packet.core_data.sequence;
    let res = packet.write_to_buf(buf);
    packet.core_data.sequence = sent.wrapping_add(1);
    (sent, res)
}

/// Whether an answer numbered `answered` is behind the packet numbered `sent`.
pub open spec fn answer_behind(answered: u16, sent: u16) -> bool {
    answered < sent && answered != 0
}

/// An answer is behind exactly when it is numbered before the packet just
/// sent; an answer numbered 0, as after the numbers wrap, or numbered the
/// packet just sent or later, is not.
pub proof fn law_answer_behind(answered: u16, sent: u16)
    ensures
        answer_behind(answered, sent) ==> answered < sent,
        answered >= sent ==> !answer_behind(answered, sent),
        !answer_behind(0, sent),
        0 < answered < sent ==> answer_behind(answered, sent),
{
}

/// Takes in the robot's answer to the packet numbered `sent`: keeps its control
/// code, battery voltage and status. Returns whether the robot asks for the
/// time, and whether the answer is behind: numbered below `sent` but not 0.
pub fn observe_answer(
    observed: &mut DsObserved,
    answer: &RobotToDriverstationPacket,
    sent: u16,
) -> (r: (bool, bool))
    ensures
        final(observed).observed_control == answer.control_code,
        final(observed).observed_voltage == answer.battery,
        final(observed).observed_state == answer.status,
        r.0 == answer.request@.request_time,
        r.1 == answer_behind(answer.sequence, sent),
        r.1 == (answer.sequence < sent && answer.sequence != 0),
{
    observed.observed_control = answer.control_code;
    observed.observed_voltage = answer.battery;
    observed.observed_state = answer.status;
    (answer.request.request_time(), answer.sequence < sent && answer.sequence != 0)
}

} // verus!
