use std::sync::Arc;

use robot_comm::buffer_reader::BufferReader;
use robot_comm::buffer_writter::{BufferWritter, SliceBufferWritter};
use robot_comm::control_code::ControlCode;
use robot_comm::driver_to_robot::{DriverstationToRobotCorePacketDate, DriverstationToRobotPacket};
use robot_comm::ds_logic::{observe_answer, send_packet, DsObserved};
use robot_comm::request_code::RobotRequestCode;
use robot_comm::roborio_status_code::RobotStatusCode;
use robot_comm::roborio_logic::{mirror_mode, ModeHook, PossibleRcSelf};
use robot_comm::robot_to_driver::writter::RobotToDriverstaionPacketWritter;
use robot_comm::robot_to_driver::{
    CpuUsage, PdpPowerReport, PdpPowerReportInner, RobotToDriverDiskUsage, RobotToDriverRumble,
    RobotToDriverstationPacket,
};
use robot_comm::tcp::{AxisType, JoystickType, MatchType, TcpSender, TcpState};
use robot_comm::time_data::TimeData;
use robot_comm::udp_response::{
    respond_to_udp_packet, write_udp_packet_tags, UdpTagFrequencies, UdpTags,
};

fn received(sequence: u16, code: u8, request: u8) -> DriverstationToRobotCorePacketDate {
    let mut c = DriverstationToRobotCorePacketDate::default();
    c.sequence = sequence;
    c.control_code = ControlCode::from_bits(code);
    c.request_code = RobotRequestCode::from_bits(request);
    c
}

#[test]
fn udp_tags_default_frequencies() {
    let f = UdpTagFrequencies::default();
    assert_eq!((f.disk_usage_m, f.cpu_usage_m, f.ram_usage_m), (51, 51, 51));
    assert_eq!((f.pdp_port_report_m, f.pdp_power_report_m, f.can_usage_m), (3, 3, 3));
}

#[test]
fn udp_tags_only_when_due() {
    let mut tags = UdpTags::default();
    tags.rumble = Some(RobotToDriverRumble { no_idea: 1, left: 2, right: 3 });
    tags.disk_usage = Some(RobotToDriverDiskUsage { bytes_free: 5 });
    let f = UdpTagFrequencies::default();
    let mut buf = [0u8; 64];
    let mut raw = SliceBufferWritter::new(&mut buf);
    let mut w = RobotToDriverstaionPacketWritter { writter: &mut raw };
    // 50 + 1 is a multiple of 51: the disk report is due
    write_udp_packet_tags(&tags, &f, 50, &mut w).unwrap();
    assert_eq!(
        w.into_buf(),
        &[9, 1, 0, 0, 0, 1, 0, 2, 0, 3, 9, 4, 0, 0, 0, 0, 0, 0, 0, 5]
    );
    let mut buf = [0u8; 64];
    let mut raw = SliceBufferWritter::new(&mut buf);
    let mut w = RobotToDriverstaionPacketWritter { writter: &mut raw };
    write_udp_packet_tags(&tags, &f, 51, &mut w).unwrap();
    assert_eq!(w.into_buf(), &[9, 1, 0, 0, 0, 1, 0, 2, 0, 3]);
}

#[test]
fn udp_tags_stop_at_first_failure() {
    let mut tags = UdpTags::default();
    tags.cpu_usage = Some(vec![CpuUsage::default(); 16]);
    tags.pdp_power_report = Some(PdpPowerReport { inner: PdpPowerReportInner([7; 9]) });
    let f = UdpTagFrequencies::default();
    let mut buf = [0u8; 64];
    let mut raw = SliceBufferWritter::new(&mut buf);
    let mut w = RobotToDriverstaionPacketWritter { writter: &mut raw };
    // both due after 49 packets: the cpu report has too many cpus
    assert!(write_udp_packet_tags(&tags, &f, 49, &mut w).is_err());
    assert_eq!(w.into_buf().len(), 0);
    // after 1 packet only the power report is due
    let mut buf = [0u8; 64];
    let mut raw = SliceBufferWritter::new(&mut buf);
    let mut w = RobotToDriverstaionPacketWritter { writter: &mut raw };
    write_udp_packet_tags(&tags, &f, 1, &mut w).unwrap();
    let out = w.into_buf();
    assert_eq!(out.len(), 18);
    assert_eq!(out[0], 10);
    assert_eq!(&out[9..], &[7; 9]);
    // too small a buffer
    let mut small = [0u8; 5];
    let mut raw = SliceBufferWritter::new(&mut small);
    let mut w = RobotToDriverstaionPacketWritter { writter: &mut raw };
    assert!(write_udp_packet_tags(&tags, &f, 1, &mut w).is_err());
}

#[test]
fn udp_respond_merges_counts_and_answers() {
    let mut observed = RobotToDriverstationPacket::default();
    observed.sequence = 10;
    observed.control_code.set_estop(true);
    observed.request.set_request_disable(true);
    let tags = UdpTags::default();
    let f = UdpTagFrequencies::default();
    let mut buf = [0u8; 64];
    let mut w = SliceBufferWritter::new(&mut buf);
    // enabled teleop, sequence 14: 3 packets missing
    let r = respond_to_udp_packet(&mut observed, received(14, 0x04, 0), true, true, &tags, &f, 0, &mut w);
    assert_eq!(r.dropped, 3);
    assert!(r.core_error.is_none() && r.tag_error.is_none());
    let sent = r.send.unwrap();
    assert_eq!(sent.len(), 8);
    assert_eq!(&sent[0..2], &[0, 14]);
    // the emergency stop stays on
    assert_eq!(sent[3] & 0x80, 0x80);
    assert_eq!(r.hooks.mode_switch, None);
    assert!(!r.hooks.estop);
    assert_eq!(observed.sequence, 14);
    assert!(observed.control_code.is_estop());
    // the driver station was enabled, so the request to disable stays
    assert!(observed.request.request_disabled());
    assert_eq!(observed.status.to_bits() & 0x0F, 1);
    assert!(!observed.status.has_robot_code());
}

#[test]
fn udp_respond_hooks_and_disable_request() {
    let mut observed = RobotToDriverstationPacket::default();
    observed.control_code = ControlCode::from_bits(0x04);
    observed.request.set_request_disable(true);
    let tags = UdpTags::default();
    let f = UdpTagFrequencies::default();
    let mut buf = [0u8; 64];
    let mut w = SliceBufferWritter::new(&mut buf);
    // disabled, restart code requested, not connected: nothing counted dropped
    let r = respond_to_udp_packet(&mut observed, received(500, 0x00, 0x04), false, false, &tags, &f, 0, &mut w);
    assert_eq!(r.dropped, 0);
    assert_eq!(r.hooks.mode_switch, Some(ModeHook::Disable));
    assert!(r.hooks.restart_code);
    assert!(!r.hooks.restart_rio);
    assert!(!observed.request.request_disabled());
    // the request bit was still set in what was sent
    assert_eq!(r.send.unwrap()[7] & 2, 2);
    let mut small = [0u8; 4];
    let mut w = SliceBufferWritter::new(&mut small);
    let r = respond_to_udp_packet(&mut observed, received(501, 0x00, 0), true, false, &tags, &f, 0, &mut w);
    assert!(r.send.is_none() && r.core_error.is_some());
}

#[test]
fn tcp_sender_frames_records() {
    let mut s = TcpSender::new();
    s.send_disable_faults(0x0102, 3).unwrap();
    s.send_message("hi").unwrap();
    s.send_rail_faults(1, 2, 3).unwrap();
    s.send_underline_5v_disabled(9, [4, 5, 6]).unwrap();
    s.send_zero_code("z").unwrap();
    s.send_warning();
    s.send_error();
    assert_eq!(s.message_number, 3);
    let out = s.drain();
    let expected: Vec<u8> = [
        &[0u8, 5, 4, 1, 2, 0, 3][..],
        &[0, 9, 0x0C, 0, 0, 0, 0, 0, 0, b'h', b'i'],
        &[0, 7, 5, 0, 1, 0, 2, 0, 3],
        &[0, 6, 0x0D, 0, 9, 4, 5, 6],
        &[0, 2, 1, b'z'],
    ]
    .concat();
    assert_eq!(out, expected);
    assert!(s.drain().is_empty());
}

#[test]
fn tcp_sender_refuses_long_records() {
    let mut s = TcpSender::new();
    let long = "a".repeat(0x10000);
    assert!(s.send_zero_code(&long).is_err());
    assert_eq!(s.send_buffer.len(), 0);
}

#[test]
fn tcp_state_reads_records() {
    let mut t = TcpState::new();
    // controller 1: xbox, gamepad, name "pad", axes x and twist, 10 buttons, 1 pov
    t.read_data(BufferReader::new(&[2, 1, 1, 1, 3, b'p', b'a', b'd', 2, 0, 3, 10, 1])).unwrap();
    let c = t.controller_info[1].as_ref().unwrap();
    assert!(c.is_xbox);
    assert!(matches!(c.js_type, JoystickType::XInputGamepad));
    assert_eq!(c.name, "pad");
    assert_eq!((c.buttons, c.povs), (10, 1));
    assert!(matches!(c.axis.as_slice()[1], AxisType::TwistAxis));
    t.read_data(BufferReader::new(&[7, 2, b'Q', b'1', 2, 0, 5, 1])).unwrap();
    let m = t.match_info.as_ref().unwrap();
    assert_eq!(m.name, "Q1");
    assert!(matches!(m.match_type, MatchType::Qualifications));
    assert_eq!((m.match_number, m.replay), (5, 1));
    t.read_data(BufferReader::new(&[0x0E, b'L', b'R', b'L'])).unwrap();
    assert_eq!(t.game_data.as_deref(), Some("LRL"));
    assert!(t.read_data(BufferReader::new(&[0x55])).is_ok());
    assert_eq!(t.get_game_data().as_deref(), Some("LRL"));
    assert!(matches!(t.get_match_type(), Some(MatchType::Qualifications)));
    assert_eq!((t.get_match_number(), t.get_match_replay()), (Some(5), Some(1)));
    assert_eq!(t.get_match_name().as_deref(), Some("Q1"));
    assert_eq!(t.controller_is_xbox(1), Some(true));
    assert_eq!((t.controller_buttons(1), t.controller_povs(1), t.controller_axis(1)), (Some(10), Some(1), Some(2)));
    assert!(matches!(t.controller_type(1), Some(JoystickType::XInputGamepad)));
    assert_eq!(t.controller_name(1).as_deref(), Some("pad"));
    assert_eq!(t.controller_is_xbox(0), None);
    assert_eq!(t.controller_name(7), None);
    assert!(t.read_data(BufferReader::new(&[7, 5, b'x'])).is_err());
    assert!(matches!(MatchType::from_primitive(9), MatchType::Unknown(9)));
    assert!(matches!(AxisType::from_primitive(4), AxisType::ThrottleAxis));
    assert!(matches!(JoystickType::from_primitive(0xFF), JoystickType::Unknown));
}

#[test]
fn ds_send_and_observe() {
    let mut p = DriverstationToRobotPacket::default();
    p.core_data.sequence = 0xFFFF;
    let mut buf = [0u8; 16];
    let mut w = SliceBufferWritter::new(&mut buf);
    let (sent, res) = send_packet(&mut p, TimeData::new(), &mut w);
    assert!(res.is_ok());
    assert_eq!(sent, 0xFFFF);
    assert_eq!(p.core_data.sequence, 0);
    assert_eq!(w.curr_buf(), &[0xFF, 0xFF, 1, 0, 0, 0]);
    let mut seen = DsObserved::default();
    let mut answer = RobotToDriverstationPacket::default();
    answer.sequence = 5;
    answer.request.set_request_time(true);
    answer.battery.int = 12;
    let (time, behind) = observe_answer(&mut seen, &answer, 6);
    assert!(time && behind);
    assert_eq!(seen.observed_voltage.int, 12);
    answer.sequence = 0;
    let (_, behind) = observe_answer(&mut seen, &answer, 6);
    assert!(!behind);
}

#[test]
fn handles_exist_elsewhere() {
    let v = 5u8;
    assert!((&v).exists_elsewhere());
    let a = Arc::new(1u8);
    assert!(!a.exists_elsewhere());
    let b = a.clone();
    assert!(a.exists_elsewhere());
    drop(b);
    assert!(!a.exists_elsewhere());
}

#[test]
fn status_follows_requested_mode() {
    let status = RobotStatusCode(0b0011_0000);
    // disabled, teleop requested
    assert_eq!(mirror_mode(status, ControlCode(0b0000_0000)).0, 0b0011_0001);
    // enabled autonomous
    assert_eq!(mirror_mode(status, ControlCode(0b0000_0110)).0, 0b0011_0100);
    // enabled teleop
    assert_eq!(mirror_mode(RobotStatusCode(0b0000_0101), ControlCode(0b0000_0100)).0, 0b0000_0010);
    // enabled test
    assert_eq!(mirror_mode(status, ControlCode(0b0000_0101)).0, 0b0011_1000);
    // enabled, undefined mode: unchanged
    assert_eq!(mirror_mode(RobotStatusCode(0b0000_0010), ControlCode(0b0000_0111)).0, 0b0000_0010);
}

#[test]
fn held_elsewhere_needs_a_second_handle() {
    assert!(!robot_comm::roborio_logic::held_elsewhere(0));
    assert!(!robot_comm::roborio_logic::held_elsewhere(1));
    assert!(robot_comm::roborio_logic::held_elsewhere(2));
}
