use robot_comm::alliance_station::AllianceStation;
use robot_comm::buffer_reader::{BufferReader, BufferReaderError, ReadFromBuff};
use robot_comm::buffer_writter::{BufferWritter, BufferWritterSizeGuard, SliceBufferWritter};
use robot_comm::control_code::ControlCode;
use robot_comm::error::RobotPacketParseError;
use robot_comm::etui::{Layout, MouseButtonState, Response, Id};
use robot_comm::fms::{FMSPacket, FMSPacketParseError};
use robot_comm::log::{Log, LogLevel};
use robot_comm::math_util::{Rect, VecI2};
use robot_comm::pov::Pov;
use robot_comm::roborio_logic::{
    dropped_packets, force_disabled, merge_control_code, plan_hooks, tag_due, ModeHook,
};
use robot_comm::request_code::RobotRequestCode;
use robot_comm::robot_voltage::RobotVoltage;
use robot_comm::super_small_vec::SuperSmallVec;
use robot_comm::team_number::TeamNumber;

#[test]
fn alliance_station_codes() {
    assert_eq!(AllianceStation::try_from(4u8).unwrap(), AllianceStation::Blue2);
    assert!(matches!(
        AllianceStation::try_from(6u8),
        Err(RobotPacketParseError::InvalidStationCode(6))
    ));
    assert_eq!(AllianceStation::Blue3.station(), 3);
    assert_eq!(AllianceStation::Red1.station(), 1);
    assert!(AllianceStation::Blue1.is_red());
    assert!(!AllianceStation::Blue1.is_blue());
    assert_eq!(AllianceStation::default(), AllianceStation::Red1);
}

#[test]
fn reader_reads_big_endian() {
    let bytes = [1u8, 2, 3, 4, 5, 6, 7, 8, 9, 10];
    let mut r = BufferReader::new(&bytes);
    assert_eq!(r.read_u16().unwrap(), 0x0102);
    assert_eq!(r.read_u24().unwrap(), 0x030405);
    assert_eq!(r.read_u8().unwrap(), 6);
    assert_eq!(r.remaining_packet_data(), 4);
    assert_eq!(r.read_u32().unwrap(), 0x0708090A);
    assert!(!r.has_more());
    assert!(matches!(
        r.read_u8(),
        Err(BufferReaderError::BufferReadOverflow { actual_buffer_length: 10, tried_index: 10 })
    ));
}

#[test]
fn reader_short_str_and_utf8() {
    let bytes = [3u8, b'a', b'b', b'c', 2, 0xff, 0xfe];
    let mut r = BufferReader::new(&bytes);
    assert_eq!(r.read_short_str().unwrap(), "abc");
    assert!(matches!(r.read_short_str(), Err(BufferReaderError::ParseUft8Error(_))));
}

#[test]
fn reader_known_length() {
    let bytes = [0u8, 2, 9, 8, 7];
    let mut r = BufferReader::new(&bytes);
    let mut sub = r.read_known_length_u16().unwrap();
    assert_eq!(sub.read_u16().unwrap(), 0x0908);
    assert_eq!(r.read_u8().unwrap(), 7);
    assert!(r.assert_empty().is_ok());
}

#[test]
fn writer_writes_and_refuses() {
    let mut buf = [0u8; 7];
    let mut w = SliceBufferWritter::new(&mut buf);
    w.write_u16(0xABCD).unwrap();
    w.write_i8(-1).unwrap();
    w.write_u32(0x01020304).unwrap();
    assert_eq!(w.curr_buf(), &[0xAB, 0xCD, 0xFF, 1, 2, 3, 4]);
    assert!(w.write_u8(1).is_err());
    w.reset();
    assert_eq!(w.curr_buf_len(), 0);
    w.write_short_str("hi").unwrap();
    assert_eq!(w.curr_buf(), &[2, b'h', b'i']);
}

#[test]
fn size_guard_records_length() {
    let mut buf = [0u8; 8];
    let mut w = SliceBufferWritter::new(&mut buf);
    {
        let mut g = BufferWritterSizeGuard::new_u8(&mut w).unwrap();
        g.write_u16(0x0102).unwrap();
        g.write_u8(3).unwrap();
        g.finish();
    }
    assert_eq!(w.curr_buf(), &[3, 1, 2, 3]);
}

#[test]
fn voltage_reads_whole_then_fraction_and_writes_fraction_first() {
    let bytes = [12u8, 200];
    let mut r = BufferReader::new(&bytes);
    let v = <RobotVoltage as robot_comm::buffer_reader::CreateFromBuf>::create_from_buf(&mut r).unwrap();
    assert_eq!(v, RobotVoltage { int: 12, dec: 200 });
    let mut buf = [0u8; 2];
    let mut w = SliceBufferWritter::new(&mut buf);
    robot_comm::buffer_writter::WriteToBuff::write_to_buf(&v, &mut w).unwrap();
    assert_eq!(w.curr_buf(), &[200, 12]);
}

#[test]
fn team_number_from_u16() {
    assert_eq!(TeamNumber::from(254u16), TeamNumber(254));
}

#[test]
fn fms_packet_read() {
    let bytes = [0u8, 5, 1, 2, 0x10, 0x92, 12, 7];
    let mut r = BufferReader::new(&bytes);
    let p = FMSPacket::read_from_buff(&mut r).unwrap();
    assert_eq!(p.packet_count, 5);
    assert_eq!(p.team_number, TeamNumber(4242));
    assert_eq!(p.robot_voltage, RobotVoltage { int: 12, dec: 7 });
    let short = [0u8, 5, 1];
    let mut r = BufferReader::new(&short);
    assert_eq!(FMSPacket::read_from_buff(&mut r).unwrap_err(), FMSPacketParseError::InvalidDataLength);
}

#[test]
fn rect_geometry() {
    let mut r = Rect::new_pos_size(VecI2::new(2, 3), VecI2::new(4, 5));
    assert!(r.contains(2, 3));
    assert!(r.contains(5, 7));
    assert!(!r.contains(6, 3));
    assert_eq!(r.bottom_right(), VecI2::new(6, 8));
    assert_eq!(r.bottom_right_inner(), VecI2::new(5, 7));
    assert_eq!(r.top_right_inner(), VecI2::new(5, 3));
    r.add_top_left(VecI2::new(1, 1));
    assert_eq!(r, Rect { x: 3, y: 4, width: 3, height: 4 });
    r.expand_to_include(&Rect { x: 0, y: 0, width: 1, height: 1 });
    assert_eq!(r, Rect { x: 0, y: 0, width: 6, height: 8 });
    r.shrink_to_fit_within(Rect { x: 1, y: 1, width: 3, height: 3 });
    assert_eq!(r, Rect { x: 1, y: 1, width: 3, height: 3 });
    r.expand_evenly(1);
    assert_eq!(r, Rect { x: 0, y: 0, width: 5, height: 5 });
    r.shrink_evenly(10);
    assert_eq!(r, Rect { x: 10, y: 10, width: 0, height: 0 });
    assert_eq!(Rect::new_pos_pos(VecI2::new(5, 5), VecI2::new(2, 9)), Rect { x: 5, y: 5, width: 0, height: 4 });
    assert_eq!(VecI2::new(65535, 1) + VecI2::new(1, 1), VecI2::new(65535, 2));
    assert_eq!(VecI2::new(0, 5) - VecI2::new(1, 1), VecI2::new(0, 4));
}

#[test]
fn mouse_and_layout() {
    let mut s = MouseButtonState::Down;
    assert!(s.is_down());
    s.next_state();
    assert_eq!(s, MouseButtonState::Held);
    let mut s = MouseButtonState::Up;
    s.next_state();
    assert_eq!(s, MouseButtonState::Unpressed);
    assert!(s.is_up());
    let resp = Response::new(Rect { x: 0, y: 0, width: 2, height: 2 }, Id(1), Some(VecI2::new(1, 1)));
    assert!(resp.hovered());
    assert!(!resp.clicked());
    assert!(!resp.pressed());
    assert!(!resp.released());
    assert_eq!(Layout::TopRightVertical.opposite_primary_direction(), Layout::TopRightHorizontal);
    assert!(Layout::BottomLeftHorizontal.is_primary_horizontal());
    assert_eq!(Layout::BottomLeftHorizontal.to_vertical(), Layout::BottomLeftVertical);
}

#[test]
fn log_keeps_last_entries() {
    let mut log = Log::new();
    log.message("a".to_string());
    log.warning("b".to_string());
    log.error("c".to_string());
    let last = log.get_last_n(2);
    assert_eq!(last, vec![(LogLevel::Warning, "b".to_string()), (LogLevel::Error, "c".to_string())]);
    assert_eq!(log.get_last_n(10).len(), 3);
}

#[test]
fn pov_directions() {
    let mut p = Pov::default();
    assert_eq!(p.to_val().get(), None);
    p.set_up(true);
    p.set_right(true);
    assert_eq!(p.to_val().get(), Some(45));
    p.set_up(false);
    p.set_down(true);
    assert_eq!(p.to_val().get(), Some(135));
    p.set_right(false);
    p.set_left(true);
    assert_eq!(p.to_val().get(), Some(225));
}

#[test]
fn super_small_vec_push() {
    let mut v: SuperSmallVec<u8, 4> = SuperSmallVec::new();
    v.push(1);
    v.push(2);
    assert_eq!(v.as_slice(), &[1, 2]);
    assert!(SuperSmallVec::<u8, 2>::try_from_vec(vec![1, 2, 3]).is_err());
    assert_eq!(SuperSmallVec::<u8, 4>::try_from_vec(vec![1, 2]).ok().unwrap().len(), 0);
}

#[test]
fn roborio_hooks_and_codes() {
    let enabled_teleop = ControlCode(0b0000_0100);
    let disabled = ControlCode(0);
    let plan = plan_hooks(enabled_teleop, disabled, RobotRequestCode(0));
    assert_eq!(plan.mode_switch, Some(ModeHook::Disable));
    assert!(!plan.estop);
    let estopped = ControlCode(0b1000_0000);
    let plan = plan_hooks(disabled, estopped, RobotRequestCode(0b1000));
    assert!(plan.estop);
    assert!(plan.restart_rio);
    let auton = ControlCode(2);
    assert_eq!(plan_hooks(disabled, auton, RobotRequestCode(0)).mode_switch, Some(ModeHook::Auton));
    let merged = merge_control_code(estopped, ControlCode(0b0000_0100));
    assert!(merged.is_estop());
    assert!(merged.is_enabled());
    assert!(force_disabled(ControlCode(0b0000_0110)).is_disabled());
    assert!(force_disabled(ControlCode(0b0000_0110)).is_teleop());
    assert_eq!(dropped_packets(10, 11, true), 0);
    assert_eq!(dropped_packets(10, 15, true), 4);
    assert_eq!(dropped_packets(10, 15, false), 0);
    assert_eq!(dropped_packets(65535, 0, true), 0);
    assert_eq!(dropped_packets(65534, 0, true), 1);
    assert_eq!(dropped_packets(65530, 3, true), 8);
    assert_eq!(dropped_packets(10, 5, true), 6);
    assert_eq!(dropped_packets(2, 65535, true), 65532);
    assert_eq!(dropped_packets(10, 40000, true), 39989);
    assert_eq!(dropped_packets(100, 50, true), 51);
    assert!(tag_due(49, 51, 2));
    assert!(!tag_due(49, 0, 2));
}

#[test]
fn size_guard_counts_writes_and_needs_room() {
    let mut buf = [0u8; 8];
    let mut w = SliceBufferWritter::new(&mut buf);
    {
        let mut g = BufferWritterSizeGuard::new_u8(&mut w).unwrap();
        g.write_u16(0xABCD).unwrap();
        g.finish();
    }
    assert_eq!(w.curr_buf(), &[2, 0xAB, 0xCD]);
    let mut small = [0u8; 1];
    let mut w = SliceBufferWritter::new(&mut small);
    assert!(matches!(
        BufferWritterSizeGuard::new_u16(&mut w),
        Err(robot_comm::buffer_writter::BufferWritterError::BufferTooSmall)
    ));
    assert_eq!(w.curr_buf().len(), 0);
}

#[test]
fn slice_writes_keep_what_fits_in_order() {
    let mut buf = [0u8; 2];
    let mut w = SliceBufferWritter::new(&mut buf);
    assert!(w.curr_buf().is_empty());
    assert!(w.write_u8(1).is_ok());
    assert!(matches!(
        w.write_u16(2),
        Err(robot_comm::buffer_writter::BufferWritterError::BufferTooSmall)
    ));
    assert_eq!(w.curr_buf(), &[1]);
    assert!(w.write_u8(7).is_ok());
    assert_eq!(w.curr_buf(), &[1, 7]);
}

#[test]
fn control_code_setters_build_the_byte() {
    let mut c = robot_comm::control_code::ControlCode::new();
    c.set_autonomus();
    c.set_enabled();
    c.set_fms_attached(true);
    c.set_brownout_protection(true);
    c.set_ds_attached(true);
    c.set_estop(true);
    assert_eq!(c.to_bits(), 2 | 4 | 8 | 16 | 64 | 128);
    c.set_test();
    c.set_disabled();
    c.set_fms_attached(false);
    assert_eq!(c.to_bits(), 1 | 16 | 64 | 128);
    assert_eq!(robot_comm::control_code::ControlCode::from_bits(0xA5).to_bits(), 0xA5);
}

#[test]
fn super_small_vec_pop_keeps_a_single_value() {
    let mut v: SuperSmallVec<u8, 4> = SuperSmallVec::new();
    v.push(1);
    v.push(2);
    assert_eq!(v.pop(), Some(2));
    assert_eq!(v.len(), 1);
    assert_eq!(v.pop(), None);
    assert_eq!(v.as_slice(), &[1]);
}
