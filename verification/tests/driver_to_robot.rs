use robot_comm::alliance_station::AllianceStation;
use robot_comm::buffer_reader::{BufferReader, BufferReaderError, ReadFromBuf};
use robot_comm::buffer_writter::{BufferWritter, SliceBufferWritter, WriteToBuff};
use robot_comm::driver_to_robot::reader::{DriverToRobotPacketReader, PacketTagAcceptor};
use robot_comm::driver_to_robot::DriverstationToRobotPacket;
use robot_comm::time_data::TimeData;
use robot_comm::error::RobotPacketParseError;
use robot_comm::joystick::{Joystick, NonNegU16};

/// Sequence 0x0102, version 1, enabled teleop, no request, blue 1.
const CORE: [u8; 6] = [0x01, 0x02, 1, 0x04, 0, 3];

fn packet(tags: &[u8]) -> Vec<u8> {
    let mut v = CORE.to_vec();
    v.extend_from_slice(tags);
    v
}

#[test]
fn dtr_core_only() {
    let bytes = packet(&[]);
    let mut r = BufferReader::new(&bytes);
    let p = DriverstationToRobotPacket::create_from_buf(&mut r).unwrap();
    assert_eq!(p.core_data.sequence, 0x0102);
    assert_eq!(p.core_data.tag_comm_version, 1);
    assert!(p.core_data.control_code.is_enabled());
    assert!(p.core_data.control_code.is_teleop());
    assert_eq!(p.core_data.station, AllianceStation::Blue1);
    assert_eq!(p.countdown, None);
    assert!(p.time_data.time.is_none());
    assert_eq!(p.joystick_data.count(), 0);
}

#[test]
fn dtr_bad_version_and_codes() {
    let mut bytes = packet(&[]);
    bytes[2] = 2;
    let mut r = BufferReader::new(&bytes);
    assert!(matches!(
        DriverstationToRobotPacket::create_from_buf(&mut r),
        Err(RobotPacketParseError::RobotToDriverInvalidUsageTag(2))
    ));
    let mut bytes = packet(&[]);
    bytes[3] = 0x24;
    let mut r = BufferReader::new(&bytes);
    assert!(matches!(
        DriverstationToRobotPacket::create_from_buf(&mut r),
        Err(RobotPacketParseError::InvalidControlCode(0x24))
    ));
    let mut bytes = packet(&[]);
    bytes[4] = 0x02;
    let mut r = BufferReader::new(&bytes);
    assert!(matches!(
        DriverstationToRobotPacket::create_from_buf(&mut r),
        Err(RobotPacketParseError::InvalidRequestCode(0x02))
    ));
    let mut bytes = packet(&[]);
    bytes[5] = 9;
    let mut r = BufferReader::new(&bytes);
    assert!(matches!(
        DriverstationToRobotPacket::create_from_buf(&mut r),
        Err(RobotPacketParseError::InvalidStationCode(9))
    ));
}

#[test]
fn dtr_countdown_and_date_tags() {
    // countdown: length 5 counts the tag byte, then the float's 4 bytes
    // date: 2024-02-29 13:14:15.000016, month 1 meaning February, year 124
    let bytes = packet(&[
        5, 7, 0x41, 0x20, 0, 0, //
        11, 15, 0, 0, 0, 16, 15, 14, 13, 29, 1, 124,
    ]);
    let mut r = BufferReader::new(&bytes);
    let p = DriverstationToRobotPacket::create_from_buf(&mut r).unwrap();
    assert_eq!(p.countdown, Some(0x4120_0000));
    let t = p.time_data.time.unwrap();
    assert_eq!((t.year, t.month, t.day), (2024, 2, 29));
    assert_eq!((t.hour, t.min, t.sec, t.micro), (13, 14, 15, 16));
}

#[test]
fn dtr_date_checked_by_calendar() {
    // 2023-02-29 does not exist
    let bytes = packet(&[11, 15, 0, 0, 0, 0, 0, 0, 0, 29, 1, 123]);
    let mut r = BufferReader::new(&bytes);
    assert!(matches!(
        DriverstationToRobotPacket::create_from_buf(&mut r),
        Err(RobotPacketParseError::InvalidTimeData)
    ));
    // hour 24 does not exist
    let bytes = packet(&[11, 15, 0, 0, 0, 0, 0, 0, 24, 1, 0, 124]);
    let mut r = BufferReader::new(&bytes);
    assert!(matches!(
        DriverstationToRobotPacket::create_from_buf(&mut r),
        Err(RobotPacketParseError::InvalidTimeData)
    ));
}

#[test]
fn dtr_time_zone_tag() {
    let name = b"Europe/Paris";
    let mut tags = vec![name.len() as u8 + 1, 16];
    tags.extend_from_slice(name);
    let bytes = packet(&tags);
    let mut r = BufferReader::new(&bytes);
    let p = DriverstationToRobotPacket::create_from_buf(&mut r).unwrap();
    assert_eq!(p.time_data.time_zone.as_deref(), Some("Europe/Paris"));

    let name = b"Mars/Olympus";
    let mut tags = vec![name.len() as u8 + 1, 16];
    tags.extend_from_slice(name);
    let bytes = packet(&tags);
    let mut r = BufferReader::new(&bytes);
    assert!(matches!(
        DriverstationToRobotPacket::create_from_buf(&mut r),
        Err(RobotPacketParseError::InvalidTimeZoneData)
    ));
}

#[test]
fn dtr_joystick_tags_fill_slots_in_order() {
    let mut j = Joystick::new();
    j.push_axis(3).unwrap();
    j.push_button(true).unwrap();
    j.push_pov(NonNegU16::new(90)).unwrap();
    let mut jb = [0u8; 32];
    let mut w = SliceBufferWritter::new(&mut jb);
    j.write_to_buf(&mut w).unwrap();
    let jbytes = w.curr_buf().to_vec();
    let mut tags = Vec::new();
    for _ in 0..2 {
        tags.push(jbytes.len() as u8 + 1);
        tags.push(12);
        tags.extend_from_slice(&jbytes);
    }
    let bytes = packet(&tags);
    let mut r = BufferReader::new(&bytes);
    let p = DriverstationToRobotPacket::create_from_buf(&mut r).unwrap();
    assert_eq!(p.joystick_data.count(), 2);
    assert_eq!(p.joystick_data.get(1).unwrap().get_axis(0), Some(3));
}

#[test]
fn dtr_unknown_tag_and_leftover_bytes() {
    let bytes = packet(&[2, 99, 0]);
    let mut r = BufferReader::new(&bytes);
    assert!(matches!(
        DriverstationToRobotPacket::create_from_buf(&mut r),
        Err(RobotPacketParseError::DriverToRobotInvalidExtraTag(99))
    ));
    let bytes = packet(&[6, 7, 0, 0, 0, 0, 0]);
    let mut r = BufferReader::new(&bytes);
    assert!(matches!(
        DriverstationToRobotPacket::create_from_buf(&mut r),
        Err(RobotPacketParseError::BufferReaderError(BufferReaderError::UnreadData {
            remaining: 1
        }))
    ));
}

#[test]
fn dtr_write_is_the_core() {
    let bytes = packet(&[5, 7, 0x41, 0x20, 0, 0]);
    let mut r = BufferReader::new(&bytes);
    let p = DriverstationToRobotPacket::create_from_buf(&mut r).unwrap();
    let mut out = [0u8; 16];
    let mut w = SliceBufferWritter::new(&mut out);
    p.write_to_buf(&mut w).unwrap();
    assert_eq!(w.curr_buf(), &CORE);
}

#[test]
fn dtr_read_into_tags_with_two_byte_lengths() {
    let mut p = DriverstationToRobotPacket::default();
    let bytes = packet(&[0, 5, 7, 0x41, 0x20, 0, 0, 0, 0, 0, 1, 12]);
    let mut r = BufferReader::new(&bytes);
    p.read_into_from_buf(&mut r).unwrap();
    assert_eq!(p.core_data.sequence, 0x0102);
    // the joystick tag clears the countdown read before it
    assert_eq!(p.countdown, None);
    assert_eq!(p.joystick_data.count(), 0);

    let bytes = packet(&[0, 5, 7, 0x41, 0x20, 0, 0]);
    let mut r = BufferReader::new(&bytes);
    p.read_into_from_buf(&mut r).unwrap();
    assert_eq!(p.countdown, Some(0x4120_0000));
}

#[test]
fn dtr_read_into_errors() {
    let mut p = DriverstationToRobotPacket::default();
    let mut bytes = packet(&[]);
    bytes[2] = 3;
    let mut r = BufferReader::new(&bytes);
    assert!(matches!(
        p.read_into_from_buf(&mut r),
        Err(RobotPacketParseError::RobotToDriverInvalidCommVersion(1))
    ));
    let bytes = packet(&[0, 1, 42]);
    let mut r = BufferReader::new(&bytes);
    assert!(matches!(
        p.read_into_from_buf(&mut r),
        Err(RobotPacketParseError::DriverToRobotInvalidExtraTag(42))
    ));
    let bytes = packet(&[0, 1, 12, 0, 1, 12, 0, 1, 12, 0, 1, 12, 0, 1, 12, 0, 1, 12, 0, 1, 12]);
    let mut r = BufferReader::new(&bytes);
    assert!(matches!(
        p.read_into_from_buf(&mut r),
        Err(RobotPacketParseError::TooManyJoysticksInPacket)
    ));
    let bytes = packet(&[0, 9]);
    let mut r = BufferReader::new(&bytes);
    assert!(matches!(
        p.read_into_from_buf(&mut r),
        Err(RobotPacketParseError::BufferReaderError(_))
    ));
}

#[test]
fn dtr_core_written_reads_back() {
    let mut p = DriverstationToRobotPacket::default();
    p.core_data.sequence = 0xBEEF;
    p.core_data.control_code.set_enabled().set_test();
    p.core_data.station = AllianceStation::Red3;
    let mut out = [0u8; 16];
    let mut w = SliceBufferWritter::new(&mut out);
    p.write_to_buf(&mut w).unwrap();
    let bytes = w.curr_buf().to_vec();
    let mut r = BufferReader::new(&bytes);
    let back = DriverstationToRobotPacket::create_from_buf(&mut r).unwrap();
    assert_eq!(back.core_data.sequence, 0xBEEF);
    assert!(back.core_data.control_code.is_test() && back.core_data.control_code.is_enabled());
    assert_eq!(back.core_data.station, AllianceStation::Red3);
}

#[derive(Debug, PartialEq)]
enum Seen {
    Joystick(usize, bool),
    Countdown(Option<u32>),
    Time(bool),
}

struct Recorder(Vec<Seen>);

impl PacketTagAcceptor for Recorder {
    fn accept_joystick(&mut self, index: usize, joystick: Option<Joystick>) {
        self.0.push(Seen::Joystick(index, joystick.is_some()));
    }

    fn accept_countdown(&mut self, countdown: Option<u32>) {
        self.0.push(Seen::Countdown(countdown));
    }

    fn accept_time_data(&mut self, timedata: TimeData) {
        self.0.push(Seen::Time(timedata.time.is_some()));
    }
}

#[test]
fn dtr_reader_hands_joysticks_then_countdown_slots_and_date() {
    let jbytes = [0u8, 0, 0];
    let mut tags = vec![jbytes.len() as u8 + 1, 12];
    tags.extend_from_slice(&jbytes);
    tags.extend_from_slice(&[5, 7, 0x41, 0x20, 0, 0]);
    let bytes = packet(&tags);
    let mut r = BufferReader::new(&bytes);
    let (core, reader) = DriverToRobotPacketReader::new(&mut r).unwrap();
    assert_eq!(core.sequence, 0x0102);
    let mut rec = Recorder(Vec::new());
    reader.read_tags(&mut rec).unwrap();
    assert_eq!(
        rec.0,
        vec![
            Seen::Joystick(0, true),
            Seen::Countdown(Some(0x4120_0000)),
            Seen::Joystick(1, false),
            Seen::Joystick(2, false),
            Seen::Joystick(3, false),
            Seen::Joystick(4, false),
            Seen::Joystick(5, false),
            Seen::Time(false),
        ]
    );
    // a bad tag stops the read: only what came before it is handed on
    let mut tags = vec![jbytes.len() as u8 + 1, 12];
    tags.extend_from_slice(&jbytes);
    tags.extend_from_slice(&[1, 99]);
    let bytes = packet(&tags);
    let mut r = BufferReader::new(&bytes);
    let (_, reader) = DriverToRobotPacketReader::new(&mut r).unwrap();
    let mut rec = Recorder(Vec::new());
    assert!(matches!(
        reader.read_tags(&mut rec),
        Err(RobotPacketParseError::DriverToRobotInvalidExtraTag(99))
    ));
    assert_eq!(rec.0, vec![Seen::Joystick(0, true)]);
}

#[test]
fn time_data_written_field_by_field() {
    let mut td = TimeData::new();
    td.time = Some(robot_comm::time_data::TimeFields {
        micro: 16,
        sec: 15,
        min: 14,
        hour: 13,
        day: 29,
        month: 2,
        year: 2024,
    });
    let mut full = [0u8; 12];
    let mut w = SliceBufferWritter::new(&mut full);
    td.write_to_buf(&mut w).unwrap();
    assert_eq!(w.curr_buf(), &[11, 15, 0, 0, 0, 16, 15, 14, 13, 29, 1, 124]);
    // the microseconds do not fit: the fields before them stay written
    let mut small = [0u8; 4];
    let mut w = SliceBufferWritter::new(&mut small);
    assert!(td.write_to_buf(&mut w).is_err());
    assert_eq!(w.curr_buf(), &[11, 15]);
}

#[test]
fn dtr_core_written_field_by_field() {
    let mut p = DriverstationToRobotPacket::default();
    p.core_data.sequence = 0xBEEF;
    let version = p.core_data.tag_comm_version;
    // the sequence fits, the version byte does not
    let mut small = [0u8; 2];
    let mut w = SliceBufferWritter::new(&mut small);
    assert!(p.write_to_buf(&mut w).is_err());
    assert_eq!(w.curr_buf(), &[0xBE, 0xEF]);
    let mut small = [0u8; 3];
    let mut w = SliceBufferWritter::new(&mut small);
    assert!(p.write_to_buf(&mut w).is_err());
    assert_eq!(w.curr_buf(), &[0xBE, 0xEF, version]);
}

#[test]
fn dtr_seventh_joystick_is_told_before_reading() {
    let joy = [4u8, 12, 0, 0, 0];
    let mut six = Vec::new();
    for _ in 0..6 {
        six.extend_from_slice(&joy);
    }
    let bytes = packet(&six);
    let r = BufferReader::new(&bytes);
    assert!(!DriverstationToRobotPacket::needs_seventh_slot(&r));
    let mut r = BufferReader::new(&bytes);
    let p = DriverstationToRobotPacket::create_from_buf(&mut r).unwrap();
    assert_eq!(p.joystick_data.count(), 6);
    let mut seven = six.clone();
    seven.extend_from_slice(&joy);
    let bytes = packet(&seven);
    let r = BufferReader::new(&bytes);
    assert!(DriverstationToRobotPacket::needs_seventh_slot(&r));
    // a bad tag before the seventh joystick is an error, not a seventh slot
    let mut bad = six.clone();
    bad.extend_from_slice(&[2, 42]);
    bad.extend_from_slice(&joy);
    let bytes = packet(&bad);
    let r = BufferReader::new(&bytes);
    assert!(!DriverstationToRobotPacket::needs_seventh_slot(&r));
}
