use robot_comm::buffer_reader::{BufferReader, CreateFromBuf, ReadFromBuf};
use robot_comm::buffer_writter::{BufferWritter, SliceBufferWritter, WriteToBuff};
use robot_comm::control_code::ControlCode;
use robot_comm::error::RobotPacketParseError;
use robot_comm::request_code::{DriverstationRequestCode, RobotRequestCode};
use robot_comm::roborio_status_code::RobotStatusCode;
use robot_comm::robot_to_driver::reader::{PacketTagAcceptor, RobotToDriverPacketReader};
use robot_comm::robot_to_driver::writter::RobotToDriverstaionPacketWritter;
use robot_comm::robot_to_driver::{
    CpuUsage, PdpPortReport, PdpPowerReportInner, RobotToDriverCanUsage, RobotToDriverDiskUsage,
    RobotToDriverRamUsage, RobotToDriverRumble, RobotToDriverstationPacket,
};
use robot_comm::robot_voltage::RobotVoltage;

#[test]
pub fn packet_write_and_read() {
    let _ = RobotRequestCode::new();
    let packet = RobotToDriverstationPacket {
        sequence: 0x1234,
        tag_comm_version: 1,
        control_code: *ControlCode::new()
            .set_enabled()
            .set_autonomus()
            .set_fms_attached(true),
        status: *RobotStatusCode::new().set_has_robot_code(true),
        battery: RobotVoltage { int: 5, dec: 50 },
        request: *DriverstationRequestCode::new().set_request_time(true),
    };

    let mut buf = [0; 10];
    let mut bufw = SliceBufferWritter::new(&mut buf);
    packet
        .write_to_buf(&mut bufw)
        .expect("Failed to write to buffer");

    let mut bufr = BufferReader::new(bufw.curr_buf());
    let read_packet = RobotToDriverstationPacket::create_from_buf(&mut bufr)
        .expect("Failed to read packet from buffer");

    assert_eq!(
        read_packet, packet,
        "Packets do not match when written and read from a buffer"
    )
}

fn sample_packet() -> RobotToDriverstationPacket {
    RobotToDriverstationPacket {
        sequence: 0x0102,
        tag_comm_version: 1,
        control_code: ControlCode(0x04),
        status: RobotStatusCode(0x20),
        battery: RobotVoltage { int: 12, dec: 128 },
        request: DriverstationRequestCode(0x01),
    }
}

#[test]
fn rtd_packet_wire_bytes() {
    let mut buf = [0u8; 8];
    let mut w = SliceBufferWritter::new(&mut buf);
    sample_packet().write_to_buf(&mut w).unwrap();
    assert_eq!(w.curr_buf(), &[1, 2, 1, 4, 0x20, 12, 128, 1]);
}

#[test]
fn rtd_packet_write_too_small() {
    let mut buf = [0u8; 5];
    let mut w = SliceBufferWritter::new(&mut buf);
    assert!(sample_packet().write_to_buf(&mut w).is_err());
}

#[test]
fn rtd_bad_comm_version() {
    let bytes = [1u8, 2, 7, 0, 0, 0, 0, 0];
    let mut r = BufferReader::new(&bytes);
    match RobotToDriverstationPacket::create_from_buf(&mut r) {
        Err(RobotPacketParseError::RobotToDriverInvalidCommVersion(7)) => {}
        other => panic!("unexpected {:?}", other),
    }
}

#[test]
fn rtd_short_packet() {
    let bytes = [1u8, 2, 1, 0];
    let mut r = BufferReader::new(&bytes);
    assert!(matches!(
        RobotToDriverstationPacket::create_from_buf(&mut r),
        Err(RobotPacketParseError::BufferReaderError(_))
    ));
}

#[test]
fn rtd_tags_are_checked() {
    // core, then a ram tag (length 9, tag 6, 8 bytes), an empty tag, a can tag
    let mut bytes = vec![0u8, 1, 1, 0, 0, 0, 0, 0];
    bytes.extend_from_slice(&[9, 6, 0, 0, 0, 0, 0, 0, 1, 0]);
    bytes.push(0);
    bytes.extend_from_slice(&[15, 14, 0, 0, 0, 0, 0, 0, 0, 5, 0, 0, 0, 10, 23, 32]);
    let mut r = BufferReader::new(&bytes);
    let p = RobotToDriverstationPacket::create_from_buf(&mut r).unwrap();
    assert_eq!(p.sequence, 1);
}

#[test]
fn rtd_unknown_tag_is_refused() {
    let bytes = [0u8, 1, 1, 0, 0, 0, 0, 0, 2, 99, 0];
    let mut r = BufferReader::new(&bytes);
    match RobotToDriverstationPacket::create_from_buf(&mut r) {
        Err(RobotPacketParseError::RobotToDriverInvalidUsageTag(99)) => {}
        other => panic!("unexpected {:?}", other),
    }
}

#[test]
fn rtd_read_into_reads_core_only() {
    let bytes = [0u8, 9, 1, 4, 0, 11, 0, 0, 5, 5];
    let mut r = BufferReader::new(&bytes);
    let mut p = RobotToDriverstationPacket::default();
    p.read_into_from_buf(&mut r).unwrap();
    assert_eq!(p.sequence, 9);
    assert_eq!(p.battery, RobotVoltage { int: 11, dec: 0 });
}

#[derive(Default)]
struct Collect {
    ram: Vec<u64>,
    disk: Vec<u64>,
    cpus: usize,
    can: Vec<RobotToDriverCanUsage>,
    ports: usize,
    power: usize,
}

impl PacketTagAcceptor for Collect {
    fn accept_rumble(&mut self, _rumble: RobotToDriverRumble) {}
    fn accept_ram_usage(&mut self, bytes_free: RobotToDriverRamUsage) {
        self.ram.push(bytes_free.bytes_free)
    }
    fn accept_disk_usage(&mut self, bytes_free: RobotToDriverDiskUsage) {
        self.disk.push(bytes_free.bytes_free)
    }
    fn accept_cpu_usage(&mut self, cpu_usage: &[CpuUsage]) {
        self.cpus += cpu_usage.len()
    }
    fn accept_can_usage(&mut self, can_usage: RobotToDriverCanUsage) {
        self.can.push(can_usage)
    }
    fn accept_pdp_port_report(&mut self, _pdp_port_report: PdpPortReport) {
        self.ports += 1
    }
    fn accept_pdp_power_report(&mut self, _pdp_power_report: PdpPowerReportInner) {
        self.power += 1
    }
}

#[test]
fn rtd_writer_then_reader_roundtrip() {
    let mut buf = [0u8; 256];
    let mut w = SliceBufferWritter::new(&mut buf);
    let mut pw = RobotToDriverstaionPacketWritter::new(&mut w, sample_packet()).unwrap();
    pw.ram_usage(RobotToDriverRamUsage { bytes_free: 77 }).unwrap();
    pw.disk_usage(RobotToDriverDiskUsage { bytes_free: 88 }).unwrap();
    pw.can_usage(RobotToDriverCanUsage { utilization: 0x3f00_0000, bus_off: 1, tx_full: 2, rx: 3, tx: 4 })
        .unwrap();
    let bytes = pw.into_buf().to_vec();
    let reader = RobotToDriverPacketReader::new(BufferReader::new(&bytes));
    let (core, tags) = reader.read_core().unwrap();
    assert_eq!(core, sample_packet());
    let mut c = Collect::default();
    tags.read_tags(&mut c).unwrap();
    // the writer tags disk usage 4 and ram usage 6; the reader hands tag 4 to
    // the ram acceptor and tag 6 to the disk one
    assert_eq!(c.ram, vec![88]);
    assert_eq!(c.disk, vec![77]);
    assert_eq!(
        c.can,
        vec![RobotToDriverCanUsage { utilization: 0x3f00_0000, bus_off: 1, tx_full: 2, rx: 3, tx: 4 }]
    );
}

#[test]
fn rtd_writer_rumble_bytes() {
    let mut buf = [0u8; 32];
    let mut w = SliceBufferWritter::new(&mut buf);
    let mut pw = RobotToDriverstaionPacketWritter::new(&mut w, sample_packet()).unwrap();
    pw.rumble(RobotToDriverRumble { no_idea: 1, left: 2, right: 3 }).unwrap();
    assert_eq!(&pw.into_buf()[8..], &[9, 1, 0, 0, 0, 1, 0, 2, 0, 3]);
}

#[test]
fn rtd_writer_cpu_usage_bytes() {
    let mut buf = [0u8; 64];
    let mut w = SliceBufferWritter::new(&mut buf);
    let mut pw = RobotToDriverstaionPacketWritter::new(&mut w, sample_packet()).unwrap();
    let cpu = CpuUsage { user: [1, 2, 3, 4], unknown1: [5, 6, 7, 8], unknown2: [9, 10, 11, 12], system: [13, 14, 15, 16] };
    pw.cpu_usage(&[cpu]).unwrap();
    let out = pw.into_buf();
    assert_eq!(out[8], 17);
    assert_eq!(out[9], 5);
    assert_eq!(&out[10..26], &[1, 2, 3, 4, 5, 6, 7, 8, 9, 10, 11, 12, 13, 14, 15, 16]);
}

#[test]
fn rtd_writer_cpu_usage_too_many() {
    let mut buf = [0u8; 512];
    let mut w = SliceBufferWritter::new(&mut buf);
    let mut pw = RobotToDriverstaionPacketWritter::new(&mut w, sample_packet()).unwrap();
    let cpus = [CpuUsage::default(); 16];
    assert!(pw.cpu_usage(&cpus).is_err());
}

#[test]
fn rtd_writer_pdp_power_report_reserves_tag_room() {
    let mut buf = [0xAAu8; 64];
    let mut w = SliceBufferWritter::new(&mut buf);
    let mut pw = RobotToDriverstaionPacketWritter::new(&mut w, sample_packet()).unwrap();
    pw.pdp_power_report(robot_comm::robot_to_driver::PdpPowerReport {
        inner: PdpPowerReportInner([1, 2, 3, 4, 5, 6, 7, 8, 9]),
    })
    .unwrap();
    let out = pw.into_buf();
    assert_eq!(out.len(), 8 + 1 + 8 + 9);
    assert_eq!(out[8], 10);
    assert_eq!(&out[17..], &[1, 2, 3, 4, 5, 6, 7, 8, 9]);
}

#[test]
fn rtd_reader_sees_rumble_before_reading() {
    let packet = RobotToDriverstationPacket {
        sequence: 1,
        tag_comm_version: 1,
        control_code: ControlCode::new(),
        status: RobotStatusCode::new(),
        battery: RobotVoltage { int: 12, dec: 0 },
        request: DriverstationRequestCode::new(),
    };
    let mut buf = [0u8; 8];
    let mut w = SliceBufferWritter::new(&mut buf);
    packet.write_to_buf(&mut w).unwrap();
    let mut bytes = w.curr_buf().to_vec();
    // a ram tag, then a rumble tag
    bytes.extend_from_slice(&[9, 4, 0, 0, 0, 0, 0, 0, 0, 7, 1, 1]);
    let reader = RobotToDriverPacketReader::new(BufferReader::new(&bytes));
    let (_, tags) = reader.read_core().unwrap();
    assert!(tags.meets_rumble());
    // a broken tag stops the reading before the rumble tag
    bytes[8] = 2;
    let reader = RobotToDriverPacketReader::new(BufferReader::new(&bytes));
    let (_, tags) = reader.read_core().unwrap();
    assert!(!tags.meets_rumble());
}
