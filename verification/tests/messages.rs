use robot_comm::buffer_reader::BufferReader;
use robot_comm::message_console::{MessageConsole, MessageHandler};
use robot_comm::buffer_writter::{BufferWritter, BufferWritterError, SliceBufferWritter};
use robot_comm::robot_to_driverstation::error::{Errors, Warnings};
use robot_comm::robot_to_driverstation::{
    Message, MessageKind, MessageReadError, VersionInfo,
};

fn write(m: &Message) -> Vec<u8> {
    let mut buf = [0u8; 512];
    let mut w = SliceBufferWritter::new(&mut buf);
    m.write_to_buf(&mut w).unwrap();
    w.curr_buf().to_vec()
}

fn read(bytes: &[u8]) -> Result<Message, MessageReadError> {
    let mut r = BufferReader::new(bytes);
    Message::create_from_buf(&mut r)
}

#[test]
fn message_info_wire_and_back() {
    let mut m = Message::info("hello");
    m.set_ms(0x0102_0304);
    m.set_msg_num(7);
    let bytes = write(&m);
    assert_eq!(bytes, vec![0x0C, 1, 2, 3, 4, 0, 7, b'h', b'e', b'l', b'l', b'o']);
    match read(&bytes).unwrap().kind {
        MessageKind::Message { ms, msg_num, msg } => {
            assert_eq!((ms, msg_num, msg.as_str()), (0x0102_0304, 7, "hello"));
        }
        _ => panic!("not a plain message"),
    }
}

#[test]
fn message_error_and_warning_back() {
    let m = Message::error("bad", Errors::ModuleIndexOutOfRange, "here", "");
    let bytes = write(&m);
    assert_eq!(bytes[0], 0x0B);
    match read(&bytes).unwrap().kind {
        MessageKind::Error { err, msg, loc, stack, .. } => {
            assert!(matches!(err, Errors::ModuleIndexOutOfRange));
            assert_eq!((msg.as_str(), loc.as_str(), stack.as_str()), ("bad", "here", ""));
        }
        _ => panic!("not an error"),
    }
    let m = Message::warn("hot", Warnings::SampleRateTooHigh, "there", "trace");
    let bytes = write(&m);
    match read(&bytes).unwrap().kind {
        MessageKind::Warning { warn, msg, loc, stack, .. } => {
            assert!(matches!(warn, Warnings::SampleRateTooHigh));
            assert_eq!((msg.as_str(), loc.as_str(), stack.as_str()), ("hot", "there", "trace"));
        }
        _ => panic!("not a warning"),
    }
}

#[test]
fn message_faults_wire() {
    let m = Message { kind: MessageKind::RailFaults { short_6v: 1, short_5v: 2, short_3_3v: 0x0304 } };
    assert_eq!(write(&m), vec![0x05, 0, 1, 0, 2, 3, 4]);
    let m = Message { kind: MessageKind::DisableFaults { comms: 0x0102, fault_12v: 3 } };
    let bytes = write(&m);
    assert_eq!(bytes, vec![0x04, 1, 2, 0, 3]);
    assert!(matches!(
        read(&bytes).unwrap().kind,
        MessageKind::DisableFaults { comms: 0x0102, fault_12v: 3 }
    ));
}

#[test]
fn message_version_info_back() {
    let m = Message { kind: MessageKind::VersionInfo { kind: VersionInfo::LibCVersion("2024.1".to_string()) } };
    let bytes = write(&m);
    match read(&bytes).unwrap().kind {
        MessageKind::VersionInfo { kind: VersionInfo::LibCVersion(v) } => assert_eq!(v, "2024.1"),
        _ => panic!("not a library version"),
    }
    let long = "x".repeat(300);
    let m = Message { kind: MessageKind::VersionInfo { kind: VersionInfo::Empty(long) } };
    let mut buf = [0u8; 512];
    let mut w = SliceBufferWritter::new(&mut buf);
    assert!(matches!(m.write_to_buf(&mut w), Err(BufferWritterError::SizeValueOverflow)));
    // the fields before the string are written first
    assert_eq!(w.curr_buf(), &[0x0A, 0, 0, 0, 0, 0]);
}

#[test]
fn message_read_errors() {
    assert!(matches!(read(&[0x42, 1, 2]), Err(MessageReadError::InvalidMsgCode(0x42))));
    assert!(matches!(read(&[0x04, 1]), Err(MessageReadError::BufferReaderError(_))));
    assert!(matches!(read(&[0x04, 1, 2, 3, 4, 5]), Err(_)));
}

#[test]
fn message_error_codes() {
    assert_eq!(i32::from(Errors::ModuleIndexOutOfRange), -1);
    assert!(matches!(Errors::from(-45), Errors::ChannelIndexOutOfRange));
    assert_eq!(i32::from(Warnings::VoltageOutOfRange), 2);
    assert!(matches!(Warnings::from(1), Warnings::SampleRateTooHigh));
}

#[test]
fn message_pdp_version_leaves_bytes() {
    let m = Message { kind: MessageKind::VersionInfo { kind: VersionInfo::PDP(0x0102, 3) } };
    let bytes = write(&m);
    assert_eq!(bytes, vec![0x0A, 8, 1, 2, 3, 0, 0]);
    assert!(matches!(
        read(&bytes),
        Err(MessageReadError::BufferReaderError(robot_comm::buffer_reader::BufferReaderError::UnreadData { remaining: 2 }))
    ));
    let m = Message { kind: MessageKind::VersionInfo { kind: VersionInfo::CANTalon(0x0102, 3) } };
    let bytes = write(&m);
    assert!(matches!(
        read(&bytes).unwrap().kind,
        MessageKind::VersionInfo { kind: VersionInfo::CANTalon(0x0102, 3) }
    ));
}

struct Kept(Vec<Result<Message, MessageReadError>>);

impl MessageHandler for Kept {
    fn receive_message(&mut self, message: Message) {
        self.0.push(Ok(message));
    }

    fn parse_error(&mut self, err: MessageReadError) {
        self.0.push(Err(err));
    }
}

#[test]
fn console_hands_each_frame_on() {
    let mut console = MessageConsole::new(Kept(Vec::new()));
    let m = Message::info("hello");
    let bytes = write(&m);
    assert!(console.handle_frame(&bytes));
    assert!(!console.handle_frame(&[0x42]));
    assert_eq!(console.reciever.0.len(), 2);
    match &console.reciever.0[0] {
        Ok(Message { kind: MessageKind::Message { msg, .. } }) => assert_eq!(msg, "hello"),
        other => panic!("unexpected {other:?}"),
    }
    assert!(matches!(console.reciever.0[1], Err(MessageReadError::InvalidMsgCode(0x42))));
}

#[test]
fn message_written_field_by_field() {
    let mut m = Message::info("hello");
    m.set_ms(0x0102_0304);
    m.set_msg_num(7);
    // the code and the time fit, the message number does not
    let mut small = [0u8; 6];
    let mut w = SliceBufferWritter::new(&mut small);
    assert!(matches!(m.write_to_buf(&mut w), Err(BufferWritterError::BufferTooSmall)));
    assert_eq!(w.curr_buf(), &[0x0C, 1, 2, 3, 4]);
}
