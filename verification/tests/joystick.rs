use robot_comm::buffer_reader::{BufferReader, CreateFromBuf, ReadFromBuf};
use robot_comm::buffer_writter::{BufferWritter, SliceBufferWritter, WriteToBuff};
use robot_comm::joystick::{Joystick, JoystickParseError, Joysticks, NonNegU16};

#[test]
fn joystick_push_and_get() {
    let mut j = Joystick::new();
    j.push_axis(-5).unwrap();
    j.push_axis(7).unwrap();
    j.push_button(true).unwrap();
    j.push_button(false).unwrap();
    j.push_pov(NonNegU16::new(90)).unwrap();
    assert_eq!(j.axis_len(), 2);
    assert_eq!(j.get_axis(0), Some(-5));
    assert_eq!(j.get_axis(1), Some(7));
    assert_eq!(j.get_axis(2), None);
    assert_eq!(j.get_button(0), Some(true));
    assert_eq!(j.get_button(1), Some(false));
    assert_eq!(j.get_button(2), None);
    assert_eq!(j.povs_len(), 1);
    assert_eq!(j.get_pov(0).map(|p| p.raw()), Some(90));
}

#[test]
fn joystick_limits() {
    let mut j = Joystick::new();
    for i in 0..10 {
        j.push_axis(i).unwrap();
    }
    assert!(j.push_axis(10).is_err());
    j.push_pov(NonNegU16::none()).unwrap();
    j.push_pov(NonNegU16::new(0)).unwrap();
    assert!(j.push_pov(NonNegU16::new(1)).is_err());
    for _ in 0..32 {
        j.push_button(true).unwrap();
    }
    assert!(j.push_button(true).is_err());
    assert!(j.set_button(10, true).is_err());
    assert!(j.set_pov(2, NonNegU16::none()).is_err());
    assert!(j.set_axis(11, 0).is_err());
}

#[test]
fn joystick_setters_extend_lengths() {
    let mut j = Joystick::new();
    j.set_axis(3, 9).unwrap();
    assert_eq!(j.axis_len(), 4);
    assert_eq!(j.get_axis(3), Some(9));
    assert_eq!(j.get_axis(0), Some(0));
    j.set_pov(1, NonNegU16::new(270)).unwrap();
    assert_eq!(j.povs_len(), 2);
    j.set_button(4, true).unwrap();
    assert_eq!(j.buttons_len(), 5);
    assert_eq!(j.get_button(4), Some(true));
    j.clear_axis();
    assert_eq!(j.axis_len(), 0);
    j.clear_povs();
    assert_eq!(j.povs_len(), 0);
    j.clear_buttons();
    assert_eq!(j.get_button(4), Some(false));
}

#[test]
fn nonneg_u16_none_is_unpressed() {
    assert_eq!(NonNegU16::none().get(), None);
    assert_eq!(NonNegU16::new(45).get(), Some(45));
    assert_eq!(NonNegU16::none().raw(), 0xFFFF);
}

#[test]
fn joystick_wire_bytes() {
    let mut j = Joystick::new();
    j.push_axis(-1).unwrap();
    for k in 0..9 {
        j.push_button(k % 2 == 0).unwrap();
    }
    j.push_pov(NonNegU16::new(0x0102)).unwrap();
    let mut buf = [0u8; 32];
    let mut w = SliceBufferWritter::new(&mut buf);
    j.write_to_buf(&mut w).unwrap();
    // axis count, axis, button count, two bytes of buttons, pov count 2, two povs
    assert_eq!(w.curr_buf(), &[1, 0xFF, 9, 0x01, 0x55, 2, 1, 2, 0, 0]);
}

#[test]
fn joystick_write_then_read() {
    let mut j = Joystick::new();
    j.push_axis(12).unwrap();
    j.push_axis(-12).unwrap();
    j.push_button(true).unwrap();
    j.push_button(true).unwrap();
    j.push_pov(NonNegU16::new(180)).unwrap();
    j.push_pov(NonNegU16::new(90)).unwrap();
    let mut buf = [0u8; 32];
    let mut w = SliceBufferWritter::new(&mut buf);
    j.write_to_buf(&mut w).unwrap();
    let mut r = BufferReader::new(w.curr_buf());
    let back = Joystick::create_from_buf(&mut r).unwrap();
    assert_eq!(back.get_axis(0), Some(12));
    assert_eq!(back.get_axis(1), Some(-12));
    assert_eq!(back.get_button(0), Some(true));
    assert_eq!(back.get_button(1), Some(true));
    assert_eq!(back.get_pov(0).map(|p| p.raw()), Some(180));
    assert_eq!(back.get_pov(1).map(|p| p.raw()), Some(90));
}

#[test]
fn joystick_read_errors() {
    let too_many_buttons = [0u8, 40];
    let mut r = BufferReader::new(&too_many_buttons);
    assert!(matches!(
        Joystick::create_from_buf(&mut r),
        Err(JoystickParseError::ButtonLenOverflow(40))
    ));
    let too_many_axes = [11u8, 0, 0, 0, 0, 0, 0, 0, 0, 0, 0, 0];
    let mut r = BufferReader::new(&too_many_axes);
    assert!(matches!(
        Joystick::create_from_buf(&mut r),
        Err(JoystickParseError::AxisLenOverflow(11))
    ));
    let too_many_povs = [0u8, 0, 3, 0, 0, 0, 0, 0, 0];
    let mut r = BufferReader::new(&too_many_povs);
    assert!(matches!(
        Joystick::create_from_buf(&mut r),
        Err(JoystickParseError::PovLenOverflow(3))
    ));
    let left_over = [0u8, 0, 0, 9];
    let mut r = BufferReader::new(&left_over);
    assert!(matches!(
        Joystick::create_from_buf(&mut r),
        Err(JoystickParseError::BufferReaderError(_))
    ));
}

#[test]
fn joystick_read_into_keeps_stored_entries() {
    let mut j = Joystick::new();
    j.push_axis(1).unwrap();
    j.push_axis(2).unwrap();
    let bytes = [1u8, 9, 0, 0];
    let mut r = BufferReader::new(&bytes);
    j.read_into_from_buf(&mut r).unwrap();
    assert_eq!(j.axis_len(), 1);
    assert_eq!(j.get_axis(0), Some(9));
    j.set_axis(1, 5).unwrap();
    assert_eq!(j.get_axis(1), Some(5));
}

#[test]
fn joysticks_slots() {
    let mut js = Joysticks::default();
    assert_eq!(js.count(), 0);
    js.insert(2, Joystick::new());
    assert_eq!(js.count(), 1);
    assert!(js.get(2).is_some());
    assert!(js.get(1).is_none());
    assert!(js.get(9).is_none());
    if let Some(j) = js.get_mut(2) {
        j.push_axis(4).unwrap();
    }
    assert_eq!(js.get(2).unwrap().get_axis(0), Some(4));
    assert!(js.remove(2).is_some());
    assert_eq!(js.count(), 0);
    assert!(js.remove(7).is_none());
    if let Some(slot) = js.get_o_mut(0) {
        *slot = Some(Joystick::new());
    }
    assert_eq!(js.count(), 1);
    js.delete(0);
    assert_eq!(js.count(), 0);
}

#[test]
fn joysticks_wire_blocks() {
    let mut js = Joysticks::default();
    js.insert(0, Joystick::new());
    let mut buf = [0u8; 128];
    let mut w = SliceBufferWritter::new(&mut buf);
    js.write_to_buf(&mut w).unwrap();
    // six blocks of: length 8, tag 12, and an empty joystick's 7 bytes
    let block = [8u8, 12, 0, 0, 2, 0, 0, 0, 0];
    assert_eq!(w.curr_buf().len(), 6 * block.len());
    for k in 0..6 {
        assert_eq!(&w.curr_buf()[k * 9..k * 9 + 9], &block);
    }
}

#[test]
fn joystick_written_field_by_field() {
    let mut j = Joystick::new();
    j.push_axis(-1).unwrap();
    for k in 0..9 {
        j.push_button(k % 2 == 0).unwrap();
    }
    j.push_pov(NonNegU16::new(0x0102)).unwrap();
    // room for the pov count and one byte of the first pov: that pov stays out
    let mut buf = [0u8; 7];
    let mut w = SliceBufferWritter::new(&mut buf);
    assert!(j.write_to_buf(&mut w).is_err());
    assert_eq!(w.curr_buf(), &[1, 0xFF, 9, 0x01, 0x55, 2]);
}

#[test]
fn joysticks_written_field_by_field() {
    let js = Joysticks::default();
    // the first block, then the second up to its pov count: its first pov
    // does not fit in the byte left
    let mut buf = [0u8; 15];
    let mut w = SliceBufferWritter::new(&mut buf);
    assert!(js.write_to_buf(&mut w).is_err());
    assert_eq!(w.curr_buf(), &[8, 12, 0, 0, 2, 0, 0, 0, 0, 8, 12, 0, 0, 2]);
}
