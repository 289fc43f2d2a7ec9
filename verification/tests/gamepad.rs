use robot_comm::gamepad::{apply_pad_event, default_pad, PadAxis, PadButton, PadEvent};
use robot_comm::joystick::Joystick;
use robot_comm::pov::Pov;

#[test]
fn connect_gives_a_default_gamepad() {
    let j = default_pad();
    for a in 0..6 {
        assert_eq!(j.get_axis(a), Some(0));
    }
    assert_eq!(j.get_axis(6), None);
    for b in 0..10 {
        assert_eq!(j.get_button(b), Some(false));
    }
    assert_eq!(j.get_button(10), None);
    assert_eq!(j.get_pov(0).unwrap().get(), None);
    assert!(j.get_pov(1).is_none());

    let mut slot: Option<Joystick> = None;
    let mut pov = Pov::default();
    apply_pad_event(&mut slot, &mut pov, PadEvent::Connected);
    assert!(slot.is_some());
    apply_pad_event(&mut slot, &mut pov, PadEvent::Disconnected);
    assert!(slot.is_none());
}

#[test]
fn buttons_sticks_and_dpad_land_in_their_slots() {
    let mut slot: Option<Joystick> = None;
    let mut pov = Pov::default();
    apply_pad_event(&mut slot, &mut pov, PadEvent::ButtonPressed(PadButton::North));
    assert_eq!(slot.unwrap().get_button(3), Some(true));
    apply_pad_event(&mut slot, &mut pov, PadEvent::ButtonPressed(PadButton::RightThumb));
    assert_eq!(slot.unwrap().get_button(9), Some(true));
    apply_pad_event(&mut slot, &mut pov, PadEvent::ButtonReleased(PadButton::North));
    assert_eq!(slot.unwrap().get_button(3), Some(false));
    apply_pad_event(&mut slot, &mut pov, PadEvent::AxisChanged(PadAxis::RightStickY, -40));
    assert_eq!(slot.unwrap().get_axis(5), Some(-40));
    apply_pad_event(&mut slot, &mut pov, PadEvent::ButtonChanged(PadButton::LeftTrigger2, 100));
    assert_eq!(slot.unwrap().get_axis(2), Some(100));
    apply_pad_event(&mut slot, &mut pov, PadEvent::ButtonPressed(PadButton::DPadUp));
    apply_pad_event(&mut slot, &mut pov, PadEvent::ButtonPressed(PadButton::DPadRight));
    assert_eq!(slot.unwrap().get_pov(0).unwrap().get(), Some(45));
    apply_pad_event(&mut slot, &mut pov, PadEvent::ButtonReleased(PadButton::DPadUp));
    assert_eq!(slot.unwrap().get_pov(0).unwrap().get(), Some(90));
}
