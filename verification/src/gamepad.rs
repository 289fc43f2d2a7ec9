use vstd::prelude::*;

use crate::driver_to_robot::reader::opt_joystick_view;
use crate::joystick::{Joystick, JoystickView, NonNegU16};
use crate::pov::{direction_bit, law_pov_compass, pov_angle, Pov};

verus! {

/// A gamepad button, as the gamepad library names it.
#[derive(Debug, Clone, Copy, PartialEq, Eq, Structural)]
pub enum PadButton {
    South,
    East,
    North,
    West,
    LeftTrigger,
    LeftTrigger2,
    RightTrigger,
    RightTrigger2,
    Select,
    Start,
    LeftThumb,
    RightThumb,
    DPadUp,
    DPadDown,
    DPadLeft,
    DPadRight,
    Other,
}

/// A gamepad stick axis.
#[derive(Debug, Clone, Copy, PartialEq, Eq, Structural)]
pub enum PadAxis {
    LeftStickX,
    LeftStickY,
    RightStickX,
    RightStickY,
    Other,
}

/// What a gamepad reports; analog values come already scaled to an axis value.
#[derive(Debug, Clone, Copy, PartialEq, Eq, Structural)]
pub enum PadEvent {
    Connected,
    Disconnected,
    Dropped,
    ButtonPressed(PadButton),
    ButtonReleased(PadButton),
    ButtonChanged(PadButton, i8),
    AxisChanged(PadAxis, i8),
    Other,
}

/// A freshly connected gamepad: six axes at 0, ten buttons up, one pov
/// pointing nowhere.
pub open spec fn pad_default() -> JoystickView {
    JoystickView {
        axis: Seq::new(10, |i: int| 0i8),
        axis_len: 6,
        povs: seq![0xFFFFu16, 0u16],
        povs_len: 1,
        buttons: 0,
        buttons_len: 10,
    }
}

/// The joystick button a gamepad button stands for: South 0, East 1, West 2,
/// North 3, Select 4, Start 5, the shoulder triggers 6 and 7, the thumbs 8
/// and 9.
pub open spec fn pad_button_index(b: PadButton) -> Option<u8> {
    match b {
        PadButton::South => Some(0u8),
        PadButton::East => Some(1u8),
        PadButton::West => Some(2u8),
        PadButton::North => Some(3u8),
        PadButton::Select => Some(4u8),
        PadButton::Start => Some(5u8),
        PadButton::LeftTrigger => Some(6u8),
        PadButton::RightTrigger => Some(7u8),
        PadButton::LeftThumb => Some(8u8),
        PadButton::RightThumb => Some(9u8),
        _ => None,
    }
}

/// The joystick axis a stick axis stands for.
pub open spec fn pad_axis_index(a: PadAxis) -> Option<u8> {
    match a {
        PadAxis::LeftStickX => Some(0u8),
        PadAxis::LeftStickY => Some(1u8),
        PadAxis::RightStickX => Some(4u8),
        PadAxis::RightStickY => Some(5u8),
        PadAxis::Other => None,
    }
}

/// The direction bit of a D-pad button.
pub open spec fn dpad_bit(b: PadButton) -> Option<u8> {
    match b {
        PadButton::DPadUp => Some(1u8),
        PadButton::DPadRight => Some(2u8),
        PadButton::DPadDown => Some(4u8),
        PadButton::DPadLeft => Some(8u8),
        _ => None,
    }
}

pub open spec fn with_axis(v: JoystickView, i: u8, val: i8) -> JoystickView {
    JoystickView {
        axis: v.axis.update(i as int, val),
        axis_len: if v.axis_len > i { v.axis_len } else { (i + 1) as nat },
        ..v
    }
}

pub open spec fn with_button(v: JoystickView, i: u8, val: bool) -> JoystickView {
    JoystickView {
        buttons: (v.buttons & !(1u32 << i)) | ((if val { 1u32 } else { 0u32 }) << i),
        buttons_len: if v.buttons_len > i + 1 { v.buttons_len } else { (i + 1) as nat },
        ..v
    }
}

pub open spec fn with_pov0(v: JoystickView, val: u16) -> JoystickView {
    JoystickView {
        povs: v.povs.update(0, val),
        povs_len: if v.povs_len > 0 { v.povs_len } else { 1 },
        ..v
    }
}

/// The controller slot and its D-pad state after an event: a connect (or any
/// event on an empty slot) puts a fresh gamepad in the slot, a disconnect or
/// drop empties it; then, on a gamepad, a button or stick sets its button or
/// axis, the analog triggers set axes 2 and 3, and a D-pad button sets its
/// direction and pov 0 to the angle the directions make.
pub open spec fn pad_after(slot: Option<JoystickView>, pov: u8, e: PadEvent) -> (Option<JoystickView>, u8) {
    let base = if e == PadEvent::Connected || slot is None {
        Some(pad_default())
    } else if e == PadEvent::Disconnected || e == PadEvent::Dropped {
        None
    } else {
        slot
    };
    match base {
        None => (None, pov),
        Some(c) => match e {
            PadEvent::ButtonChanged(PadButton::LeftTrigger2, v) => (Some(with_axis(c, 2, v)), pov),
            PadEvent::ButtonChanged(PadButton::RightTrigger2, v) => (Some(with_axis(c, 3, v)), pov),
            PadEvent::ButtonPressed(b) => match dpad_bit(b) {
                Some(bit) => {
                    let p = (pov & !bit) | bit;
                    (Some(with_pov0(c, pov_angle(p))), p)
                },
                None => match pad_button_index(b) {
                    Some(i) => (Some(with_button(c, i, true)), pov),
                    None => (Some(c), pov),
                },
            },
            PadEvent::ButtonReleased(b) => match dpad_bit(b) {
                Some(bit) => {
                    let p = (pov & !bit) | 0u8;
                    (Some(with_pov0(c, pov_angle(p))), p)
                },
                None => match pad_button_index(b) {
                    Some(i) => (Some(with_button(c, i, false)), pov),
                    None => (Some(c), pov),
                },
            },
            PadEvent::AxisChanged(a, v) => match pad_axis_index(a) {
                Some(i) => (Some(with_axis(c, i, v)), pov),
                None => (Some(c), pov),
            },
            _ => (Some(c), pov),
        },
    }
}

/// A fresh gamepad ([`pad_default`]).
pub fn default_pad() -> (r: Joystick)
    ensures
        r@ == pad_default(),
{
    let mut j = Joystick::new();
    let mut k: u8 = 0;
    while k < 6
        invariant
            k <= 6,
            j@.axis == Seq::new(10, |i: int| 0i8),
            j@.axis_len == k,
            j@.povs == seq![0u16, 0u16],
            j@.povs_len == 0,
            j@.buttons == 0,
            j@.buttons_len == 0,
        decreases 6 - k,
    {
        let _ = j.push_axis(0);
        proof {
            assert(Seq::new(10, |i: int| 0i8).update(k as int, 0i8) =~= Seq::new(10, |i: int| 0i8));
        }
        k = k + 1;
    }
    let mut k: u8 = 0;
    while k < 10
        invariant
            k <= 10,
            j@.axis == Seq::new(10, |i: int| 0i8),
            j@.axis_len == 6,
            j@.povs == seq![0u16, 0u16],
            j@.povs_len == 0,
            j@.buttons == 0,
            j@.buttons_len == k,
        decreases 10 - k,
    {
        let _ = j.push_button(false);
        proof {
            assert(0u32 | (0u32 << k) == 0u32) by (bit_vector);
        }
        k = k + 1;
    }
    let _ = j.push_pov(NonNegU16::none());
    proof {
        assert(j@.povs =~= seq![0xFFFFu16, 0u16]);
    }
    j
}

/// Applies one gamepad event to a controller slot and its D-pad state
/// ([`pad_after`]).
pub fn apply_pad_event(slot: &mut Option<Joystick>, pov: &mut Pov, e: PadEvent)
    ensures
        (opt_joystick_view(*final(slot)), final(pov).val) == pad_after(
            opt_joystick_view(*old(slot)),
            old(pov).val,
            e,
        ),
{
    if e == PadEvent::Connected || slot.is_none() {
        *slot = Some(default_pad());
    } else if e == PadEvent::Disconnected || e == PadEvent::Dropped {
        *slot = None;
    }
    let mut c = match *slot {
        Some(c) => c,
        None => {
            return;
        },
    };
    match e {
        PadEvent::ButtonChanged(PadButton::LeftTrigger2, v) => {
            let _ = c.set_axis(2, v);
        },
        PadEvent::ButtonChanged(PadButton::RightTrigger2, v) => {
            let _ = c.set_axis(3, v);
        },
        PadEvent::ButtonPressed(b) | PadEvent::ButtonReleased(b) => {
            let val = match e {
                PadEvent::ButtonPressed(_) => true,
                _ => false,
            };
            let index: u8 = match b {
                PadButton::South => 0,
                PadButton::East => 1,
                PadButton::North => 3,
                PadButton::West => 2,
                PadButton::LeftTrigger => 6,
                PadButton::RightTrigger => 7,
                PadButton::Select => 4,
                PadButton::Start => 5,
                PadButton::LeftThumb => 8,
                PadButton::RightThumb => 9,
                PadButton::DPadUp => {
                    pov.set_up(val);
                    let _ = c.set_pov(0, pov.to_val());
                    *slot = Some(c);
                    return;
                },
                PadButton::DPadDown => {
                    pov.set_down(val);
                    let _ = c.set_pov(0, pov.to_val());
                    *slot = Some(c);
                    return;
                },
                PadButton::DPadLeft => {
                    pov.set_left(val);
                    let _ = c.set_pov(0, pov.to_val());
                    *slot = Some(c);
                    return;
                },
                PadButton::DPadRight => {
                    pov.set_right(val);
                    let _ = c.set_pov(0, pov.to_val());
                    *slot = Some(c);
                    return;
                },
                _ => {
                    return;
                },
            };
            let _ = c.set_button(index, val);
        },
        PadEvent::AxisChanged(a, v) => {
            match a {
                PadAxis::LeftStickX => {
                    let _ = c.set_axis(0, v);
                },
                PadAxis::LeftStickY => {
                    let _ = c.set_axis(1, v);
                },
                PadAxis::RightStickX => {
                    let _ = c.set_axis(4, v);
                },
                PadAxis::RightStickY => {
                    let _ = c.set_axis(5, v);
                },
                PadAxis::Other => {},
            }
        },
        _ => {},
    }
    *slot = Some(c);
}

/// A gamepad after an event sets axis `k` of the gamepad `c` to `v` and
/// leaves every other axis, the buttons, the povs and the D-pad as they were.
pub open spec fn sets_only_axis(c: JoystickView, pov: u8, r: (Option<JoystickView>, u8), k: int, v: i8) -> bool {
    &&& r.1 == pov
    &&& r.0 matches Some(n)
    &&& n.axis[k] == v
    &&& forall|m: int| 0 <= m < 10 && m != k ==> #[trigger] n.axis[m] == c.axis[m]
    &&& n.buttons == c.buttons
    &&& n.povs == c.povs
}

/// On a connected gamepad, moving the left stick sideways sets axis 0 and up
/// and down axis 1, the right stick axes 4 and 5, and the analog triggers,
/// left and right, axes 2 and 3; nothing else changes.
pub proof fn law_pad_axes(c: JoystickView, pov: u8, v: i8)
    requires
        c.axis.len() == 10,
    ensures
        sets_only_axis(c, pov, pad_after(Some(c), pov, PadEvent::AxisChanged(PadAxis::LeftStickX, v)), 0, v),
        sets_only_axis(c, pov, pad_after(Some(c), pov, PadEvent::AxisChanged(PadAxis::LeftStickY, v)), 1, v),
        sets_only_axis(c, pov, pad_after(Some(c), pov, PadEvent::AxisChanged(PadAxis::RightStickX, v)), 4, v),
        sets_only_axis(c, pov, pad_after(Some(c), pov, PadEvent::AxisChanged(PadAxis::RightStickY, v)), 5, v),
        sets_only_axis(
            c,
            pov,
            pad_after(Some(c), pov, PadEvent::ButtonChanged(PadButton::LeftTrigger2, v)),
            2,
            v,
        ),
        sets_only_axis(
            c,
            pov,
            pad_after(Some(c), pov, PadEvent::ButtonChanged(PadButton::RightTrigger2, v)),
            3,
            v,
        ),
{
}

/// Whether pressing or releasing `b` on the gamepad `c` sets joystick button
/// `i` to `down` and changes nothing else.
pub open spec fn sets_only_button(c: JoystickView, pov: u8, b: PadButton, i: u8, down: bool) -> bool {
    let e = if down {
        PadEvent::ButtonPressed(b)
    } else {
        PadEvent::ButtonReleased(b)
    };
    pad_after(Some(c), pov, e) == (Some(with_button(c, i, down)), pov)
}

/// On a connected gamepad the face buttons South, East, West and North are
/// joystick buttons 0 to 3, Select and Start 4 and 5, the left and right
/// shoulder buttons 6 and 7, the left and right thumbs 8 and 9; pressing one
/// sets its button down and releasing it sets it up.
pub proof fn law_pad_buttons(c: JoystickView, pov: u8, down: bool)
    ensures
        sets_only_button(c, pov, PadButton::South, 0, down),
        sets_only_button(c, pov, PadButton::East, 1, down),
        sets_only_button(c, pov, PadButton::West, 2, down),
        sets_only_button(c, pov, PadButton::North, 3, down),
        sets_only_button(c, pov, PadButton::Select, 4, down),
        sets_only_button(c, pov, PadButton::Start, 5, down),
        sets_only_button(c, pov, PadButton::LeftTrigger, 6, down),
        sets_only_button(c, pov, PadButton::RightTrigger, 7, down),
        sets_only_button(c, pov, PadButton::LeftThumb, 8, down),
        sets_only_button(c, pov, PadButton::RightThumb, 9, down),
{
}

/// On a connected gamepad with no D-pad direction held, pressing one direction
/// points pov 0 at its compass angle, clockwise from up: up 0, right 90,
/// down 180, left 270; the D-pad then holds that direction alone.
pub proof fn law_pad_dpad(c: JoystickView)
    ensures
        pad_after(Some(c), 0, PadEvent::ButtonPressed(PadButton::DPadUp)) == (
            Some(with_pov0(c, 0)),
            direction_bit(0),
        ),
        pad_after(Some(c), 0, PadEvent::ButtonPressed(PadButton::DPadRight)) == (
            Some(with_pov0(c, 90)),
            direction_bit(1),
        ),
        pad_after(Some(c), 0, PadEvent::ButtonPressed(PadButton::DPadDown)) == (
            Some(with_pov0(c, 180)),
            direction_bit(2),
        ),
        pad_after(Some(c), 0, PadEvent::ButtonPressed(PadButton::DPadLeft)) == (
            Some(with_pov0(c, 270)),
            direction_bit(3),
        ),
{
    law_pov_compass(0);
    law_pov_compass(1);
    law_pov_compass(2);
    law_pov_compass(3);
    assert((0u8 & !1u8) | 1u8 == (1u8 << 0u8) && (0u8 & !2u8) | 2u8 == (1u8 << 1u8) && (0u8
        & !4u8) | 4u8 == (1u8 << 2u8) && (0u8 & !8u8) | 8u8 == (1u8 << 3u8)) by (bit_vector);
}

/// A gamepad that connects, or any event on a slot that holds none, starts
/// as a fresh gamepad: six axes at rest, ten buttons up, one pov pointing
/// nowhere; a disconnect or a drop empties its slot.
pub proof fn law_pad_connect(slot: Option<JoystickView>, pov: u8)
    ensures
        pad_after(slot, pov, PadEvent::Connected).0 == Some(pad_default()),
        pad_after(None, pov, PadEvent::Other).0 == Some(pad_default()),
        pad_default().axis_len == 6 && pad_default().buttons_len == 10 && pad_default().povs_len == 1,
        forall|i: int| 0 <= i < 10 ==> #[trigger] pad_default().axis[i] == 0,
        pad_default().buttons == 0 && pad_default().povs[0] == 0xFFFF,
        slot is Some ==> pad_after(slot, pov, PadEvent::Disconnected).0 is None && pad_after(
            slot,
            pov,
            PadEvent::Dropped,
        ).0 is None,
{
}

} // verus!
