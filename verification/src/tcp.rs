use vstd::prelude::*;

use crate::buffer_reader::{be_value, overflow_error, BufferReader, BufferReaderError};
use crate::super_small_vec::SuperSmallVec;
use crate::buffer_writter::{be2, be4, be_bytes, lemma_be_bytes_len};
use crate::robot_to_driverstation::{message_wire, MessageKindV};
use crate::ringbuffer::{half, is_pow2, spec_drop, ExceededMaximumCapacity, RingBuffer};
use vstd::string::StringSliceAdditionalSpecFns;

verus! {

/// The kind of match the field reports.
#[derive(Debug, Clone, Copy, PartialEq, Eq, Structural)]
pub enum MatchType {
    NoMatch,
    Practis,
    Qualifications,
    Eliminations,
    Unknown(u8),
}

pub open spec fn match_type_of(v: u8) -> MatchType {
    if v == 0 {
        MatchType::NoMatch
    } else if v == 1 {
        MatchType::Practis
    } else if v == 2 {
        MatchType::Qualifications
    } else if v == 3 {
        MatchType::Eliminations
    } else {
        MatchType::Unknown(v)
    }
}

impl MatchType {
    /// The match type a byte names; any other byte is `Unknown`.
    pub fn from_primitive(v: u8) -> (r: Self)
        ensures
            r == match_type_of(v),
    {
        match v {
            0 => MatchType::NoMatch,
            1 => MatchType::Practis,
            2 => MatchType::Qualifications,
            3 => MatchType::Eliminations,
            v => MatchType::Unknown(v),
        }
    }
}

/// What a joystick axis measures.
#[derive(Debug, Clone, Copy, PartialEq, Eq, Hash, Structural)]
pub enum AxisType {
    XAxis,
    YAxis,
    ZAxis,
    TwistAxis,
    ThrottleAxis,
    Unknown(u8),
}

pub open spec fn axis_type_of(v: u8) -> AxisType {
    if v == 0 {
        AxisType::XAxis
    } else if v == 1 {
        AxisType::YAxis
    } else if v == 2 {
        AxisType::ZAxis
    } else if v == 3 {
        AxisType::TwistAxis
    } else if v == 4 {
        AxisType::ThrottleAxis
    } else {
        AxisType::Unknown(v)
    }
}

impl AxisType {
    /// The axis type a byte names; any other byte is `Unknown`.
    pub fn from_primitive(v: u8) -> (r: Self)
        ensures
            r == axis_type_of(v),
    {
        match v {
            0 => AxisType::XAxis,
            1 => AxisType::YAxis,
            2 => AxisType::ZAxis,
            3 => AxisType::TwistAxis,
            4 => AxisType::ThrottleAxis,
            v => AxisType::Unknown(v),
        }
    }
}

/// The kind of controller the driver station reports.
#[derive(Debug, Clone, Copy, PartialEq, Eq, Hash, Structural)]
pub enum JoystickType {
    Unknown,
    XInputUnknwon,
    XInputGamepad,
    XInputWheel,
    XInputArcade,
    XInputFlightStick,
    XInputDancePad,
    XInputGuitar,
    XInputGitar2,
    XInputDrumKit,
    XInputGuitar3,
    XInputArcadePad,
    HIDJoystick,
    HIDGamepad,
    HIDDriving,
    HIDFlight,
    HID1stPerson,
    UnknownVarient(u8),
}

pub open spec fn joystick_type_of(v: u8) -> JoystickType {
    if v == 0xFF {
        JoystickType::Unknown
    } else if v == 0 {
        JoystickType::XInputUnknwon
    } else if v == 1 {
        JoystickType::XInputGamepad
    } else if v == 2 {
        JoystickType::XInputWheel
    } else if v == 3 {
        JoystickType::XInputArcade
    } else if v == 4 {
        JoystickType::XInputFlightStick
    } else if v == 5 {
        JoystickType::XInputDancePad
    } else if v == 6 {
        JoystickType::XInputGuitar
    } else if v == 7 {
        JoystickType::XInputGitar2
    } else if v == 8 {
        JoystickType::XInputDrumKit
    } else if v == 11 {
        JoystickType::XInputGuitar3
    } else if v == 19 {
        JoystickType::XInputArcadePad
    } else if v == 20 {
        JoystickType::HIDJoystick
    } else if v == 21 {
        JoystickType::HIDGamepad
    } else if v == 22 {
        JoystickType::HIDDriving
    } else if v == 23 {
        JoystickType::HIDFlight
    } else if v == 24 {
        JoystickType::HID1stPerson
    } else {
        JoystickType::UnknownVarient(v)
    }
}

impl JoystickType {
    /// The controller kind a byte names; any other byte is `UnknownVarient`.
    pub fn from_primitive(v: u8) -> (r: Self)
        ensures
            r == joystick_type_of(v),
    {
        match v {
            0xFF => JoystickType::Unknown,
            0 => JoystickType::XInputUnknwon,
            1 => JoystickType::XInputGamepad,
            2 => JoystickType::XInputWheel,
            3 => JoystickType::XInputArcade,
            4 => JoystickType::XInputFlightStick,
            5 => JoystickType::XInputDancePad,
            6 => JoystickType::XInputGuitar,
            7 => JoystickType::XInputGitar2,
            8 => JoystickType::XInputDrumKit,
            11 => JoystickType::XInputGuitar3,
            19 => JoystickType::XInputArcadePad,
            20 => JoystickType::HIDJoystick,
            21 => JoystickType::HIDGamepad,
            22 => JoystickType::HIDDriving,
            23 => JoystickType::HIDFlight,
            24 => JoystickType::HID1stPerson,
            v => JoystickType::UnknownVarient(v),
        }
    }
}

/// The match types as the protocol numbers them: 0 no match, 1 practice, 2
/// qualifications, 3 eliminations; any other byte is kept as unknown.
pub proof fn law_match_type_numbers(v: u8)
    ensures
        match_type_of(0) == MatchType::NoMatch,
        match_type_of(1) == MatchType::Practis,
        match_type_of(2) == MatchType::Qualifications,
        match_type_of(3) == MatchType::Eliminations,
        v > 3 ==> match_type_of(v) == MatchType::Unknown(v),
{
}

/// The axis kinds as the protocol numbers them: 0 X, 1 Y, 2 Z, 3 twist, 4
/// throttle; any other byte is kept as unknown.
pub proof fn law_axis_type_numbers(v: u8)
    ensures
        axis_type_of(0) == AxisType::XAxis,
        axis_type_of(1) == AxisType::YAxis,
        axis_type_of(2) == AxisType::ZAxis,
        axis_type_of(3) == AxisType::TwistAxis,
        axis_type_of(4) == AxisType::ThrottleAxis,
        v > 4 ==> axis_type_of(v) == AxisType::Unknown(v),
{
}

/// The controller kinds as the protocol numbers them: 0xFF unknown, 0 to 8
/// the XInput kinds from unknown to drum kit, 11 the third guitar, 19 the
/// arcade pad, 20 to 24 the HID joystick, gamepad, driving, flight and first
/// person kinds; any other byte is kept as an unknown variant.
pub proof fn law_joystick_type_numbers(v: u8)
    ensures
        joystick_type_of(0xFF) == JoystickType::Unknown,
        joystick_type_of(0) == JoystickType::XInputUnknwon,
        joystick_type_of(1) == JoystickType::XInputGamepad,
        joystick_type_of(2) == JoystickType::XInputWheel,
        joystick_type_of(3) == JoystickType::XInputArcade,
        joystick_type_of(4) == JoystickType::XInputFlightStick,
        joystick_type_of(5) == JoystickType::XInputDancePad,
        joystick_type_of(6) == JoystickType::XInputGuitar,
        joystick_type_of(7) == JoystickType::XInputGitar2,
        joystick_type_of(8) == JoystickType::XInputDrumKit,
        joystick_type_of(11) == JoystickType::XInputGuitar3,
        joystick_type_of(19) == JoystickType::XInputArcadePad,
        joystick_type_of(20) == JoystickType::HIDJoystick,
        joystick_type_of(21) == JoystickType::HIDGamepad,
        joystick_type_of(22) == JoystickType::HIDDriving,
        joystick_type_of(23) == JoystickType::HIDFlight,
        joystick_type_of(24) == JoystickType::HID1stPerson,
        (9 <= v <= 10 || 12 <= v <= 18 || 25 <= v < 0xFF) ==> joystick_type_of(v)
            == JoystickType::UnknownVarient(v),
{
}

/// The match the field reports.
#[derive(Debug, Clone)]
pub struct MatchInfo {
    pub name: String,
    pub match_type: MatchType,
    pub match_number: u16,
    pub replay: u8,
}

/// A controller the driver station describes.
pub struct ControllerInfo {
    pub js_type: JoystickType,
    pub is_xbox: bool,
    pub name: String,
    pub axis: SuperSmallVec<AxisType, 11>,
    pub buttons: u8,
    pub povs: u8,
}

/// What the driver station reported over TCP.
pub struct TcpState {
    pub game_data: Option<String>,
    pub match_info: Option<MatchInfo>,
    pub controller_info: [Option<ControllerInfo>; 6],
}

/// How reading a TCP data record ends.
pub enum TcpRead {
    /// A controller description for a slot: the slot, the xbox flag, the
    /// kind, the name, the axis kinds, and the button and pov counts.
    Controller(u8, bool, JoystickType, Seq<char>, Seq<AxisType>, u8, u8),
    Match(Seq<char>, MatchType, u16, u8),
    GameData(Seq<char>),
    Ignored,
    Failed(BufferReaderError),
    BadUtf8,
    /// More than 11 axes, which the axis list cannot hold.
    TooManyAxes,
}

/// Reading a string after its one-byte length at `p`.
pub open spec fn short_str_at(d: Seq<u8>, p: nat) -> Option<Result<(Seq<char>, nat), BufferReaderError>> {
    if p + 1 > d.len() {
        Some(Err(overflow_error(d.len(), p, 1)))
    } else {
        let n = d[p as int] as nat;
        if p + 1 + n > d.len() {
            Some(Err(overflow_error(d.len(), p + 1, n)))
        } else if !vstd::utf8::valid_utf8(d.subrange(p as int + 1, (p + 1 + n) as int)) {
            None
        } else {
            Some(
                Ok(
                    (vstd::utf8::decode_utf8(d.subrange(p as int + 1, (p + 1 + n) as int)), p + 1 + n),
                ),
            )
        }
    }
}

/// Reading a TCP data record from `d` at `i`: a tag, then for 2 a controller
/// (slot, xbox flag, kind, name, axis count and kinds, button and pov counts),
/// for 7 the match (name, kind, number, replay), for 14 the game data (the
/// rest, as a string); other tags are ignored.
pub open spec fn tcp_read(d: Seq<u8>, i: nat) -> TcpRead {
    let len = d.len();
    if i + 1 > len {
        TcpRead::Failed(overflow_error(len, i, 1))
    } else {
        let tag = d[i as int];
        let p = i + 1;
        if tag == 2 {
            if p + 3 > len {
                TcpRead::Failed(overflow_error(len, if p < len { len } else { p }, 1))
            } else {
                match short_str_at(d, p + 3) {
                    None => TcpRead::BadUtf8,
                    Some(Err(e)) => TcpRead::Failed(e),
                    Some(Ok((name, q))) => if q + 1 > len {
                        TcpRead::Failed(overflow_error(len, q, 1))
                    } else {
                        let count = d[q as int] as nat;
                        if count > 11 && q + 1 + 12 <= len {
                            TcpRead::TooManyAxes
                        } else if q + 1 + count > len {
                            TcpRead::Failed(overflow_error(len, len, 1))
                        } else if q + 1 + count + 2 > len {
                            TcpRead::Failed(overflow_error(len, len, 1))
                        } else {
                            TcpRead::Controller(
                                d[p as int],
                                d[p as int + 1] == 1,
                                joystick_type_of(d[p as int + 2]),
                                name,
                                Seq::new(count, |k: int| axis_type_of(d[q + 1 + k])),
                                d[(q + 1 + count) as int],
                                d[(q + 2 + count) as int],
                            )
                        }
                    },
                }
            }
        } else if tag == 7 {
            match short_str_at(d, p) {
                None => TcpRead::BadUtf8,
                Some(Err(e)) => TcpRead::Failed(e),
                Some(Ok((name, q))) => if q + 1 > len {
                    TcpRead::Failed(overflow_error(len, q, 1))
                } else if q + 3 > len {
                    TcpRead::Failed(overflow_error(len, q + 1, 2))
                } else if q + 4 > len {
                    TcpRead::Failed(overflow_error(len, q + 3, 1))
                } else {
                    TcpRead::Match(
                        name,
                        match_type_of(d[q as int]),
                        be_value(d.subrange(q as int + 1, q as int + 3)) as u16,
                        d[q as int + 3],
                    )
                },
            }
        } else if tag == 0x0E {
            if vstd::utf8::valid_utf8(d.subrange(p as int, len as int)) {
                TcpRead::GameData(vstd::utf8::decode_utf8(d.subrange(p as int, len as int)))
            } else {
                TcpRead::BadUtf8
            }
        } else {
            TcpRead::Ignored
        }
    }
}

/// A record's first byte says what it is: 2 a controller description, 7 the
/// match, 14 the game data (the rest of the record as text); any other byte
/// is ignored.
pub proof fn law_tcp_record_kinds(d: Seq<u8>, i: nat)
    requires
        i < d.len(),
    ensures
        d[i as int] != 2 && d[i as int] != 7 && d[i as int] != 14 ==> tcp_read(d, i) is Ignored,
        d[i as int] == 14 && vstd::utf8::valid_utf8(d.subrange(i as int + 1, d.len() as int))
            ==> tcp_read(d, i) == TcpRead::GameData(
            vstd::utf8::decode_utf8(d.subrange(i as int + 1, d.len() as int)),
        ),
        d[i as int] == 7 ==> !(tcp_read(d, i) is Controller || tcp_read(d, i) is GameData
            || tcp_read(d, i) is Ignored),
        d[i as int] == 2 ==> !(tcp_read(d, i) is Match || tcp_read(d, i) is GameData || tcp_read(
            d,
            i,
        ) is Ignored),
{
}

/// A match record: tag 7, the name after its one-byte length, then the match
/// type byte, the match number in two bytes, high byte first, and the replay
/// count.
pub proof fn law_tcp_match_record(d: Seq<u8>, i: nat)
    requires
        i + 2 <= d.len(),
        d[i as int] == 7,
        i + 2 + d[i as int + 1] + 4 <= d.len(),
        vstd::utf8::valid_utf8(d.subrange(i as int + 2, i as int + 2 + d[i as int + 1])),
    ensures
        ({
            let q: int = i as int + 2 + d[i as int + 1];
            tcp_read(d, i) == TcpRead::Match(
                vstd::utf8::decode_utf8(d.subrange(i as int + 2, q)),
                match_type_of(d[q]),
                (d[q + 1] as int * 256 + d[q + 2] as int) as u16,
                d[q + 3],
            )
        }),
{
    let q: int = i as int + 2 + d[i as int + 1];
    let s = d.subrange(q + 1, q + 3);
    assert(s.drop_last() =~= seq![d[q + 1]]);
    assert(seq![d[q + 1]].drop_last() =~= Seq::<u8>::empty());
    assert(be_value(s) == d[q + 1] as int * 256 + d[q + 2] as int) by {
        reveal_with_fuel(be_value, 3);
    }
}

/// A controller record: tag 2, the slot, 1 for an xbox controller, the
/// controller kind, the name after its one-byte length, the axis count and
/// one kind byte per axis, then the button and pov counts.
pub proof fn law_tcp_controller_record(d: Seq<u8>, i: nat)
    requires
        i + 5 <= d.len(),
        d[i as int] == 2,
        i + 5 + d[i as int + 4] + 1 <= d.len(),
        vstd::utf8::valid_utf8(d.subrange(i as int + 5, i as int + 5 + d[i as int + 4])),
        d[i as int + 5 + d[i as int + 4]] <= 11,
        i + 5 + d[i as int + 4] + 1 + d[i as int + 5 + d[i as int + 4]] + 2 <= d.len(),
    ensures
        ({
            let q: int = i as int + 5 + d[i as int + 4];
            let count = d[q] as nat;
            tcp_read(d, i) == TcpRead::Controller(
                d[i as int + 1],
                d[i as int + 2] == 1,
                joystick_type_of(d[i as int + 3]),
                vstd::utf8::decode_utf8(d.subrange(i as int + 5, q)),
                Seq::new(count, |k: int| axis_type_of(d[q + 1 + k])),
                d[q + 1 + count],
                d[q + 2 + count],
            )
        }),
{
}

/// Whether a record read would panic: too many axes, or a controller slot
/// past the six.
pub open spec fn tcp_read_refused(d: Seq<u8>, i: nat) -> bool {
    match tcp_read(d, i) {
        TcpRead::TooManyAxes => true,
        TcpRead::Controller(slot, ..) => slot >= 6,
        _ => false,
    }
}

/// Why a record is not taken.
#[derive(Debug, Clone, Copy, PartialEq, Eq, Structural)]
pub enum TcpRefusal {
    TooManyAxes,
    SlotOutOfBounds,
}

/// The refusal a record's read comes to, if any.
pub open spec fn tcp_refusal(d: Seq<u8>, i: nat) -> Option<TcpRefusal> {
    match tcp_read(d, i) {
        TcpRead::TooManyAxes => Some(TcpRefusal::TooManyAxes),
        TcpRead::Controller(slot, ..) => if slot >= 6 {
            Some(TcpRefusal::SlotOutOfBounds)
        } else {
            None
        },
        _ => None,
    }
}

/// Whether [`TcpState::read_data`] would refuse the record at the cursor, and why.
pub fn refused_record(buf: BufferReader) -> (r: Option<TcpRefusal>)
    requires
        buf.headroom(),
    ensures
        r == tcp_refusal(buf.spec_buf(), buf.spec_index()),
        r is Some <==> tcp_read_refused(buf.spec_buf(), buf.spec_index()),
{
    let mut buf = buf;
    proof {
        buf.lemma_len_bound();
    }
    let ghost d = buf.spec_buf();
    let ghost i = buf.spec_index();
    let tag = match buf.read_u8() {
        Ok(t) => t,
        Err(_) => return None,
    };
    if tag != 0x02 {
        return None;
    }
    let index = match buf.read_u8() {
        Ok(v) => v,
        Err(_) => return None,
    };
    if buf.read_u8().is_err() || buf.read_u8().is_err() {
        return None;
    }
    if buf.read_short_str().is_err() {
        return None;
    }
    let ghost q = buf.spec_index();
    let count = match buf.read_u8() {
        Ok(v) => v,
        Err(_) => return None,
    };
    let rem = buf.remaining_packet_data();
    if count > 11 && rem >= 12 {
        return Some(TcpRefusal::TooManyAxes);
    }
    if (count as usize) + 2 > rem {
        return None;
    }
    if index >= 6 {
        Some(TcpRefusal::SlotOutOfBounds)
    } else {
        None
    }
}

/// A controller description as plain values.
pub open spec fn controller_view(c: ControllerInfo) -> (bool, JoystickType, Seq<char>, Seq<AxisType>, u8, u8) {
    (c.is_xbox, c.js_type, c.name@, c.axis@, c.buttons, c.povs)
}

impl TcpState {
    pub fn new() -> (r: Self)
        ensures
            r.game_data is None,
            r.match_info is None,
            forall|k: int| 0 <= k < 6 ==> r.controller_info@[k] is None,
    {
        TcpState {
            game_data: None,
            match_info: None,
            controller_info: [None, None, None, None, None, None],
        }
    }

    pub fn get_game_data(&self) -> (r: Option<String>)
        ensures
            match self.game_data {
                Some(g) => r matches Some(s) && s@ == g@,
                None => r is None,
            },
    {
        match &self.game_data {
            Some(g) => Some(g.clone()),
            None => None,
        }
    }

    pub fn get_match_type(&self) -> (r: Option<MatchType>)
        ensures
            r == (match self.match_info {
                Some(m) => Some(m.match_type),
                None => None,
            }),
    {
        match &self.match_info {
            Some(m) => Some(m.match_type),
            None => None,
        }
    }

    pub fn get_match_number(&self) -> (r: Option<u16>)
        ensures
            r == (match self.match_info {
                Some(m) => Some(m.match_number),
                None => None,
            }),
    {
        match &self.match_info {
            Some(m) => Some(m.match_number),
            None => None,
        }
    }

    pub fn get_match_replay(&self) -> (r: Option<u8>)
        ensures
            r == (match self.match_info {
                Some(m) => Some(m.replay),
                None => None,
            }),
    {
        match &self.match_info {
            Some(m) => Some(m.replay),
            None => None,
        }
    }

    pub fn get_match_name(&self) -> (r: Option<String>)
        ensures
            match self.match_info {
                Some(m) => r matches Some(s) && s@ == m.name@,
                None => r is None,
            },
    {
        match &self.match_info {
            Some(m) => Some(m.name.clone()),
            None => None,
        }
    }

    /// The description of controller `controller`, when one of the six has one.
    fn controller(&self, controller: u8) -> (r: Option<&ControllerInfo>)
        ensures
            r == (if controller < 6 {
                match self.controller_info@[controller as int] {
                    Some(c) => Some(&c),
                    None => None,
                }
            } else {
                None
            }),
    {
        if controller < 6 {
            match &self.controller_info[controller as usize] {
                Some(c) => Some(c),
                None => None,
            }
        } else {
            None
        }
    }

    /// The spec form of [`Self::controller`].
    pub open spec fn spec_controller(&self, controller: u8) -> Option<ControllerInfo> {
        if controller < 6 {
            self.controller_info@[controller as int]
        } else {
            None
        }
    }

    pub fn controller_is_xbox(&self, controller: u8) -> (r: Option<bool>)
        ensures
            r == (match self.spec_controller(controller) {
                Some(c) => Some(c.is_xbox),
                None => None,
            }),
    {
        match self.controller(controller) {
            Some(c) => Some(c.is_xbox),
            None => None,
        }
    }

    pub fn controller_povs(&self, controller: u8) -> (r: Option<u8>)
        ensures
            r == (match self.spec_controller(controller) {
                Some(c) => Some(c.povs),
                None => None,
            }),
    {
        match self.controller(controller) {
            Some(c) => Some(c.povs),
            None => None,
        }
    }

    pub fn controller_buttons(&self, controller: u8) -> (r: Option<u8>)
        ensures
            r == (match self.spec_controller(controller) {
                Some(c) => Some(c.buttons),
                None => None,
            }),
    {
        match self.controller(controller) {
            Some(c) => Some(c.buttons),
            None => None,
        }
    }

    /// The number of axes of a controller.
    pub fn controller_axis(&self, controller: u8) -> (r: Option<u8>)
        ensures
            r == (match self.spec_controller(controller) {
                Some(c) => Some(c.axis@.len() as u8),
                None => None,
            }),
    {
        match self.controller(controller) {
            Some(c) => Some(c.axis.len() as u8),
            None => None,
        }
    }

    pub fn controller_type(&self, controller: u8) -> (r: Option<JoystickType>)
        ensures
            r == (match self.spec_controller(controller) {
                Some(c) => Some(c.js_type),
                None => None,
            }),
    {
        match self.controller(controller) {
            Some(c) => Some(c.js_type),
            None => None,
        }
    }

    pub fn controller_name(&self, controller: u8) -> (r: Option<String>)
        ensures
            match self.spec_controller(controller) {
                Some(c) => r matches Some(s) && s@ == c.name@,
                None => r is None,
            },
    {
        match self.controller(controller) {
            Some(c) => Some(c.name.clone()),
            None => None,
        }
    }

    /// Reads a data record ([`tcp_read`]) and keeps what it reports; an
    /// ignored tag changes nothing. A record with more than 11 axes, or for a
    /// controller slot past the six, is not accepted.
    #[verifier::rlimit(40)]
    #[verifier::loop_isolation(false)]
    pub fn read_data(&mut self, buf: BufferReader) -> (r: Result<(), BufferReaderError>)
        requires
            buf.headroom(),
            !tcp_read_refused(buf.spec_buf(), buf.spec_index()),
        ensures
            match tcp_read(buf.spec_buf(), buf.spec_index()) {
                TcpRead::Controller(slot, x, t, name, axis, b, p) => r is Ok
                    && (final(self).controller_info@[slot as int] matches Some(c)
                    && controller_view(c) == (x, t, name, axis, b, p))
                    && (forall|k: int|
                    0 <= k < 6 && k != slot ==> #[trigger] final(self).controller_info@[k]
                        == old(self).controller_info@[k]) && final(self).match_info == old(
                    self,
                ).match_info && final(self).game_data == old(self).game_data,
                TcpRead::Match(name, t, n, rep) => r is Ok && (final(self).match_info matches Some(m)
                    && m.name@ == name && m.match_type == t && m.match_number == n
                    && m.replay == rep) && final(self).controller_info@ == old(
                    self,
                ).controller_info@ && final(self).game_data == old(self).game_data,
                TcpRead::GameData(g) => r is Ok && (final(self).game_data matches Some(s)
                    && s@ == g) && final(self).controller_info@ == old(self).controller_info@
                    && final(self).match_info == old(self).match_info,
                TcpRead::Ignored => r is Ok && *final(self) == *old(self),
                TcpRead::Failed(e) => r == Err::<(), BufferReaderError>(e) && *final(self) == *old(
                    self,
                ),
                TcpRead::BadUtf8 => r matches Err(BufferReaderError::ParseUft8Error(_))
                    && *final(self) == *old(self),
                TcpRead::TooManyAxes => false,
            },
    {
        let mut buf = buf;
        proof {
            buf.lemma_len_bound();
        }
        let ghost d = buf.spec_buf();
        let tag = buf.read_u8()?;
        if tag == 0x02 {
            let index = buf.read_u8()?;
            let is_xbox = buf.read_u8()? == 1;
            let js_type = JoystickType::from_primitive(buf.read_u8()?);
            let ghost q0 = buf.spec_index();
            let name = buf.read_short_str()?.to_owned();
            let ghost q = buf.spec_index();
            let count = buf.read_u8()?;
            let mut axis: SuperSmallVec<AxisType, 11> = SuperSmallVec::new();
            let mut k: u8 = 0;
            while k < count
                invariant
                    k <= count,
                    buf.spec_buf() == d,
                    buf.spec_index() == q + 1 + k,
                    q + 1 + k <= d.len(),
                    d.len() + 0x2_0000 <= usize::MAX,
                    count == d[q as int],
                    axis@.len() == k,
                    k <= 11,
                    !(count > 11 && q + 1 + 12 <= d.len()),
                    forall|j: int| 0 <= j < k ==> axis@[j] == axis_type_of(d[q + 1 + j]),
                decreases count - k,
            {
                let a = buf.read_u8()?;
                axis.push(AxisType::from_primitive(a));
                k = k + 1;
            }
            let buttons = buf.read_u8()?;
            let povs = buf.read_u8()?;
            proof {
                assert(axis@ =~= Seq::new(count as nat, |j: int| axis_type_of(d[q + 1 + j])));
            }
            self.controller_info[index as usize] = Some(
                ControllerInfo { js_type, is_xbox, name, axis, buttons, povs },
            );
        } else if tag == 0x07 {
            let name = buf.read_short_str()?.to_owned();
            let match_type = MatchType::from_primitive(buf.read_u8()?);
            let match_number = buf.read_u16()?;
            let replay = buf.read_u8()?;
            self.match_info = Some(MatchInfo { name, match_type, match_number, replay });
        } else if tag == 0x0E {
            let rem = buf.remaining_packet_data();
            proof {
                assert(buf.next_bytes(rem as nat) =~= d.subrange(buf.spec_index() as int, d.len() as int));
            }
            self.game_data = Some(buf.read_str(rem)?.to_owned());
        }
        Ok(())
    }
}

/// What a write of the framed record `data` (its length in two bytes, then
/// the bytes) does to the send buffer: it fails, changing nothing, for a
/// record longer than `u16::MAX`; otherwise the oldest bytes make room as
/// needed and, while the buffer's write position follows its contents, the
/// frame is appended.
pub open spec fn queued(
    before: RingBuffer,
    after: RingBuffer,
    data: Seq<u8>,
    r: Result<(), ExceededMaximumCapacity>,
) -> bool {
    &&& after.wf()
    &&& (r is Err <==> data.len() > 0xFFFF)
    &&& r is Err ==> after == before
    &&& r is Ok ==> {
        let n = data.len() + 2;
        let drop = spec_drop(before.spec_len(), n, before.spec_max());
        &&& after.spec_max() == before.spec_max()
        &&& after.spec_len() == before.spec_len() - drop + n
        &&& before.synced() && !before.resize_breaks_sync(n) ==> {
            &&& after.contents() == before.contents().skip(drop as int) + be_bytes(
                data.len(),
                2,
            ) + data
            &&& after.synced()
        }
    }
}

/// The records a roboRIO queues for the driver station over TCP, in a send
/// buffer of at most 0x20000 bytes, and the number of its next message.
pub struct TcpSender {
    pub send_buffer: RingBuffer,
    pub message_number: u16,
}

impl TcpSender {
    pub open spec fn wf(&self) -> bool {
        &&& self.send_buffer.wf()
        &&& self.send_buffer.spec_max() == 0x20000
    }

    pub fn new() -> (r: Self)
        ensures
            r.wf(),
            r.send_buffer.contents() == Seq::<u8>::empty(),
            r.send_buffer.synced(),
            r.message_number == 0,
    {
        proof {
            reveal_with_fuel(is_pow2, 18);
        }
        TcpSender { send_buffer: RingBuffer::with_maximum_capacity(0x20000), message_number: 0 }
    }

    /// Queues one framed record.
    fn queue(&mut self, data: &[u8]) -> (r: Result<(), ExceededMaximumCapacity>)
        requires
            old(self).wf(),
            data@.len() > 0,
        ensures
            final(self).wf(),
            final(self).message_number == old(self).message_number,
            queued(old(self).send_buffer, final(self).send_buffer, data@, r),
    {
        if data.len() > 0xFFFF {
            return Err(ExceededMaximumCapacity);
        }
        proof {
            self.send_buffer.lemma_capacity_bound();
            assert(half() >= 0x8000_0000);
        }
        self.send_buffer.write_tracked(data)
    }

    /// Queues a zero-code message: tag 1, then the text.
    pub fn send_zero_code(&mut self, msg: &str) -> (r: Result<(), ExceededMaximumCapacity>)
        requires
            old(self).wf(),
        ensures
            final(self).wf(),
            final(self).message_number == old(self).message_number,
            queued(old(self).send_buffer, final(self).send_buffer, seq![1u8] + msg.spec_bytes(), r),
    {
        let mut data: Vec<u8> = Vec::new();
        data.push(1);
        let bytes = msg.as_bytes();
        let mut i: usize = 0;
        while i < bytes.len()
            invariant
                i <= bytes@.len(),
                data@ == seq![1u8] + bytes@.take(i as int),
            decreases bytes@.len() - i,
        {
            data.push(bytes[i]);
            i = i + 1;
            proof {
                assert(bytes@.take(i as int) =~= bytes@.take(i - 1) + seq![bytes@[i - 1]]);
            }
        }
        proof {
            assert(bytes@.take(bytes@.len() as int) =~= bytes@);
        }
        self.queue(data.as_slice())
    }

    /// Queues the disable fault counts: tag 4, the comms and 12V counts.
    pub fn send_disable_faults(&mut self, coms: u16, v12: u16) -> (r: Result<
        (),
        ExceededMaximumCapacity,
    >)
        requires
            old(self).wf(),
        ensures
            final(self).wf(),
            final(self).message_number == old(self).message_number,
            queued(
                old(self).send_buffer,
                final(self).send_buffer,
                message_wire(MessageKindV::DisableFaults(coms, v12)),
                r,
            ),
    {
        let c = be2(coms);
        let v = be2(v12);
        let data = [0x04u8, c[0], c[1], v[0], v[1]];
        proof {
            assert(data@ =~= message_wire(MessageKindV::DisableFaults(coms, v12)));
        }
        self.queue(data.as_slice())
    }

    /// Queues the rail fault counts: tag 5, the 6V, 5V and 3.3V short counts.
    pub fn send_rail_faults(&mut self, short_6v: u16, short_5v: u16, short_3_3v: u16) -> (r: Result<
        (),
        ExceededMaximumCapacity,
    >)
        requires
            old(self).wf(),
        ensures
            final(self).wf(),
            final(self).message_number == old(self).message_number,
            queued(
                old(self).send_buffer,
                final(self).send_buffer,
                message_wire(MessageKindV::RailFaults(short_6v, short_5v, short_3_3v)),
                r,
            ),
    {
        let a = be2(short_6v);
        let b = be2(short_5v);
        let c = be2(short_3_3v);
        let data = [0x05u8, a[0], a[1], b[0], b[1], c[0], c[1]];
        proof {
            assert(data@ =~= message_wire(MessageKindV::RailFaults(short_6v, short_5v, short_3_3v)));
        }
        self.queue(data.as_slice())
    }

    /// Takes the next message number, which wraps around.
    fn next_message_number(&mut self) -> (r: u16)
        ensures
            r == old(self).message_number,
            final(self).message_number == (old(self).message_number + 1) % 0x1_0000,
            final(self).send_buffer == old(self).send_buffer,
    {
        let n = self.message_number;
        self.message_number = n.wrapping_add(1);
        n
    }

    /// Takes a message number for a warning; no record is queued.
    pub fn send_warning(&mut self)
        ensures
            final(self).message_number == (old(self).message_number + 1) % 0x1_0000,
            final(self).send_buffer == old(self).send_buffer,
    {
        let _ = self.next_message_number();
    }

    /// Takes a message number for an error; no record is queued.
    pub fn send_error(&mut self)
        ensures
            final(self).message_number == (old(self).message_number + 1) % 0x1_0000,
            final(self).send_buffer == old(self).send_buffer,
    {
        let _ = self.next_message_number();
    }

    /// Queues a message: tag 12, its number as the milliseconds (four bytes),
    /// its number (two bytes), then the text; the number moves on.
    pub fn send_message(&mut self, msg: &str) -> (r: Result<(), ExceededMaximumCapacity>)
        requires
            old(self).wf(),
        ensures
            final(self).wf(),
            final(self).message_number == (old(self).message_number + 1) % 0x1_0000,
            queued(
                old(self).send_buffer,
                final(self).send_buffer,
                message_wire(
                    MessageKindV::Message(
                        old(self).message_number as u32,
                        old(self).message_number,
                        msg@,
                    ),
                ),
                r,
            ),
    {
        let num = self.next_message_number();
        let ms = num as u32;
        let m = be4(ms);
        let n = be2(num);
        let mut data: Vec<u8> = Vec::new();
        data.push(0x0C);
        data.push(m[0]);
        data.push(m[1]);
        data.push(m[2]);
        data.push(m[3]);
        data.push(n[0]);
        data.push(n[1]);
        let ghost head = data@;
        proof {
            assert(head =~= seq![0x0Cu8] + be_bytes(num as nat, 4) + be_bytes(num as nat, 2));
        }
        let bytes = msg.as_bytes();
        let mut i: usize = 0;
        while i < bytes.len()
            invariant
                i <= bytes@.len(),
                data@ == head + bytes@.take(i as int),
            decreases bytes@.len() - i,
        {
            data.push(bytes[i]);
            i = i + 1;
            proof {
                assert(bytes@.take(i as int) =~= bytes@.take(i - 1) + seq![bytes@[i - 1]]);
            }
        }
        proof {
            assert(bytes@.take(bytes@.len() as int) =~= bytes@);
            assert(data@ =~= message_wire(MessageKindV::Message(num as u32, num, msg@)));
        }
        self.queue(data.as_slice())
    }

    /// Queues the 5V disable count and the three underline bytes: tag 13.
    pub fn send_underline_5v_disabled(&mut self, disable_5v: u16, underline: [u8; 3]) -> (r: Result<
        (),
        ExceededMaximumCapacity,
    >)
        requires
            old(self).wf(),
        ensures
            final(self).wf(),
            final(self).message_number == old(self).message_number,
            queued(
                old(self).send_buffer,
                final(self).send_buffer,
                message_wire(
                    MessageKindV::UnderlineAnd5VDisable(
                        disable_5v,
                        underline[0],
                        underline[1],
                        underline[2],
                    ),
                ),
                r,
            ),
    {
        let d = be2(disable_5v);
        let data = [0x0Du8, d[0], d[1], underline[0], underline[1], underline[2]];
        proof {
            assert(data@ =~= message_wire(
                MessageKindV::UnderlineAnd5VDisable(disable_5v, underline[0], underline[1], underline[2]),
            ));
        }
        self.queue(data.as_slice())
    }

    /// Takes every queued byte, oldest first, leaving the buffer empty.
    pub fn drain(&mut self) -> (r: Vec<u8>)
        requires
            old(self).wf(),
        ensures
            final(self).wf(),
            r@ == old(self).send_buffer.contents(),
            final(self).send_buffer.contents() == Seq::<u8>::empty(),
            final(self).send_buffer.synced(),
            final(self).message_number == old(self).message_number,
    {
        let v = self.send_buffer.contents_vec();
        self.send_buffer.clear();
        v
    }
}

} // verus!
