use vstd::prelude::*;

pub mod error;
pub mod roundtrip;

use self::error::{errors_code, errors_from_code, warnings_code, warnings_from_code, Errors, Warnings};
use crate::buffer_reader::{
    be_value, overflow_error, reads_fail, widths_sum, BufferReader, BufferReaderError,
};
use crate::buffer_writter::{
    be2, be4, be_bytes, cut, cuts_ok, lemma_be_bytes_len, lemma_be_value_of_bytes, pow256,
    push_all, write_in_pieces, wrote_pieces, BufferWritter, BufferWritterError, WriteToBuff,
};
use crate::team_number::TeamNumber;

verus! {

/// A version a robot reports: of its libraries or image, or of a device on its
/// CAN bus.
#[derive(Clone, Debug, PartialEq, Eq)]
pub enum VersionInfo {
    LibCVersion(String),
    ImageVersion(String),
    CANTalon(u16, u8),
    PDP(u16, u8),
    PCM(u16, u8),
    Empty(String),
}

/// A [`VersionInfo`] with its strings as characters.
pub enum VersionInfoV {
    LibCVersion(Seq<char>),
    ImageVersion(Seq<char>),
    CANTalon(u16, u8),
    PDP(u16, u8),
    PCM(u16, u8),
    Empty(Seq<char>),
}

impl View for VersionInfo {
    type V = VersionInfoV;

    open spec fn view(&self) -> VersionInfoV {
        match self {
            VersionInfo::LibCVersion(s) => VersionInfoV::LibCVersion(s@),
            VersionInfo::ImageVersion(s) => VersionInfoV::ImageVersion(s@),
            VersionInfo::CANTalon(a, b) => VersionInfoV::CANTalon(*a, *b),
            VersionInfo::PDP(a, b) => VersionInfoV::PDP(*a, *b),
            VersionInfo::PCM(a, b) => VersionInfoV::PCM(*a, *b),
            VersionInfo::Empty(s) => VersionInfoV::Empty(s@),
        }
    }
}

/// The tag a library or image version goes by.
pub open spec fn version_tag(v: VersionInfoV) -> Seq<char> {
    match v {
        VersionInfoV::LibCVersion(_) => "FRC_Lib_Version"@,
        VersionInfoV::ImageVersion(_) => "roboRIO Image"@,
        _ => ""@,
    }
}

/// The device a version comes from.
pub open spec fn version_device_id(v: VersionInfoV) -> u8 {
    match v {
        VersionInfoV::CANTalon(..) => 2,
        VersionInfoV::PDP(..) => 8,
        VersionInfoV::PCM(..) => 9,
        _ => 0,
    }
}

impl VersionInfo {
    pub fn get_tag(&self) -> (r: &'static str)
        ensures
            r@ == version_tag(self@),
    {
        match self {
            VersionInfo::LibCVersion(_) => "FRC_Lib_Version",
            VersionInfo::ImageVersion(_) => "roboRIO Image",
            VersionInfo::Empty(_) | VersionInfo::CANTalon(..) | VersionInfo::PDP(..)
            | VersionInfo::PCM(..) => "",
        }
    }

    pub fn device_id(&self) -> (r: u8)
        ensures
            r == version_device_id(self@),
    {
        match self {
            VersionInfo::LibCVersion(_) | VersionInfo::ImageVersion(_) => 0,
            VersionInfo::CANTalon(..) => 2,
            VersionInfo::PDP(..) => 8,
            VersionInfo::PCM(..) => 9,
            VersionInfo::Empty(_) => 0,
        }
    }
}

/// What a console message from the robot says.
#[derive(Debug)]
pub enum MessageKind {
    ZeroCode { msg: String },
    VersionInfo { kind: VersionInfo },
    Message { ms: u32, msg_num: u16, msg: String },
    Error { ms: u32, msg_num: u16, err: Errors, msg: String, loc: String, stack: String },
    Warning { ms: u32, msg_num: u16, warn: Warnings, msg: String, loc: String, stack: String },
    UnderlineAnd5VDisable {
        disable_5v: u16,
        /// When 2, the top row of the power and CAN metrics is underlined red.
        top_signal: u8,
        /// When 2, the second row of the power and CAN metrics is underlined red.
        second_top_signal: u8,
        /// When 2, the third row of the power and CAN metrics is underlined red.
        third_top_signal: u8,
    },
    DisableFaults { comms: u16, fault_12v: u16 },
    RailFaults { short_6v: u16, short_5v: u16, short_3_3v: u16 },
    UsageReport { team: TeamNumber, unknwon: u8, usage: () },
}

/// A [`MessageKind`] with its strings as characters.
pub enum MessageKindV {
    ZeroCode(Seq<char>),
    VersionInfo(VersionInfoV),
    Message(u32, u16, Seq<char>),
    Error(u32, u16, Errors, Seq<char>, Seq<char>, Seq<char>),
    Warning(u32, u16, Warnings, Seq<char>, Seq<char>, Seq<char>),
    UnderlineAnd5VDisable(u16, u8, u8, u8),
    DisableFaults(u16, u16),
    RailFaults(u16, u16, u16),
    UsageReport(TeamNumber, u8),
}

impl View for MessageKind {
    type V = MessageKindV;

    open spec fn view(&self) -> MessageKindV {
        match self {
            MessageKind::ZeroCode { msg } => MessageKindV::ZeroCode(msg@),
            MessageKind::VersionInfo { kind } => MessageKindV::VersionInfo(kind@),
            MessageKind::Message { ms, msg_num, msg } => MessageKindV::Message(*ms, *msg_num, msg@),
            MessageKind::Error { ms, msg_num, err, msg, loc, stack } => MessageKindV::Error(
                *ms,
                *msg_num,
                *err,
                msg@,
                loc@,
                stack@,
            ),
            MessageKind::Warning { ms, msg_num, warn, msg, loc, stack } => MessageKindV::Warning(
                *ms,
                *msg_num,
                *warn,
                msg@,
                loc@,
                stack@,
            ),
            MessageKind::UnderlineAnd5VDisable {
                disable_5v,
                top_signal,
                second_top_signal,
                third_top_signal,
            } => MessageKindV::UnderlineAnd5VDisable(
                *disable_5v,
                *top_signal,
                *second_top_signal,
                *third_top_signal,
            ),
            MessageKind::DisableFaults { comms, fault_12v } => MessageKindV::DisableFaults(
                *comms,
                *fault_12v,
            ),
            MessageKind::RailFaults { short_6v, short_5v, short_3_3v } => MessageKindV::RailFaults(
                *short_6v,
                *short_5v,
                *short_3_3v,
            ),
            MessageKind::UsageReport { team, unknwon, usage } => MessageKindV::UsageReport(
                *team,
                *unknwon,
            ),
        }
    }
}

impl Clone for MessageKind {
    fn clone(&self) -> (r: Self)
        ensures
            r@ == self@,
    {
        match self {
            MessageKind::ZeroCode { msg } => MessageKind::ZeroCode { msg: msg.clone() },
            MessageKind::VersionInfo { kind } => MessageKind::VersionInfo {
                kind: match kind {
                    VersionInfo::LibCVersion(s) => VersionInfo::LibCVersion(s.clone()),
                    VersionInfo::ImageVersion(s) => VersionInfo::ImageVersion(s.clone()),
                    VersionInfo::CANTalon(a, b) => VersionInfo::CANTalon(*a, *b),
                    VersionInfo::PDP(a, b) => VersionInfo::PDP(*a, *b),
                    VersionInfo::PCM(a, b) => VersionInfo::PCM(*a, *b),
                    VersionInfo::Empty(s) => VersionInfo::Empty(s.clone()),
                },
            },
            MessageKind::Message { ms, msg_num, msg } => MessageKind::Message {
                ms: *ms,
                msg_num: *msg_num,
                msg: msg.clone(),
            },
            MessageKind::Error { ms, msg_num, err, msg, loc, stack } => MessageKind::Error {
                ms: *ms,
                msg_num: *msg_num,
                err: *err,
                msg: msg.clone(),
                loc: loc.clone(),
                stack: stack.clone(),
            },
            MessageKind::Warning { ms, msg_num, warn, msg, loc, stack } => MessageKind::Warning {
                ms: *ms,
                msg_num: *msg_num,
                warn: *warn,
                msg: msg.clone(),
                loc: loc.clone(),
                stack: stack.clone(),
            },
            MessageKind::UnderlineAnd5VDisable {
                disable_5v,
                top_signal,
                second_top_signal,
                third_top_signal,
            } => MessageKind::UnderlineAnd5VDisable {
                disable_5v: *disable_5v,
                top_signal: *top_signal,
                second_top_signal: *second_top_signal,
                third_top_signal: *third_top_signal,
            },
            MessageKind::DisableFaults { comms, fault_12v } => MessageKind::DisableFaults {
                comms: *comms,
                fault_12v: *fault_12v,
            },
            MessageKind::RailFaults { short_6v, short_5v, short_3_3v } => MessageKind::RailFaults {
                short_6v: *short_6v,
                short_5v: *short_5v,
                short_3_3v: *short_3_3v,
            },
            MessageKind::UsageReport { team, unknwon, .. } => MessageKind::UsageReport {
                team: *team,
                unknwon: *unknwon,
                usage: (),
            },
        }
    }
}

impl Clone for Message {
    fn clone(&self) -> (r: Self)
        ensures
            r@ == self@,
    {
        Message { kind: self.kind.clone() }
    }
}

/// The code a message kind goes by on the wire.
pub open spec fn kind_code(k: MessageKindV) -> u8 {
    match k {
        MessageKindV::ZeroCode(..) => 0x00,
        MessageKindV::UsageReport(..) => 0x01,
        MessageKindV::DisableFaults(..) => 0x04,
        MessageKindV::RailFaults(..) => 0x05,
        MessageKindV::VersionInfo(..) => 0x0A,
        MessageKindV::Error(..) | MessageKindV::Warning(..) => 0x0B,
        MessageKindV::Message(..) => 0x0C,
        MessageKindV::UnderlineAnd5VDisable(..) => 0x0D,
    }
}

/// The message kinds as the protocol numbers them: 0x00 the zero-code text,
/// 0x01 a usage report, 0x04 disable faults, 0x05 rail faults, 0x0A a
/// version, 0x0B an error or a warning, 0x0C a plain message, 0x0D the 5V
/// rail and signal report; and the version devices: 2 a CAN Talon, 8 the
/// PDP, 9 the PCM, 0 any other.
pub proof fn law_message_kind_codes(k: MessageKindV, v: VersionInfoV)
    ensures
        k is ZeroCode ==> kind_code(k) == 0x00,
        k is UsageReport ==> kind_code(k) == 0x01,
        k is DisableFaults ==> kind_code(k) == 0x04,
        k is RailFaults ==> kind_code(k) == 0x05,
        k is VersionInfo ==> kind_code(k) == 0x0A,
        k is Error ==> kind_code(k) == 0x0B,
        k is Warning ==> kind_code(k) == 0x0B,
        k is Message ==> kind_code(k) == 0x0C,
        k is UnderlineAnd5VDisable ==> kind_code(k) == 0x0D,
        v is CANTalon ==> version_device_id(v) == 2,
        v is PDP ==> version_device_id(v) == 8,
        v is PCM ==> version_device_id(v) == 9,
        (v is LibCVersion || v is ImageVersion || v is Empty) ==> version_device_id(v) == 0,
{
}

/// A message read from bytes is of the kind its first byte names.
pub proof fn law_message_read_code(d: Seq<u8>, i: nat)
    ensures
        message_read(d, i) matches MsgOutcome::Done(k, _) ==> i < d.len() && kind_code(k) == d[i as int],
{
}

/// A version read from bytes is of the device its first byte names.
pub proof fn law_version_read_device(d: Seq<u8>, p: nat)
    ensures
        version_read(d, p) matches MsgOutcome::Done(v, _) ==> p < d.len() && version_device_id(v)
            == d[p as int],
{
}

/// The `n` bytes written for `v` after `a` read back as `v`, for a `v` that fits.
proof fn lemma_field_at(a: Seq<u8>, v: nat, n: nat, rest: Seq<u8>)
    requires
        v < pow256(n),
    ensures
        be_value((a + be_bytes(v, n) + rest).subrange(a.len() as int, (a.len() + n) as int)) == v,
{
    lemma_be_bytes_len(v, n);
    lemma_be_value_of_bytes(v, n);
    vstd::arithmetic::div_mod::lemma_small_mod(v, pow256(n));
    assert((a + be_bytes(v, n) + rest).subrange(a.len() as int, (a.len() + n) as int) =~= be_bytes(v, n));
}

/// The plain message and the fault reports on the wire: after the code, each
/// number big-endian in its place. A message: the milliseconds in bytes 1 to
/// 4, its number in bytes 5 and 6, then the text. Disable faults: the comms
/// count in bytes 1 and 2, the 12V count in 3 and 4. Rail faults: the 6V,
/// 5V and 3.3V short counts in bytes 1 and 2, 3 and 4, 5 and 6. An error or
/// warning: the milliseconds, its number, the count 1 in bytes 7 and 8, its
/// code in bytes 9 to 12, then 1 for an error and 0 for a warning.
pub proof fn law_message_wire_fields(
    ms: u32,
    n: u16,
    m: Seq<char>,
    a: u16,
    b: u16,
    c: u16,
    e: Errors,
    w: Warnings,
    l: Seq<char>,
    st: Seq<char>,
)
    ensures
        ({
            let x = message_wire(MessageKindV::Message(ms, n, m));
            &&& x[0] == 0x0C
            &&& be_value(x.subrange(1, 5)) == ms
            &&& be_value(x.subrange(5, 7)) == n
            &&& x.skip(7) == str_bytes(m)
        }),
        ({
            let x = message_wire(MessageKindV::DisableFaults(a, b));
            &&& x.len() == 5 && x[0] == 0x04
            &&& be_value(x.subrange(1, 3)) == a
            &&& be_value(x.subrange(3, 5)) == b
        }),
        ({
            let x = message_wire(MessageKindV::RailFaults(a, b, c));
            &&& x.len() == 7 && x[0] == 0x05
            &&& be_value(x.subrange(1, 3)) == a
            &&& be_value(x.subrange(3, 5)) == b
            &&& be_value(x.subrange(5, 7)) == c
        }),
        ({
            let x = message_wire(MessageKindV::Error(ms, n, e, m, l, st));
            &&& x[0] == 0x0B
            &&& be_value(x.subrange(1, 5)) == ms
            &&& be_value(x.subrange(5, 7)) == n
            &&& be_value(x.subrange(7, 9)) == 1
            &&& be_value(x.subrange(9, 13)) == errors_code(e) as u32
            &&& x[13] == 1
        }),
        ({
            let x = message_wire(MessageKindV::Warning(ms, n, w, m, l, st));
            &&& x[0] == 0x0B
            &&& be_value(x.subrange(1, 5)) == ms
            &&& be_value(x.subrange(5, 7)) == n
            &&& be_value(x.subrange(9, 13)) == warnings_code(w) as u32
            &&& x[13] == 0
        }),
{
    assert(pow256(2) == 65536 && pow256(4) == 0x1_0000_0000) by {
        reveal_with_fuel(pow256, 5);
    }
    let one = seq![0x0Cu8];
    lemma_be_bytes_len(ms as nat, 4);
    lemma_be_bytes_len(n as nat, 2);
    // plain message
    let x = message_wire(MessageKindV::Message(ms, n, m));
    assert(x =~= seq![0x0Cu8] + be_bytes(ms as nat, 4) + (be_bytes(n as nat, 2) + str_bytes(m)));
    lemma_field_at(seq![0x0Cu8], ms as nat, 4, be_bytes(n as nat, 2) + str_bytes(m));
    assert(x =~= (seq![0x0Cu8] + be_bytes(ms as nat, 4)) + be_bytes(n as nat, 2) + str_bytes(m));
    lemma_field_at(seq![0x0Cu8] + be_bytes(ms as nat, 4), n as nat, 2, str_bytes(m));
    assert(x.skip(7) =~= str_bytes(m));
    // disable faults
    lemma_be_bytes_len(a as nat, 2);
    lemma_be_bytes_len(b as nat, 2);
    lemma_be_bytes_len(c as nat, 2);
    let y = message_wire(MessageKindV::DisableFaults(a, b));
    assert(y =~= seq![0x04u8] + be_bytes(a as nat, 2) + be_bytes(b as nat, 2));
    lemma_field_at(seq![0x04u8], a as nat, 2, be_bytes(b as nat, 2));
    lemma_field_at(seq![0x04u8] + be_bytes(a as nat, 2), b as nat, 2, Seq::empty());
    assert(y =~= seq![0x04u8] + be_bytes(a as nat, 2) + be_bytes(b as nat, 2) + Seq::<u8>::empty());
    // rail faults
    let z = message_wire(MessageKindV::RailFaults(a, b, c));
    assert(z =~= seq![0x05u8] + be_bytes(a as nat, 2) + (be_bytes(b as nat, 2) + be_bytes(c as nat, 2)));
    lemma_field_at(seq![0x05u8], a as nat, 2, be_bytes(b as nat, 2) + be_bytes(c as nat, 2));
    assert(z =~= (seq![0x05u8] + be_bytes(a as nat, 2)) + be_bytes(b as nat, 2) + be_bytes(c as nat, 2));
    lemma_field_at(seq![0x05u8] + be_bytes(a as nat, 2), b as nat, 2, be_bytes(c as nat, 2));
    assert(z =~= (seq![0x05u8] + be_bytes(a as nat, 2) + be_bytes(b as nat, 2)) + be_bytes(c as nat, 2)
        + Seq::<u8>::empty());
    lemma_field_at(seq![0x05u8] + be_bytes(a as nat, 2) + be_bytes(b as nat, 2), c as nat, 2, Seq::empty());
    // error and warning headers
    let ec = (errors_code(e) as u32) as nat;
    let wc = (warnings_code(w) as u32) as nat;
    lemma_be_bytes_len(1, 2);
    lemma_be_bytes_len(ec, 4);
    lemma_be_bytes_len(wc, 4);
    let tail_e = seq![1u8] + long_str_wire(m) + long_str_wire(l) + long_str_wire(st);
    let tail_w = seq![0u8] + long_str_wire(m) + long_str_wire(l) + long_str_wire(st);
    let xe = message_wire(MessageKindV::Error(ms, n, e, m, l, st));
    let h1 = seq![0x0Bu8];
    let h2 = h1 + be_bytes(ms as nat, 4);
    let h3 = h2 + be_bytes(n as nat, 2);
    let h4 = h3 + be_bytes(1, 2);
    assert(xe =~= h1 + be_bytes(ms as nat, 4) + (be_bytes(n as nat, 2) + be_bytes(1, 2) + be_bytes(ec, 4) + tail_e));
    lemma_field_at(h1, ms as nat, 4, be_bytes(n as nat, 2) + be_bytes(1, 2) + be_bytes(ec, 4) + tail_e);
    assert(xe =~= h2 + be_bytes(n as nat, 2) + (be_bytes(1, 2) + be_bytes(ec, 4) + tail_e));
    lemma_field_at(h2, n as nat, 2, be_bytes(1, 2) + be_bytes(ec, 4) + tail_e);
    assert(xe =~= h3 + be_bytes(1, 2) + (be_bytes(ec, 4) + tail_e));
    lemma_field_at(h3, 1, 2, be_bytes(ec, 4) + tail_e);
    assert(xe =~= h4 + be_bytes(ec, 4) + tail_e);
    lemma_field_at(h4, ec, 4, tail_e);
    assert(xe[13] == tail_e[0]);
    let xw = message_wire(MessageKindV::Warning(ms, n, w, m, l, st));
    let g1 = seq![0x0Bu8];
    let g2 = g1 + be_bytes(ms as nat, 4);
    let g3 = g2 + be_bytes(n as nat, 2);
    let g4 = g3 + be_bytes(1, 2);
    assert(xw =~= g1 + be_bytes(ms as nat, 4) + (be_bytes(n as nat, 2) + be_bytes(1, 2) + be_bytes(wc, 4) + tail_w));
    lemma_field_at(g1, ms as nat, 4, be_bytes(n as nat, 2) + be_bytes(1, 2) + be_bytes(wc, 4) + tail_w);
    assert(xw =~= g2 + be_bytes(n as nat, 2) + (be_bytes(1, 2) + be_bytes(wc, 4) + tail_w));
    lemma_field_at(g2, n as nat, 2, be_bytes(1, 2) + be_bytes(wc, 4) + tail_w);
    assert(xw =~= g4 + be_bytes(wc, 4) + tail_w);
    lemma_field_at(g4, wc, 4, tail_w);
    assert(xw[13] == tail_w[0]);
}

impl MessageKind {
    pub fn get_code(&self) -> (r: u8)
        ensures
            r == kind_code(self@),
    {
        match self {
            MessageKind::ZeroCode { .. } => 0x00,
            MessageKind::UsageReport { .. } => 0x01,
            MessageKind::DisableFaults { .. } => 0x04,
            MessageKind::RailFaults { .. } => 0x05,
            MessageKind::VersionInfo { .. } => 0x0A,
            MessageKind::Error { .. } | MessageKind::Warning { .. } => 0x0B,
            MessageKind::Message { .. } => 0x0C,
            MessageKind::UnderlineAnd5VDisable { .. } => 0x0D,
        }
    }
}

/// Borrowed forms of the message kinds.
pub enum MessageKindBorrowed<'a> {
    ZeroCode { msg: &'a str },
    VersionInfo {  },
    Message { ms: u32, msg_num: u16, msg: &'a str },
    Error { ms: u32, msg_num: u16, err: u32, msg: &'a str, loc: &'a str, stack: &'a str },
    UnderlineAnd5VDisable {
        disable_5v: u16,
        top_signal: u8,
        second_top_signal: u8,
        third_top_signal: u8,
    },
    DisableFaults { comms: u16, fault_12v: u16 },
    RailFaults { short_6v: u16, short_5v: u16, short_3_3v: u16 },
    UsageReport { team: TeamNumber, unknwon: u8, usage: () },
}

/// A console message from the robot.
#[derive(Debug)]
pub struct Message {
    pub kind: MessageKind,
}

impl View for Message {
    type V = MessageKindV;

    open spec fn view(&self) -> MessageKindV {
        self.kind@
    }
}

impl Message {
    /// A plain message, with time and number 0.
    pub fn info(message: &str) -> (r: Self)
        ensures
            r@ == MessageKindV::Message(0, 0, message@),
    {
        Message { kind: MessageKind::Message { ms: 0, msg_num: 0, msg: message.to_owned() } }
    }

    /// A warning, with time and number 0.
    pub fn warn(message: &str, warn: Warnings, location: &str, stack: &str) -> (r: Self)
        ensures
            r@ == MessageKindV::Warning(0, 0, warn, message@, location@, stack@),
    {
        Message {
            kind: MessageKind::Warning {
                ms: 0,
                msg_num: 0,
                warn,
                msg: message.to_owned(),
                loc: location.to_owned(),
                stack: stack.to_owned(),
            },
        }
    }

    /// An error, with time and number 0.
    pub fn error(message: &str, err: Errors, location: &str, stack: &str) -> (r: Self)
        ensures
            r@ == MessageKindV::Error(0, 0, err, message@, location@, stack@),
    {
        Message {
            kind: MessageKind::Error {
                ms: 0,
                msg_num: 0,
                err,
                msg: message.to_owned(),
                loc: location.to_owned(),
                stack: stack.to_owned(),
            },
        }
    }

    /// Sets the time of a plain message, warning or error; other kinds have
    /// none and stay as they are.
    pub fn set_ms(&mut self, time_ms: u32)
        ensures
            final(self)@ == (match old(self)@ {
                MessageKindV::Message(_, n, m) => MessageKindV::Message(time_ms, n, m),
                MessageKindV::Warning(_, n, w, m, l, s) => MessageKindV::Warning(
                    time_ms,
                    n,
                    w,
                    m,
                    l,
                    s,
                ),
                MessageKindV::Error(_, n, e, m, l, s) => MessageKindV::Error(time_ms, n, e, m, l, s),
                k => k,
            }),
    {
        match &mut self.kind {
            MessageKind::Message { ms, .. } => {
                *ms = time_ms;
            },
            MessageKind::Warning { ms, .. } => {
                *ms = time_ms;
            },
            MessageKind::Error { ms, .. } => {
                *ms = time_ms;
            },
            _ => {},
        }
    }

    /// Sets the number of a plain message, warning or error; other kinds have
    /// none and stay as they are.
    pub fn set_msg_num(&mut self, msg_number: u16)
        ensures
            final(self)@ == (match old(self)@ {
                MessageKindV::Message(t, _, m) => MessageKindV::Message(t, msg_number, m),
                MessageKindV::Warning(t, _, w, m, l, s) => MessageKindV::Warning(
                    t,
                    msg_number,
                    w,
                    m,
                    l,
                    s,
                ),
                MessageKindV::Error(t, _, e, m, l, s) => MessageKindV::Error(
                    t,
                    msg_number,
                    e,
                    m,
                    l,
                    s,
                ),
                k => k,
            }),
    {
        match &mut self.kind {
            MessageKind::Message { msg_num, .. } => {
                *msg_num = msg_number;
            },
            MessageKind::Warning { msg_num, .. } => {
                *msg_num = msg_number;
            },
            MessageKind::Error { msg_num, .. } => {
                *msg_num = msg_number;
            },
            _ => {},
        }
    }
}

/// Why a console message could not be read.
#[derive(Debug)]
pub enum MessageReadError {
    BufferReaderError(BufferReaderError),
    InvalidDataValue,
    InvalidReportTag(String),
    ReportStartValueNonZero,
    InvalidMsgCode(u8),
    InvalidVersionDeviceTag(u8),
}

impl From<BufferReaderError> for MessageReadError {
    fn from(value: BufferReaderError) -> (r: Self)
        ensures
            r == MessageReadError::BufferReaderError(value),
    {
        MessageReadError::BufferReaderError(value)
    }
}

impl vstd::std_specs::convert::FromSpecImpl<BufferReaderError> for MessageReadError {
    open spec fn obeys_from_spec() -> bool {
        true
    }

    open spec fn from_spec(v: BufferReaderError) -> Self {
        MessageReadError::BufferReaderError(v)
    }
}

/// The bytes of a string.
pub open spec fn str_bytes(s: Seq<char>) -> Seq<u8> {
    vstd::utf8::encode_utf8(s)
}

/// A string after its length in one byte.
pub open spec fn short_str_wire(s: Seq<char>) -> Seq<u8> {
    seq![str_bytes(s).len() as u8] + str_bytes(s)
}

/// A string after its length in two bytes, cut to 16 bits.
pub open spec fn long_str_wire(s: Seq<char>) -> Seq<u8> {
    be_bytes((str_bytes(s).len() as u16) as nat, 2) + str_bytes(s)
}

/// The bytes of the tag `FRC_Lib_Version`.
pub open spec fn lib_tag_bytes() -> Seq<u8> {
    seq![70u8, 82, 67, 95, 76, 105, 98, 95, 86, 101, 114, 115, 105, 111, 110]
}

/// The bytes of the tag `roboRIO Image`.
pub open spec fn image_tag_bytes() -> Seq<u8> {
    seq![114u8, 111, 98, 111, 82, 73, 79, 32, 73, 109, 97, 103, 101]
}

/// Whether every string a message writes after a one-byte length fits it.
pub open spec fn message_wire_fits(k: MessageKindV) -> bool {
    match k {
        MessageKindV::VersionInfo(VersionInfoV::LibCVersion(m)) => str_bytes(m).len() <= 255,
        MessageKindV::VersionInfo(VersionInfoV::ImageVersion(m)) => str_bytes(m).len() <= 255,
        MessageKindV::VersionInfo(VersionInfoV::Empty(m)) => str_bytes(m).len() <= 255,
        _ => true,
    }
}

/// What goes on the wire of a version report before a string too long for its
/// one-byte length: the code, the device id, and the fields before the string.
pub open spec fn message_head(k: MessageKindV) -> Seq<u8> {
    seq![kind_code(k)] + match k {
        MessageKindV::VersionInfo(v) => seq![version_device_id(v)] + match v {
            VersionInfoV::LibCVersion(m) => be_bytes(0, 2) + seq![0u8, 15u8] + lib_tag_bytes(),
            VersionInfoV::ImageVersion(m) => be_bytes(0, 2) + seq![0u8, 13u8] + image_tag_bytes(),
            VersionInfoV::Empty(m) => seq![0u8, 0u8, 0u8, 0u8],
            _ => Seq::empty(),
        },
        _ => Seq::empty(),
    }
}

/// Where the fields of an error or warning report end, after its code: time,
/// number, count, code, flag, then each string after its two length bytes.
pub open spec fn report_cuts(m: Seq<char>, l: Seq<char>, st: Seq<char>) -> Seq<usize> {
    let a = str_bytes(m).len();
    let b = str_bytes(l).len();
    let c = str_bytes(st).len();
    seq![
        1usize,
        5,
        7,
        9,
        13,
        14,
        16,
        (16 + a) as usize,
        (18 + a) as usize,
        (18 + a + b) as usize,
        (20 + a + b) as usize,
        (20 + a + b + c) as usize,
    ]
}

/// Where the fields of a version report end after its code and device id.
pub open spec fn version_cuts(v: VersionInfoV) -> Seq<usize> {
    match v {
        VersionInfoV::LibCVersion(m) => seq![4usize, 5, 6, 21, 22, (22 + str_bytes(m).len()) as usize],
        VersionInfoV::ImageVersion(m) => seq![4usize, 5, 6, 19, 20, (20 + str_bytes(m).len()) as usize],
        VersionInfoV::Empty(m) => seq![6usize, 7, (7 + str_bytes(m).len()) as usize],
        _ => seq![4usize, 5, 7],
    }
}

/// Where the fields of a message end in [`message_wire`]: the code, then each
/// field on its own, a string's length apart from its bytes.
pub open spec fn message_cuts(k: MessageKindV) -> Seq<usize> {
    match k {
        MessageKindV::ZeroCode(m) => seq![1usize, (1 + str_bytes(m).len()) as usize],
        MessageKindV::Message(_, _, m) => seq![1usize, 5, 7, (7 + str_bytes(m).len()) as usize],
        MessageKindV::Error(_, _, _, m, l, st) => report_cuts(m, l, st),
        MessageKindV::Warning(_, _, _, m, l, st) => report_cuts(m, l, st),
        MessageKindV::VersionInfo(v) => seq![1usize, 2] + version_cuts(v),
        MessageKindV::UnderlineAnd5VDisable(..) => seq![1usize, 3, 4, 5, 6],
        MessageKindV::RailFaults(..) => seq![1usize, 3, 5, 7],
        MessageKindV::DisableFaults(..) => seq![1usize, 3, 5],
        MessageKindV::UsageReport(..) => seq![1usize],
    }
}

/// Where the fields of [`message_head`] end: those of the message but for
/// the string too long and its length.
pub open spec fn message_head_cuts(k: MessageKindV) -> Seq<usize> {
    message_cuts(k).take(message_cuts(k).len() - 2)
}

/// Writes the fields before a string too long for its length byte, then
/// refuses the string: `SizeValueOverflow` once the fields are in, or the
/// writer's error when they do not fit.
fn write_head_then_overflow<T: BufferWritter>(buf: &mut T, head: &Vec<u8>, cuts: &Vec<usize>) -> (r: Result<
    (),
    BufferWritterError,
>)
    requires
        cuts_ok(cuts@, head@.len()),
        cuts@.len() > 0 ==> cuts@.last() == head@.len(),
        cuts@.len() == 0 ==> head@.len() == 0,
    ensures
        head@.len() <= old(buf).spec_room() ==> r == Err::<(), BufferWritterError>(
            BufferWritterError::SizeValueOverflow,
        ) && final(buf).spec_written() == old(buf).spec_written() + head@,
        head@.len() > old(buf).spec_room() ==> wrote_pieces(*old(buf), *final(buf), head@, cuts@, r),
{
    match write_in_pieces(buf, head.as_slice(), cuts.as_slice()) {
        Ok(()) => Err(BufferWritterError::SizeValueOverflow),
        Err(e) => Err(e),
    }
}

/// A message on the wire: its code; the time and number of plain messages,
/// warnings and errors; then what the kind carries.
pub open spec fn message_wire(k: MessageKindV) -> Seq<u8> {
    seq![kind_code(k)] + match k {
        MessageKindV::ZeroCode(m) => str_bytes(m),
        MessageKindV::Message(ms, n, m) => be_bytes(ms as nat, 4) + be_bytes(n as nat, 2)
            + str_bytes(m),
        MessageKindV::Error(ms, n, e, m, l, st) => be_bytes(ms as nat, 4) + be_bytes(n as nat, 2)
            + be_bytes(1, 2) + be_bytes((errors_code(e) as u32) as nat, 4) + seq![1u8]
            + long_str_wire(m) + long_str_wire(l) + long_str_wire(st),
        MessageKindV::Warning(ms, n, w, m, l, st) => be_bytes(ms as nat, 4) + be_bytes(
            n as nat,
            2,
        ) + be_bytes(1, 2) + be_bytes((warnings_code(w) as u32) as nat, 4) + seq![0u8]
            + long_str_wire(m) + long_str_wire(l) + long_str_wire(st),
        MessageKindV::VersionInfo(v) => seq![version_device_id(v)] + match v {
            VersionInfoV::LibCVersion(m) => be_bytes(0, 2) + seq![0u8, 15u8] + lib_tag_bytes()
                + short_str_wire(m),
            VersionInfoV::ImageVersion(m) => be_bytes(0, 2) + seq![0u8, 13u8] + image_tag_bytes()
                + short_str_wire(m),
            VersionInfoV::CANTalon(a, b) => be_bytes(a as nat, 2) + seq![b] + be_bytes(0, 2),
            VersionInfoV::PDP(a, b) => be_bytes(a as nat, 2) + seq![b] + be_bytes(0, 2),
            VersionInfoV::PCM(a, b) => be_bytes(a as nat, 2) + seq![b] + be_bytes(0, 2),
            VersionInfoV::Empty(m) => seq![0u8, 0u8, 0u8, 0u8] + short_str_wire(m),
        },
        MessageKindV::UnderlineAnd5VDisable(a, b, c, d) => be_bytes(a as nat, 2) + seq![b, c, d],
        MessageKindV::RailFaults(a, b, c) => be_bytes(a as nat, 2) + be_bytes(b as nat, 2)
            + be_bytes(c as nat, 2),
        MessageKindV::DisableFaults(a, b) => be_bytes(a as nat, 2) + be_bytes(b as nat, 2),
        MessageKindV::UsageReport(..) => Seq::empty(),
    }
}

/// Appends a string after its length in two bytes, each a piece of its own.
fn push_long_str(v: &mut Vec<u8>, cuts: &mut Vec<usize>, s: &str)
    requires
        cuts_ok(old(cuts)@, old(v)@.len()),
    ensures
        final(v)@ == old(v)@ + long_str_wire(s@),
        cuts_ok(final(cuts)@, final(v)@.len()),
        final(cuts)@ == old(cuts)@.push((old(v).len() + 2) as usize).push(final(v).len()),
        final(v)@.len() == old(v)@.len() + 2 + str_bytes(s@).len(),
{
    let b = s.as_bytes();
    proof {
        lemma_be_bytes_len((str_bytes(s@).len() as u16) as nat, 2);
    }
    push_all(v, be2(b.len() as u16).as_slice());
    cut(cuts, v);
    push_all(v, b);
    cut(cuts, v);
}

/// Appends a string after its length in one byte, each a piece of its own,
/// when it fits one.
fn push_short_str(v: &mut Vec<u8>, cuts: &mut Vec<usize>, s: &str) -> (r: bool)
    requires
        cuts_ok(old(cuts)@, old(v)@.len()),
    ensures
        r == (str_bytes(s@).len() <= 255),
        r ==> final(v)@ == old(v)@ + short_str_wire(s@),
        !r ==> final(v)@ == old(v)@ && final(cuts)@ == old(cuts)@,
        cuts_ok(final(cuts)@, final(v)@.len()),
        r ==> final(cuts)@ == old(cuts)@.push((old(v).len() + 1) as usize).push(final(v).len()),
{
    let b = s.as_bytes();
    if b.len() > 255 {
        return false;
    }
    v.push(b.len() as u8);
    cut(cuts, v);
    push_all(v, b);
    cut(cuts, v);
    true
}

impl Message {
    /// Writes [`message_wire`]. A version string too long for its one-byte
    /// length is refused once the fields before it ([`message_head`]) are
    /// written. A usage report has no wire form yet and is not accepted.
    #[verifier::spinoff_prover]
    #[verifier::rlimit(60)]
    pub fn write_to_buf<T: BufferWritter>(&self, buf: &mut T) -> (r: Result<(), BufferWritterError>)
        requires
            !(self@ is UsageReport),
        ensures
            message_wire_fits(self@) ==> wrote_pieces(
                *old(buf),
                *final(buf),
                message_wire(self@),
                message_cuts(self@),
                r,
            ),
            !message_wire_fits(self@) && message_head(self@).len() <= old(buf).spec_room() ==> (r
                == Err::<(), BufferWritterError>(BufferWritterError::SizeValueOverflow)
                && final(buf).spec_written() == old(buf).spec_written() + message_head(self@)),
            !message_wire_fits(self@) && message_head(self@).len() > old(buf).spec_room()
                ==> wrote_pieces(
                *old(buf),
                *final(buf),
                message_head(self@),
                message_head_cuts(self@),
                r,
            ),
    {
        let ghost before = *buf;
        let mut v: Vec<u8> = Vec::new();
        let mut cuts: Vec<usize> = Vec::new();
        v.push(self.kind.get_code());
        cut(&mut cuts, &v);
        match &self.kind {
            MessageKind::ZeroCode { msg } => {
                push_all(&mut v, msg.as_str().as_bytes());
                cut(&mut cuts, &v);
            },
            MessageKind::Message { ms, msg_num, msg } => {
                push_all(&mut v, be4(*ms).as_slice());
                cut(&mut cuts, &v);
                push_all(&mut v, be2(*msg_num).as_slice());
                cut(&mut cuts, &v);
                push_all(&mut v, msg.as_str().as_bytes());
                cut(&mut cuts, &v);
            },
            MessageKind::Error { ms, msg_num, err, msg, loc, stack } => {
                push_all(&mut v, be4(*ms).as_slice());
                cut(&mut cuts, &v);
                push_all(&mut v, be2(*msg_num).as_slice());
                cut(&mut cuts, &v);
                push_all(&mut v, be2(1).as_slice());
                cut(&mut cuts, &v);
                let code: i32 = (*err).into();
                push_all(&mut v, be4(code as u32).as_slice());
                cut(&mut cuts, &v);
                v.push(1);
                cut(&mut cuts, &v);
                push_long_str(&mut v, &mut cuts, msg.as_str());
                push_long_str(&mut v, &mut cuts, loc.as_str());
                push_long_str(&mut v, &mut cuts, stack.as_str());
                assert(cuts@ =~= message_cuts(self@));
            },
            MessageKind::Warning { ms, msg_num, warn, msg, loc, stack } => {
                push_all(&mut v, be4(*ms).as_slice());
                cut(&mut cuts, &v);
                push_all(&mut v, be2(*msg_num).as_slice());
                cut(&mut cuts, &v);
                push_all(&mut v, be2(1).as_slice());
                cut(&mut cuts, &v);
                let code: i32 = (*warn).into();
                push_all(&mut v, be4(code as u32).as_slice());
                cut(&mut cuts, &v);
                v.push(0);
                cut(&mut cuts, &v);
                push_long_str(&mut v, &mut cuts, msg.as_str());
                push_long_str(&mut v, &mut cuts, loc.as_str());
                push_long_str(&mut v, &mut cuts, stack.as_str());
                assert(cuts@ =~= message_cuts(self@));
            },
            MessageKind::VersionInfo { kind } => {
                v.push(kind.device_id());
                cut(&mut cuts, &v);
                match kind {
                    VersionInfo::LibCVersion(msg) => {
                        push_all(&mut v, be2(0).as_slice());
                        cut(&mut cuts, &v);
                        v.push(0);
                        cut(&mut cuts, &v);
                        v.push(15);
                        cut(&mut cuts, &v);
                        let tag: [u8; 15] = [
                            70,
                            82,
                            67,
                            95,
                            76,
                            105,
                            98,
                            95,
                            86,
                            101,
                            114,
                            115,
                            105,
                            111,
                            110,
                        ];
                        proof {
                            assert(tag@ =~= lib_tag_bytes());
                        }
                        push_all(&mut v, tag.as_slice());
                        cut(&mut cuts, &v);
                        if !push_short_str(&mut v, &mut cuts, msg.as_str()) {
                            proof {
                                assert(v@ =~= message_head(self@));
                                assert(cuts@ =~= message_head_cuts(self@));
                            }
                            return write_head_then_overflow(buf, &v, &cuts);
                        }
                    },
                    VersionInfo::ImageVersion(msg) => {
                        push_all(&mut v, be2(0).as_slice());
                        cut(&mut cuts, &v);
                        v.push(0);
                        cut(&mut cuts, &v);
                        v.push(13);
                        cut(&mut cuts, &v);
                        let tag: [u8; 13] = [114, 111, 98, 111, 82, 73, 79, 32, 73, 109, 97, 103, 101];
                        proof {
                            assert(tag@ =~= image_tag_bytes());
                        }
                        push_all(&mut v, tag.as_slice());
                        cut(&mut cuts, &v);
                        if !push_short_str(&mut v, &mut cuts, msg.as_str()) {
                            proof {
                                assert(v@ =~= message_head(self@));
                                assert(cuts@ =~= message_head_cuts(self@));
                            }
                            return write_head_then_overflow(buf, &v, &cuts);
                        }
                    },
                    VersionInfo::CANTalon(idk, can_id) | VersionInfo::PDP(idk, can_id)
                    | VersionInfo::PCM(idk, can_id) => {
                        push_all(&mut v, be2(*idk).as_slice());
                        cut(&mut cuts, &v);
                        v.push(*can_id);
                        cut(&mut cuts, &v);
                        push_all(&mut v, be2(0).as_slice());
                        cut(&mut cuts, &v);
                    },
                    VersionInfo::Empty(s) => {
                        push_all(&mut v, [0u8, 0, 0, 0].as_slice());
                        cut(&mut cuts, &v);
                        if !push_short_str(&mut v, &mut cuts, s.as_str()) {
                            proof {
                                assert(v@ =~= message_head(self@));
                                assert(cuts@ =~= message_head_cuts(self@));
                            }
                            return write_head_then_overflow(buf, &v, &cuts);
                        }
                    },
                }
            },
            MessageKind::UnderlineAnd5VDisable {
                disable_5v,
                top_signal,
                second_top_signal,
                third_top_signal,
            } => {
                push_all(&mut v, be2(*disable_5v).as_slice());
                cut(&mut cuts, &v);
                v.push(*top_signal);
                cut(&mut cuts, &v);
                v.push(*second_top_signal);
                cut(&mut cuts, &v);
                v.push(*third_top_signal);
                cut(&mut cuts, &v);
            },
            MessageKind::RailFaults { short_6v, short_5v, short_3_3v } => {
                push_all(&mut v, be2(*short_6v).as_slice());
                cut(&mut cuts, &v);
                push_all(&mut v, be2(*short_5v).as_slice());
                cut(&mut cuts, &v);
                push_all(&mut v, be2(*short_3_3v).as_slice());
                cut(&mut cuts, &v);
            },
            MessageKind::DisableFaults { comms, fault_12v } => {
                push_all(&mut v, be2(*comms).as_slice());
                cut(&mut cuts, &v);
                push_all(&mut v, be2(*fault_12v).as_slice());
                cut(&mut cuts, &v);
            },
            MessageKind::UsageReport { .. } => {},
        }
        proof {
            assert(v@ =~= message_wire(self@));
            assert(cuts@ =~= message_cuts(self@));
        }
        write_in_pieces(buf, v.as_slice(), cuts.as_slice())
    }
}

/// A [`MessageReadError`] with its string as characters.
pub enum MsgErrV {
    Reader(BufferReaderError),
    InvalidDataValue,
    InvalidReportTag(Seq<char>),
    ReportStartValueNonZero,
    InvalidMsgCode(u8),
    InvalidVersionDeviceTag(u8),
}

pub open spec fn err_view(e: MessageReadError) -> MsgErrV {
    match e {
        MessageReadError::BufferReaderError(b) => MsgErrV::Reader(b),
        MessageReadError::InvalidDataValue => MsgErrV::InvalidDataValue,
        MessageReadError::InvalidReportTag(s) => MsgErrV::InvalidReportTag(s@),
        MessageReadError::ReportStartValueNonZero => MsgErrV::ReportStartValueNonZero,
        MessageReadError::InvalidMsgCode(c) => MsgErrV::InvalidMsgCode(c),
        MessageReadError::InvalidVersionDeviceTag(c) => MsgErrV::InvalidVersionDeviceTag(c),
    }
}

/// How reading (part of) a message ends: with a value, an error, or a string
/// that is not UTF-8.
pub enum MsgOutcome<T> {
    Done(T, nat),
    Failed(MsgErrV),
    BadUtf8,
}

/// Whether a result is the one an outcome describes.
pub open spec fn outcome_matches<T, V>(r: Result<T, MessageReadError>, o: MsgOutcome<V>, view: spec_fn(T) -> V) -> bool {
    match o {
        MsgOutcome::Done(v, _) => r matches Ok(x) && view(x) == v,
        MsgOutcome::Failed(e) => r matches Err(e2) && err_view(e2) == e,
        MsgOutcome::BadUtf8 => r matches Err(
            MessageReadError::BufferReaderError(BufferReaderError::ParseUft8Error(_)),
        ),
    }
}

/// The reader error of a read of `w` bytes at `p` in `len`.
pub open spec fn short_read(len: nat, p: nat, w: nat) -> MsgErrV {
    MsgErrV::Reader(overflow_error(len, p, w))
}

/// The first of the fixed-width reads `ws` at `p` that does not fit.
pub open spec fn fixed_fail(len: nat, p: nat, ws: Seq<nat>) -> Option<MsgErrV> {
    match reads_fail(len, p, ws) {
        Some((q, w)) => Some(short_read(len, q, w)),
        None => None,
    }
}

/// The big-endian value of the `w` bytes of `d` at `p`.
pub open spec fn num_at(d: Seq<u8>, p: nat, w: nat) -> nat {
    be_value(d.subrange(p as int, (p + w) as int))
}

/// Reading `n` bytes at `p` as a string.
pub open spec fn str_read(d: Seq<u8>, p: nat, n: nat) -> MsgOutcome<Seq<char>> {
    if p + n > d.len() {
        MsgOutcome::Failed(short_read(d.len(), p, n))
    } else if !vstd::utf8::valid_utf8(d.subrange(p as int, (p + n) as int)) {
        MsgOutcome::BadUtf8
    } else {
        MsgOutcome::Done(vstd::utf8::decode_utf8(d.subrange(p as int, (p + n) as int)), p + n)
    }
}

/// Reading a string after its length in two bytes at `p`.
pub open spec fn long_str_read(d: Seq<u8>, p: nat) -> MsgOutcome<Seq<char>> {
    if p + 2 > d.len() {
        MsgOutcome::Failed(short_read(d.len(), p, 2))
    } else {
        str_read(d, p + 2, num_at(d, p, 2))
    }
}

/// Reading a string after its length in one byte at `p`.
pub open spec fn short_str_read(d: Seq<u8>, p: nat) -> MsgOutcome<Seq<char>> {
    if p + 1 > d.len() {
        MsgOutcome::Failed(short_read(d.len(), p, 1))
    } else {
        str_read(d, p + 1, d[p as int] as nat)
    }
}

/// Checking that the `n` bytes at `p` are zero.
pub open spec fn zeros_fail(d: Seq<u8>, p: nat, n: nat) -> Option<MsgErrV> {
    if p + n > d.len() {
        Some(short_read(d.len(), p, n))
    } else if exists|k: int| p <= k < p + n && d[k] != 0 {
        Some(MsgErrV::ReportStartValueNonZero)
    } else {
        None
    }
}

/// Requiring that a message ends at `e`.
pub open spec fn ends_at<T>(d: Seq<u8>, e: nat, v: T) -> MsgOutcome<T> {
    if e != d.len() {
        MsgOutcome::Failed(
            MsgErrV::Reader(BufferReaderError::UnreadData { remaining: (d.len() - e) as usize }),
        )
    } else {
        MsgOutcome::Done(v, e)
    }
}

/// Reading fixed-width values at `p` and ending right after them.
pub open spec fn fixed_then_end<T>(d: Seq<u8>, p: nat, ws: Seq<nat>, v: T) -> MsgOutcome<T> {
    match fixed_fail(d.len(), p, ws) {
        Some(e) => MsgOutcome::Failed(e),
        None => ends_at(d, p + widths_sum(ws), v),
    }
}

/// Reading the rest of a version message from `p`, its device byte first: for
/// device 0, three zero bytes, a tag and a version string (one-byte lengths);
/// for devices 2, 8 and 9 (CAN Talon, PDP, PCM) a u16 and a byte, two zero
/// bytes for 2 and 9, and nothing after.
pub open spec fn version_read(d: Seq<u8>, p: nat) -> MsgOutcome<VersionInfoV> {
    let len = d.len();
    if p + 1 > len {
        MsgOutcome::Failed(short_read(len, p, 1))
    } else {
        let dev = d[p as int];
        let q = p + 1;
        if dev == 0 {
            match zeros_fail(d, q, 3) {
                Some(e) => MsgOutcome::Failed(e),
                None => match short_str_read(d, q + 3) {
                    MsgOutcome::Failed(e) => MsgOutcome::Failed(e),
                    MsgOutcome::BadUtf8 => MsgOutcome::BadUtf8,
                    MsgOutcome::Done(tag, u) => {
                        let tb = d.subrange(q as int + 4, u as int);
                        if tb == image_tag_bytes() || tb == lib_tag_bytes() || tb.len() == 0 {
                            match short_str_read(d, u) {
                                MsgOutcome::Failed(e) => MsgOutcome::Failed(e),
                                MsgOutcome::BadUtf8 => MsgOutcome::BadUtf8,
                                MsgOutcome::Done(v, e) => ends_at(
                                    d,
                                    e,
                                    if tb == image_tag_bytes() {
                                        VersionInfoV::ImageVersion(v)
                                    } else if tb == lib_tag_bytes() {
                                        VersionInfoV::LibCVersion(v)
                                    } else {
                                        VersionInfoV::Empty(v)
                                    },
                                ),
                            }
                        } else {
                            MsgOutcome::Failed(MsgErrV::InvalidReportTag(tag))
                        }
                    },
                },
            }
        } else if dev == 2 || dev == 9 || dev == 8 {
            match fixed_fail(len, q, seq![2nat, 1nat]) {
                Some(e) => MsgOutcome::Failed(e),
                None => {
                    let a = num_at(d, q, 2) as u16;
                    let b = d[q as int + 2];
                    if dev == 8 {
                        ends_at(d, q + 3, VersionInfoV::PDP(a, b))
                    } else {
                        match zeros_fail(d, q + 3, 2) {
                            Some(e) => MsgOutcome::Failed(e),
                            None => ends_at(
                                d,
                                q + 5,
                                if dev == 2 {
                                    VersionInfoV::CANTalon(a, b)
                                } else {
                                    VersionInfoV::PCM(a, b)
                                },
                            ),
                        }
                    }
                },
            }
        } else {
            MsgOutcome::Failed(MsgErrV::InvalidVersionDeviceTag(dev))
        }
    }
}

/// Reading the rest of an error or warning message from `r`, after its time
/// and number: a u16 that must be 1, the code as a u32, a byte that is 1 for an
/// error, then the message, location and stack after two-byte lengths.
pub open spec fn report_read(d: Seq<u8>, r: nat, ms: u32, n: u16) -> MsgOutcome<MessageKindV> {
    let len = d.len();
    if r + 2 > len {
        MsgOutcome::Failed(short_read(len, r, 2))
    } else if num_at(d, r, 2) != 1 {
        MsgOutcome::Failed(MsgErrV::InvalidDataValue)
    } else {
        match fixed_fail(len, r + 2, seq![4nat, 1nat]) {
            Some(e) => MsgOutcome::Failed(e),
            None => {
                let code = (num_at(d, r + 2, 4) as u32) as i32;
                let is_err = d[r as int + 6] == 1;
                match long_str_read(d, r + 7) {
                    MsgOutcome::Failed(e) => MsgOutcome::Failed(e),
                    MsgOutcome::BadUtf8 => MsgOutcome::BadUtf8,
                    MsgOutcome::Done(m, e1) => match long_str_read(d, e1) {
                        MsgOutcome::Failed(e) => MsgOutcome::Failed(e),
                        MsgOutcome::BadUtf8 => MsgOutcome::BadUtf8,
                        MsgOutcome::Done(l, e2) => match long_str_read(d, e2) {
                            MsgOutcome::Failed(e) => MsgOutcome::Failed(e),
                            MsgOutcome::BadUtf8 => MsgOutcome::BadUtf8,
                            MsgOutcome::Done(st, e3) => ends_at(
                                d,
                                e3,
                                if is_err {
                                    MessageKindV::Error(ms, n, errors_from_code(code), m, l, st)
                                } else {
                                    MessageKindV::Warning(ms, n, warnings_from_code(code), m, l, st)
                                },
                            ),
                        },
                    },
                }
            },
        }
    }
}

/// Reading a whole message from `d` at `i`: a code byte, then what the code
/// calls for, up to the end of `d`: 0 a string, 4 two u16, 5 three u16, 10 a
/// version, 11 a time, number and report, 12 a time, number and string, 13 a
/// u16 and three bytes. Any other code is an error.
pub open spec fn message_read(d: Seq<u8>, i: nat) -> MsgOutcome<MessageKindV> {
    let len = d.len();
    if i + 1 > len {
        MsgOutcome::Failed(short_read(len, i, 1))
    } else {
        let code = d[i as int];
        let p = i + 1;
        if code == 0x00 {
            match str_read(d, p, (len - p) as nat) {
                MsgOutcome::Failed(e) => MsgOutcome::Failed(e),
                MsgOutcome::BadUtf8 => MsgOutcome::BadUtf8,
                MsgOutcome::Done(m, e) => ends_at(d, e, MessageKindV::ZeroCode(m)),
            }
        } else if code == 0x04 {
            fixed_then_end(
                d,
                p,
                seq![2nat, 2nat],
                MessageKindV::DisableFaults(num_at(d, p, 2) as u16, num_at(d, p + 2, 2) as u16),
            )
        } else if code == 0x05 {
            fixed_then_end(
                d,
                p,
                seq![2nat, 2nat, 2nat],
                MessageKindV::RailFaults(
                    num_at(d, p, 2) as u16,
                    num_at(d, p + 2, 2) as u16,
                    num_at(d, p + 4, 2) as u16,
                ),
            )
        } else if code == 0x0D {
            fixed_then_end(
                d,
                p,
                seq![2nat, 1nat, 1nat, 1nat],
                MessageKindV::UnderlineAnd5VDisable(
                    num_at(d, p, 2) as u16,
                    d[p as int + 2],
                    d[p as int + 3],
                    d[p as int + 4],
                ),
            )
        } else if code == 0x0A {
            match version_read(d, p) {
                MsgOutcome::Failed(e) => MsgOutcome::Failed(e),
                MsgOutcome::BadUtf8 => MsgOutcome::BadUtf8,
                MsgOutcome::Done(v, e) => MsgOutcome::Done(MessageKindV::VersionInfo(v), e),
            }
        } else if code == 0x0B || code == 0x0C {
            match fixed_fail(len, p, seq![4nat, 2nat]) {
                Some(e) => MsgOutcome::Failed(e),
                None => {
                    let ms = num_at(d, p, 4) as u32;
                    let n = num_at(d, p + 4, 2) as u16;
                    if code == 0x0B {
                        report_read(d, p + 6, ms, n)
                    } else {
                        match str_read(d, p + 6, (len - (p + 6)) as nat) {
                            MsgOutcome::Failed(e) => MsgOutcome::Failed(e),
                            MsgOutcome::BadUtf8 => MsgOutcome::BadUtf8,
                            MsgOutcome::Done(m, e) => ends_at(d, e, MessageKindV::Message(ms, n, m)),
                        }
                    }
                },
            }
        } else {
            MsgOutcome::Failed(MsgErrV::InvalidMsgCode(code))
        }
    }
}

/// A reader error as a message error.
fn lift_msg<T>(r: Result<T, BufferReaderError>) -> (o: Result<T, MessageReadError>)
    ensures
        match r {
            Ok(v) => o == Ok::<T, MessageReadError>(v),
            Err(e) => o == Err::<T, MessageReadError>(MessageReadError::BufferReaderError(e)),
        },
{
    match r {
        Ok(v) => Ok(v),
        Err(e) => Err(MessageReadError::BufferReaderError(e)),
    }
}

/// Whether two byte strings are equal.
fn bytes_eq(a: &[u8], b: &[u8]) -> (r: bool)
    ensures
        r == (a@ == b@),
{
    if a.len() != b.len() {
        return false;
    }
    let mut k: usize = 0;
    while k < a.len()
        invariant
            k <= a@.len(),
            a@.len() == b@.len(),
            forall|j: int| 0 <= j < k ==> a@[j] == b@[j],
        decreases a@.len() - k,
    {
        if a[k] != b[k] {
            return false;
        }
        k = k + 1;
    }
    proof {
        assert(a@ =~= b@);
    }
    true
}

/// Reads `n` bytes as a string ([`str_read`]).
fn read_string(buf: &mut BufferReader, n: usize) -> (r: Result<String, MessageReadError>)
    requires
        old(buf).spec_index() + n <= usize::MAX,
    ensures
        final(buf).spec_buf() == old(buf).spec_buf(),
        final(buf).spec_index() == old(buf).spec_index() + n,
        outcome_matches(r, str_read(old(buf).spec_buf(), old(buf).spec_index(), n as nat), |s: String| s@),
{
    let s = lift_msg(buf.read_str(n))?;
    Ok(s.to_owned())
}

/// Reads a string after its length in two bytes ([`long_str_read`]).
fn read_long_string(buf: &mut BufferReader) -> (r: Result<String, MessageReadError>)
    requires
        old(buf).spec_index() <= old(buf).spec_buf().len(),
        old(buf).headroom(),
    ensures
        final(buf).spec_buf() == old(buf).spec_buf(),
        outcome_matches(r, long_str_read(old(buf).spec_buf(), old(buf).spec_index()), |s: String| s@),
        match long_str_read(old(buf).spec_buf(), old(buf).spec_index()) {
            MsgOutcome::Done(_, e) => final(buf).spec_index() == e && e <= old(buf).spec_buf().len(),
            _ => true,
        },
{
    let n = lift_msg(buf.read_u16())?;
    read_string(buf, n as usize)
}

/// Reads `n` bytes that must all be zero.
#[verifier::loop_isolation(false)]
fn read_zeros(buf: &mut BufferReader, n: usize) -> (r: Result<(), MessageReadError>)
    requires
        old(buf).spec_index() + n <= usize::MAX,
    ensures
        final(buf).spec_buf() == old(buf).spec_buf(),
        final(buf).spec_index() == old(buf).spec_index() + n,
        match zeros_fail(old(buf).spec_buf(), old(buf).spec_index(), n as nat) {
            Some(e) => r matches Err(e2) && err_view(e2) == e,
            None => r is Ok,
        },
{
    let b = lift_msg(buf.read_amount(n))?;
    let mut k: usize = 0;
    while k < b.len()
        invariant
            k <= b@.len(),
            forall|j: int| 0 <= j < k ==> b@[j] == 0,
        decreases b@.len() - k,
    {
        if b[k] != 0 {
            proof {
                let i = old(buf).spec_index();
                assert(old(buf).spec_buf()[i + k] != 0);
            }
            return Err(MessageReadError::ReportStartValueNonZero);
        }
        k = k + 1;
    }
    proof {
        let d = old(buf).spec_buf();
        let i = old(buf).spec_index();
        assert forall|j: int| i <= j < i + n implies d[j] == 0 by {
            assert(b@[j - i] == 0);
        }
    }
    Ok(())
}

/// Fails when bytes are left.
fn msg_end(buf: &BufferReader) -> (r: Result<(), MessageReadError>)
    requires
        buf.spec_index() <= buf.spec_buf().len(),
    ensures
        match ends_at(buf.spec_buf(), buf.spec_index(), ()) {
            MsgOutcome::Failed(e) => r matches Err(e2) && err_view(e2) == e,
            _ => r is Ok,
        },
{
    lift_msg(buf.assert_empty())
}

/// Reads the rest of a version message ([`version_read`]).
#[verifier::rlimit(30)]
fn read_version(buf: &mut BufferReader) -> (r: Result<VersionInfo, MessageReadError>)
    requires
        old(buf).spec_index() <= old(buf).spec_buf().len(),
        old(buf).headroom(),
    ensures
        final(buf).spec_buf() == old(buf).spec_buf(),
        outcome_matches(r, version_read(old(buf).spec_buf(), old(buf).spec_index()), |v: VersionInfo| v@),
        match version_read(old(buf).spec_buf(), old(buf).spec_index()) {
            MsgOutcome::Done(_, e) => final(buf).spec_index() == e && e == old(buf).spec_buf().len(),
            _ => true,
        },
{
    proof {
        buf.lemma_len_bound();
        reveal_with_fuel(reads_fail, 3);
    }
    let ghost d = buf.spec_buf();
    let device_id = lift_msg(buf.read_u8())?;
    if device_id == 0 {
        read_zeros(buf, 3)?;
        let ghost t = buf.spec_index();
        let tag = lift_msg(buf.read_short_str())?;
        let tb = tag.as_bytes();
        proof {
            let bytes = d.subrange(t as int + 1, buf.spec_index() as int);
            vstd::utf8::decode_utf8_encode_utf8(bytes);
        }
        let image: [u8; 13] = [114, 111, 98, 111, 82, 73, 79, 32, 73, 109, 97, 103, 101];
        let lib: [u8; 15] = [70, 82, 67, 95, 76, 105, 98, 95, 86, 101, 114, 115, 105, 111, 110];
        proof {
            assert(image@ =~= image_tag_bytes());
            assert(lib@ =~= lib_tag_bytes());
        }
        let is_image = bytes_eq(tb, image.as_slice());
        let is_lib = bytes_eq(tb, lib.as_slice());
        if is_image || is_lib || tb.len() == 0 {
            let v = lift_msg(buf.read_short_str())?.to_owned();
            msg_end(buf)?;
            if is_image {
                Ok(VersionInfo::ImageVersion(v))
            } else if is_lib {
                Ok(VersionInfo::LibCVersion(v))
            } else {
                Ok(VersionInfo::Empty(v))
            }
        } else {
            Err(MessageReadError::InvalidReportTag(tag.to_owned()))
        }
    } else if device_id == 2 || device_id == 9 || device_id == 8 {
        let a = lift_msg(buf.read_u16())?;
        let b = lift_msg(buf.read_u8())?;
        if device_id == 8 {
            msg_end(buf)?;
            Ok(VersionInfo::PDP(a, b))
        } else {
            read_zeros(buf, 2)?;
            msg_end(buf)?;
            if device_id == 2 {
                Ok(VersionInfo::CANTalon(a, b))
            } else {
                Ok(VersionInfo::PCM(a, b))
            }
        }
    } else {
        Err(MessageReadError::InvalidVersionDeviceTag(device_id))
    }
}

/// Reads the rest of an error or warning message ([`report_read`]).
fn read_report(buf: &mut BufferReader, ms: u32, msg_num: u16) -> (r: Result<
    MessageKind,
    MessageReadError,
>)
    requires
        old(buf).spec_index() <= old(buf).spec_buf().len(),
        old(buf).headroom(),
    ensures
        final(buf).spec_buf() == old(buf).spec_buf(),
        outcome_matches(
            r,
            report_read(old(buf).spec_buf(), old(buf).spec_index(), ms, msg_num),
            |k: MessageKind| k@,
        ),
        match report_read(old(buf).spec_buf(), old(buf).spec_index(), ms, msg_num) {
            MsgOutcome::Done(_, e) => final(buf).spec_index() == e && e == old(buf).spec_buf().len(),
            _ => true,
        },
{
    proof {
        buf.lemma_len_bound();
        reveal_with_fuel(reads_fail, 3);
    }
    let one = lift_msg(buf.read_u16())?;
    if one != 1 {
        return Err(MessageReadError::InvalidDataValue);
    }
    let err_num = lift_msg(buf.read_u32())? as i32;
    let err = lift_msg(buf.read_u8())?;
    let msg = read_long_string(buf)?;
    let loc = read_long_string(buf)?;
    let stack = read_long_string(buf)?;
    msg_end(buf)?;
    if err == 1 {
        Ok(MessageKind::Error { ms, msg_num, err: Errors::from(err_num), msg, loc, stack })
    } else {
        Ok(MessageKind::Warning { ms, msg_num, warn: Warnings::from(err_num), msg, loc, stack })
    }
}

impl Message {
    /// Reads a whole message to the end of the buffer ([`message_read`]); a
    /// message read leaves the cursor at the end.
    #[verifier::rlimit(40)]
    pub fn create_from_buf(buf: &mut BufferReader) -> (r: Result<Self, MessageReadError>)
        requires
            old(buf).headroom(),
        ensures
            final(buf).spec_buf() == old(buf).spec_buf(),
            outcome_matches(r, message_read(old(buf).spec_buf(), old(buf).spec_index()), |m: Message| m@),
            r is Ok ==> final(buf).spec_index() == old(buf).spec_buf().len(),
    {
        proof {
            buf.lemma_len_bound();
            reveal_with_fuel(reads_fail, 5);
            reveal_with_fuel(widths_sum, 5);
        }
        let code = lift_msg(buf.read_u8())?;
        let kind = if code == 0x00 {
            let rem = buf.remaining_packet_data();
            MessageKind::ZeroCode { msg: read_string(buf, rem)? }
        } else if code == 0x04 {
            let comms = lift_msg(buf.read_u16())?;
            let fault_12v = lift_msg(buf.read_u16())?;
            MessageKind::DisableFaults { comms, fault_12v }
        } else if code == 0x05 {
            let short_6v = lift_msg(buf.read_u16())?;
            let short_5v = lift_msg(buf.read_u16())?;
            let short_3_3v = lift_msg(buf.read_u16())?;
            MessageKind::RailFaults { short_6v, short_5v, short_3_3v }
        } else if code == 0x0A {
            MessageKind::VersionInfo { kind: read_version(buf)? }
        } else if code == 0x0B || code == 0x0C {
            let ms = lift_msg(buf.read_u32())?;
            let msg_num = lift_msg(buf.read_u16())?;
            if code == 0x0B {
                read_report(buf, ms, msg_num)?
            } else {
                let rem = buf.remaining_packet_data();
                MessageKind::Message { ms, msg_num, msg: read_string(buf, rem)? }
            }
        } else if code == 0x0D {
            let disable_5v = lift_msg(buf.read_u16())?;
            let top_signal = lift_msg(buf.read_u8())?;
            let second_top_signal = lift_msg(buf.read_u8())?;
            let third_top_signal = lift_msg(buf.read_u8())?;
            MessageKind::UnderlineAnd5VDisable {
                disable_5v,
                top_signal,
                second_top_signal,
                third_top_signal,
            }
        } else {
            let rem = buf.remaining_packet_data();
            lift_msg(buf.read_amount(rem))?;
            return Err(MessageReadError::InvalidMsgCode(code));
        };
        msg_end(buf)?;
        Ok(Message { kind })
    }
}

} // verus!
