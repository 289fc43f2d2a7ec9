use vstd::prelude::*;

pub mod reader;

use crate::alliance_station::{
    law_station_code_roundtrip, station_code, station_from_code, AllianceStation,
};
use crate::buffer_reader::{
    be_value, overflow_error, BufferReader, BufferReaderError, CreateFromBuf, ReadFromBuf,
};
use crate::buffer_writter::{
    be2, be_bytes, lemma_be_bytes_len, lemma_be_value_of_bytes, write_in_pieces, wrote_pieces, pow256, BufferWritter, BufferWritterError,
    WriteToBuff,
};
use crate::control_code::{decode_control_code, ControlCode};
use crate::error::RobotPacketParseError;
use crate::joystick::{
    count_present, empty_joystick, joystick_read, Joystick, JoystickView, Joysticks,
};
use crate::request_code::{decode_robot_request_code, RobotRequestCode};
use crate::robot_to_driver::lift_err;
use crate::time_data::{time_read, tz_name_known, zone_view, TimeData, TimeFields};

verus! {

/// The fixed part of every packet the driver station sends the robot.
#[derive(Debug, Clone, Copy)]
pub struct DriverstationToRobotCorePacketDate {
    pub sequence: u16,
    pub tag_comm_version: u8,
    pub control_code: ControlCode,
    pub request_code: RobotRequestCode,
    pub station: AllianceStation,
}

impl Default for DriverstationToRobotCorePacketDate {
    fn default() -> (r: Self)
        ensures
            r.sequence == 0,
            r.tag_comm_version == 1,
            r.control_code == ControlCode(0),
            r.request_code == RobotRequestCode(0),
            r.station == AllianceStation::Red1,
    {
        DriverstationToRobotCorePacketDate {
            sequence: 0,
            tag_comm_version: 1,
            control_code: ControlCode(0),
            request_code: RobotRequestCode(0),
            station: AllianceStation::Red1,
        }
    }
}

/// The fields of the fixed part that a read fills in.
pub open spec fn core_fields(
    sequence: u16,
    version: u8,
    cc: u8,
    rc: u8,
    station: AllianceStation,
) -> DriverstationToRobotCorePacketDate {
    DriverstationToRobotCorePacketDate {
        sequence,
        tag_comm_version: version,
        control_code: ControlCode(cc),
        request_code: RobotRequestCode(rc),
        station,
    }
}

/// Reading the fixed part from `d` at `i`: the sequence number, the comm
/// version, which must be 1, the control and request codes and the station.
/// `bad_version` is the error a version other than `v` gives.
pub open spec fn dtr_core_read(
    d: Seq<u8>,
    i: nat,
    bad_version: spec_fn(u8) -> RobotPacketParseError,
) -> (Result<DriverstationToRobotCorePacketDate, RobotPacketParseError>, nat) {
    let len = d.len();
    if i + 2 > len {
        (Err(RobotPacketParseError::BufferReaderError(overflow_error(len, i, 2))), i + 2)
    } else if i + 3 > len {
        (Err(RobotPacketParseError::BufferReaderError(overflow_error(len, i + 2, 1))), i + 3)
    } else if d[i as int + 2] != 1 {
        (Err(bad_version(d[i as int + 2])), i + 3)
    } else if i + 6 > len {
        (Err(RobotPacketParseError::BufferReaderError(overflow_error(len, len, 1))), len + 1)
    } else {
        match station_from_code(d[i as int + 5]) {
            None => (Err(RobotPacketParseError::InvalidStationCode(d[i as int + 5])), i + 6),
            Some(st) => (
                Ok(
                    core_fields(
                        be_value(d.subrange(i as int, i as int + 2)) as u16,
                        1,
                        d[i as int + 3],
                        d[i as int + 4],
                        st,
                    ),
                ),
                i + 6,
            ),
        }
    }
}

/// The fixed part on the wire: the sequence number big-endian, the comm
/// version, the control and request codes, and the station's code.
pub open spec fn dtr_core_wire(c: DriverstationToRobotCorePacketDate) -> Seq<u8> {
    be_bytes(c.sequence as nat, 2) + seq![
        c.tag_comm_version,
        c.control_code.0,
        c.request_code.0,
        station_code(c.station),
    ]
}

/// The fixed part of a driver station packet on the wire, big-endian: the
/// sequence in bytes 0 and 1, high byte first, then one byte each for the
/// comm version, the control code, the request and the station's number.
pub proof fn law_dtr_core_wire_layout(c: DriverstationToRobotCorePacketDate)
    ensures
        dtr_core_wire(c).len() == 6,
        dtr_core_wire(c)[0] as int * 256 + dtr_core_wire(c)[1] as int == c.sequence,
        dtr_core_wire(c)[2] == c.tag_comm_version,
        dtr_core_wire(c)[3] == c.control_code.0,
        dtr_core_wire(c)[4] == c.request_code.0,
        dtr_core_wire(c)[5] == station_code(c.station),
{
    reveal_with_fuel(be_bytes, 3);
    let b = be_bytes(c.sequence as nat, 2);
    assert(b.len() == 2);
    assert(b[0] as int * 256 + b[1] as int == c.sequence);
    assert(dtr_core_wire(c)[0] == b[0] && dtr_core_wire(c)[1] == b[1]);
}

/// Reads the fixed part, refusing a version other than 1 as an invalid usage
/// tag.
fn read_core(buf: &mut BufferReader) -> (r: Result<
    DriverstationToRobotCorePacketDate,
    RobotPacketParseError,
>)
    requires
        old(buf).headroom(),
    ensures
        final(buf).spec_buf() == old(buf).spec_buf(),
        final(buf).spec_buf_ref() == old(buf).spec_buf_ref(),
        ({
            let (res, end) = dtr_core_read(
                old(buf).spec_buf(),
                old(buf).spec_index(),
                |v: u8| RobotPacketParseError::RobotToDriverInvalidUsageTag(v),
            );
            &&& final(buf).spec_index() == end
            &&& r == res
        }),
{
    proof {
        buf.lemma_len_bound();
    }
    let sequence = lift_err(buf.read_u16())?;
    let version = lift_err(buf.read_u8())?;
    if version != 1 {
        return Err(RobotPacketParseError::RobotToDriverInvalidUsageTag(version));
    }
    let control_code = ControlCode::from_bits(lift_err(buf.read_u8())?);
    let request_code = RobotRequestCode::from_bits(lift_err(buf.read_u8())?);
    let station = AllianceStation::try_from(lift_err(buf.read_u8())?)?;
    Ok(
        DriverstationToRobotCorePacketDate {
            sequence,
            tag_comm_version: version,
            control_code,
            request_code,
            station,
        },
    )
}

/// What a read of the fixed part leaves in `c`, whether it succeeds or not:
/// each field read before the read stopped; the station only when its code
/// names one.
pub open spec fn dtr_core_fill(
    c: DriverstationToRobotCorePacketDate,
    d: Seq<u8>,
    i: nat,
) -> DriverstationToRobotCorePacketDate {
    let len = d.len();
    if i + 2 > len {
        c
    } else {
        let c1 = DriverstationToRobotCorePacketDate {
            sequence: be_value(d.subrange(i as int, i as int + 2)) as u16,
            ..c
        };
        if i + 3 > len {
            c1
        } else {
            let c2 = DriverstationToRobotCorePacketDate { tag_comm_version: d[i as int + 2], ..c1 };
            if d[i as int + 2] != 1 || i + 4 > len {
                c2
            } else {
                let c3 = DriverstationToRobotCorePacketDate {
                    control_code: ControlCode(d[i as int + 3]),
                    ..c2
                };
                if i + 5 > len {
                    c3
                } else {
                    let c4 = DriverstationToRobotCorePacketDate {
                        request_code: RobotRequestCode(d[i as int + 4]),
                        ..c3
                    };
                    if i + 6 > len {
                        c4
                    } else {
                        match station_from_code(d[i as int + 5]) {
                            Some(st) => DriverstationToRobotCorePacketDate { station: st, ..c4 },
                            None => c4,
                        }
                    }
                }
            }
        }
    }
}

impl<'a> ReadFromBuf<'a> for DriverstationToRobotCorePacketDate {
    type Error = RobotPacketParseError;

    /// Reads the fixed part into this one ([`dtr_core_read`]), field by field
    /// ([`dtr_core_fill`]); a comm version other than 1 is refused as version
    /// 1.
    fn read_into_from_buf(&mut self, buf: &mut BufferReader<'a>) -> (r: Result<(), Self::Error>)
        ensures
            final(buf).spec_buf() == old(buf).spec_buf(),
            ({
                let (res, end) = dtr_core_read(
                    old(buf).spec_buf(),
                    old(buf).spec_index(),
                    |v: u8| RobotPacketParseError::RobotToDriverInvalidCommVersion(1),
                );
                &&& final(buf).spec_index() == end
                &&& match res {
                    Ok(c) => r is Ok && *final(self) == c,
                    Err(e) => r == Err::<(), RobotPacketParseError>(e),
                }
                &&& *final(self) == dtr_core_fill(*old(self), old(buf).spec_buf(), old(buf).spec_index())
            }),
    {
        proof {
            buf.lemma_len_bound();
        }
        self.sequence = lift_err(buf.read_u16())?;
        self.tag_comm_version = lift_err(buf.read_u8())?;
        if self.tag_comm_version != 1 {
            return Err(RobotPacketParseError::RobotToDriverInvalidCommVersion(1));
        }
        self.control_code = ControlCode::from_bits(lift_err(buf.read_u8())?);
        self.request_code = RobotRequestCode::from_bits(lift_err(buf.read_u8())?);
        self.station = AllianceStation::try_from(lift_err(buf.read_u8())?)?;
        Ok(())
    }
}

impl<'a> CreateFromBuf<'a> for DriverstationToRobotCorePacketDate {
    /// Reads the fixed part ([`dtr_core_read`]); a comm version other than 1 is
    /// refused as an invalid usage tag.
    fn create_from_buf(buf: &mut BufferReader<'a>) -> (r: Result<Self, Self::Error>)
        ensures
            final(buf).spec_buf() == old(buf).spec_buf(),
            final(buf).spec_buf_ref() == old(buf).spec_buf_ref(),
            ({
                let (res, end) = dtr_core_read(
                    old(buf).spec_buf(),
                    old(buf).spec_index(),
                    |v: u8| RobotPacketParseError::RobotToDriverInvalidUsageTag(v),
                );
                &&& final(buf).spec_index() == end
                &&& r == res
            }),
    {
        read_core(buf)
    }
}

/// A whole driver station packet.
#[derive(Debug)]
pub struct DriverstationToRobotPacket {
    pub core_data: DriverstationToRobotCorePacketDate,
    /// The match countdown, as the bits of its 32-bit float.
    pub countdown: Option<u32>,
    pub time_data: TimeData,
    pub joystick_data: Joysticks,
}

impl Default for DriverstationToRobotPacket {
    fn default() -> (r: Self)
        ensures
            r.core_data.tag_comm_version == 1,
            r.countdown is None,
            r.time_data.time is None,
            r.time_data.time_zone is None,
            r.joystick_data@ == Seq::new(6, |i: int| None::<JoystickView>),
    {
        DriverstationToRobotPacket {
            core_data: DriverstationToRobotCorePacketDate::default(),
            countdown: None,
            time_data: TimeData::new(),
            joystick_data: Joysticks::default(),
        }
    }
}

/// What the tags of a packet fill in.
pub struct DtrState {
    pub countdown: Option<u32>,
    pub time: Option<TimeFields>,
    pub zone: Option<Seq<char>>,
    pub joys: Seq<Option<JoystickView>>,
}

/// How reading the tags of a packet ends: with what they filled in, with an
/// error, with a string that is not UTF-8, or by a seventh joystick, which
/// has no slot.
pub enum DtrOutcome {
    Done(DtrState),
    Failed(RobotPacketParseError),
    BadUtf8,
    NoSlot,
}

/// One step of reading the tags of a packet.
pub enum DtrStep {
    Continue(nat, DtrState),
    Stop(DtrOutcome),
}

/// Reading the tag of a packet at `i` (inside `d`), over `st`: a length byte
/// counting itself, a tag byte and the rest: 7 the countdown (4 bytes), 15 a
/// date, 16 a time zone name (the rest), 12 a joystick, put in the first free
/// slot. A tag that does not use up its bytes, or any other tag, is an error.
pub open spec fn dtr_step(d: Seq<u8>, i: nat, st: DtrState) -> DtrStep {
    let len = d.len();
    if i + 2 > len {
        DtrStep::Stop(
            DtrOutcome::Failed(
                RobotPacketParseError::BufferReaderError(overflow_error(len, i + 1, 1)),
            ),
        )
    } else {
        let length = ((d[i as int] + 255) % 256) as nat;
        let id = d[i as int + 1];
        let s = i + 2;
        if s + length > len {
            DtrStep::Stop(
                DtrOutcome::Failed(
                    RobotPacketParseError::BufferReaderError(overflow_error(len, s, length)),
                ),
            )
        } else {
            let sub = d.subrange(s as int, (s + length) as int);
            let next = s + length;
            dtr_tag_body(id, sub, next, st)
        }
    }
}

/// What the tag `id` with the bytes `sub` does, the next tag being at `next`:
/// 7 the countdown (4 bytes), 15 a date, 16 a time zone name (the rest), 12 a
/// joystick, put in the first free slot. A tag that does not use up its bytes,
/// or any other tag, is an error.
#[verifier::opaque]
pub open spec fn dtr_tag_body(id: u8, sub: Seq<u8>, next: nat, st: DtrState) -> DtrStep {
    let length = sub.len();
    if id == 7 {
        if length < 4 {
            DtrStep::Stop(
                DtrOutcome::Failed(
                    RobotPacketParseError::BufferReaderError(overflow_error(length, 0, 4)),
                ),
            )
        } else if length != 4 {
            DtrStep::Stop(
                DtrOutcome::Failed(
                    RobotPacketParseError::BufferReaderError(
                        BufferReaderError::UnreadData { remaining: (length - 4) as usize },
                    ),
                ),
            )
        } else {
            DtrStep::Continue(next, DtrState { countdown: Some(be_value(sub) as u32), ..st })
        }
    } else if id == 15 {
        match time_read(sub, 0) {
            (Err(e), _) => DtrStep::Stop(DtrOutcome::Failed(e)),
            (Ok(t), e) => if e != length {
                DtrStep::Stop(
                    DtrOutcome::Failed(
                        RobotPacketParseError::BufferReaderError(
                            BufferReaderError::UnreadData {
                                remaining: (length - e) as usize,
                            },
                        ),
                    ),
                )
            } else {
                DtrStep::Continue(next, DtrState { time: Some(t), ..st })
            },
        }
    } else if id == 16 {
        if !vstd::utf8::valid_utf8(sub) {
            DtrStep::Stop(DtrOutcome::BadUtf8)
        } else if !tz_name_known(vstd::utf8::decode_utf8(sub)) {
            DtrStep::Stop(DtrOutcome::Failed(RobotPacketParseError::InvalidTimeZoneData))
        } else {
            DtrStep::Continue(
                next,
                DtrState { zone: Some(vstd::utf8::decode_utf8(sub)), ..st },
            )
        }
    } else if id == 12 {
        if count_present(st.joys) >= 6 {
            DtrStep::Stop(DtrOutcome::NoSlot)
        } else {
            match joystick_read(sub, 0, empty_joystick()) {
                (Err(e), _) => DtrStep::Stop(
                    DtrOutcome::Failed(RobotPacketParseError::JoystickParseError(e)),
                ),
                (Ok(j), _) => DtrStep::Continue(
                    next,
                    DtrState {
                        joys: st.joys.update(count_present(st.joys) as int, Some(j)),
                        ..st
                    },
                ),
            }
        }
    } else {
        DtrStep::Stop(
            DtrOutcome::Failed(RobotPacketParseError::DriverToRobotInvalidExtraTag(id)),
        )
    }
}

/// What each tag id of a driver station packet carries: 7 the match
/// countdown, four bytes high byte first; 15 the date, changing nothing else;
/// 16 the time zone, changing nothing else; 12 a joystick, put in the first
/// free slot and changing nothing else; any other id is refused.
pub proof fn law_dtr_tag_ids(id: u8, sub: Seq<u8>, next: nat, st: DtrState)
    ensures
        id != 7 && id != 12 && id != 15 && id != 16 ==> dtr_tag_body(id, sub, next, st)
            == DtrStep::Stop(
            DtrOutcome::Failed(RobotPacketParseError::DriverToRobotInvalidExtraTag(id)),
        ),
        id == 7 && sub.len() == 4 ==> dtr_tag_body(id, sub, next, st) == DtrStep::Continue(
            next,
            DtrState {
                countdown: Some(
                    (((sub[0] as int * 256 + sub[1] as int) * 256 + sub[2] as int) * 256
                        + sub[3] as int) as u32,
                ),
                ..st
            },
        ),
        id == 15 ==> (dtr_tag_body(id, sub, next, st) matches DtrStep::Continue(_, st2) ==> st2
            == DtrState { time: st2.time, ..st }),
        id == 16 ==> (dtr_tag_body(id, sub, next, st) matches DtrStep::Continue(_, st2) ==> st2
            == DtrState { zone: st2.zone, ..st }),
        id == 12 && st.joys.len() == 6 ==> (dtr_tag_body(id, sub, next, st) matches DtrStep::Continue(_, st2) ==> st2
            == DtrState { joys: st2.joys, ..st } && count_present(st.joys) < 6 && st2.joys[count_present(
            st.joys,
        ) as int] is Some),
{
    reveal(dtr_tag_body);
    if id == 7 && sub.len() == 4 {
        assert(sub.drop_last().drop_last().drop_last().drop_last() =~= Seq::<u8>::empty());
        assert(be_value(sub) == ((sub[0] as int * 256 + sub[1] as int) * 256 + sub[2] as int) * 256
            + sub[3] as int) by {
            reveal_with_fuel(be_value, 5);
        }
    }
}

/// Reading the tags of a packet from `d` at `i` on, over `st`, one
/// [`dtr_step`] after another to the end of `d`.
pub open spec fn dtr_tags(d: Seq<u8>, i: nat, st: DtrState) -> DtrOutcome
    decreases d.len() - i,
{
    if i >= d.len() {
        DtrOutcome::Done(st)
    } else {
        match dtr_step(d, i, st) {
            DtrStep::Continue(next, st2) => if i < next <= d.len() {
                dtr_tags(d, next, st2)
            } else {
                DtrOutcome::Done(st2)
            },
            DtrStep::Stop(o) => o,
        }
    }
}

/// What the tags of a packet start from: nothing read.
pub open spec fn dtr_start() -> DtrState {
    DtrState {
        countdown: None,
        time: None,
        zone: None,
        joys: Seq::new(6, |i: int| None::<JoystickView>),
    }
}

/// The state a packet under construction holds.
pub open spec fn dtr_state_of(p: DriverstationToRobotPacket) -> DtrState {
    DtrState {
        countdown: p.countdown,
        time: p.time_data.time,
        zone: zone_view(p.time_data.time_zone),
        joys: p.joystick_data@,
    }
}

/// The usage tags error for a control code with the reserved bit, or a
/// request code with a reserved bit, set.
pub open spec fn dtr_codes_error(c: DriverstationToRobotCorePacketDate) -> Option<
    RobotPacketParseError,
> {
    if decode_control_code(c.control_code.0).reserved {
        Some(RobotPacketParseError::InvalidControlCode(c.control_code.0))
    } else if decode_robot_request_code(c.request_code.0).reserved_0 || decode_robot_request_code(
        c.request_code.0,
    ).reserved_1 != 0 {
        Some(RobotPacketParseError::InvalidRequestCode(c.request_code.0))
    } else {
        None
    }
}

/// Whether reading a whole packet from `d` at `i` would need a seventh
/// joystick slot.
pub open spec fn dtr_needs_seventh_slot(d: Seq<u8>, i: nat) -> bool {
    let (core, end) = dtr_core_read(
        d,
        i,
        |v: u8| RobotPacketParseError::RobotToDriverInvalidUsageTag(v),
    );
    match core {
        Ok(c) => dtr_codes_error(c) is None && dtr_tags(d, end, dtr_start()) is NoSlot,
        Err(_) => false,
    }
}

/// Reads a countdown tag's bytes, all of `sub`.
fn tag_countdown(read: &mut DriverstationToRobotPacket, sub: &mut BufferReader) -> (r: Result<
    (),
    RobotPacketParseError,
>)
    requires
        old(sub).spec_index() == 0,
        old(sub).spec_buf().len() <= 255,
    ensures
        final(read).core_data == old(read).core_data,
        final(read).time_data == old(read).time_data,
        final(read).joystick_data == old(read).joystick_data,
        ({
            let n = old(sub).spec_buf().len();
            if n < 4 {
                r == Err::<(), RobotPacketParseError>(
                    RobotPacketParseError::BufferReaderError(overflow_error(n, 0, 4)),
                )
            } else if n != 4 {
                r == Err::<(), RobotPacketParseError>(
                    RobotPacketParseError::BufferReaderError(
                        BufferReaderError::UnreadData { remaining: (n - 4) as usize },
                    ),
                )
            } else {
                r is Ok && final(read).countdown == Some(be_value(old(sub).spec_buf()) as u32)
            }
        }),
{
    let v = lift_err(sub.read_u32())?;
    lift_err(sub.assert_empty())?;
    proof {
        assert(old(sub).next_bytes(4) =~= old(sub).spec_buf());
    }
    read.countdown = Some(v);
    Ok(())
}

/// Reads a date tag's bytes, all of `sub`.
fn tag_time(read: &mut DriverstationToRobotPacket, sub: &mut BufferReader) -> (r: Result<
    (),
    RobotPacketParseError,
>)
    requires
        old(sub).spec_index() == 0,
        old(sub).spec_buf().len() <= 255,
    ensures
        final(read).core_data == old(read).core_data,
        final(read).countdown == old(read).countdown,
        final(read).time_data.time_zone == old(read).time_data.time_zone,
        final(read).joystick_data == old(read).joystick_data,
        ({
            let n = old(sub).spec_buf().len();
            match time_read(old(sub).spec_buf(), 0) {
                (Err(e), _) => r == Err::<(), RobotPacketParseError>(e),
                (Ok(t), e) => if e != n {
                    r == Err::<(), RobotPacketParseError>(
                        RobotPacketParseError::BufferReaderError(
                            BufferReaderError::UnreadData { remaining: (n - e) as usize },
                        ),
                    )
                } else {
                    r is Ok && final(read).time_data.time == Some(t)
                },
            }
        }),
{
    read.time_data.read_time_data(sub)?;
    lift_err(sub.assert_empty())
}

/// Reads a time zone tag's bytes, all of `sub`.
fn tag_zone(read: &mut DriverstationToRobotPacket, sub: &mut BufferReader) -> (r: Result<
    (),
    RobotPacketParseError,
>)
    requires
        old(sub).spec_index() == 0,
        old(sub).spec_buf().len() <= 255,
    ensures
        final(read).core_data == old(read).core_data,
        final(read).countdown == old(read).countdown,
        final(read).time_data.time == old(read).time_data.time,
        final(read).joystick_data == old(read).joystick_data,
        ({
            let b = old(sub).spec_buf();
            if !vstd::utf8::valid_utf8(b) {
                r matches Err(
                    RobotPacketParseError::BufferReaderError(BufferReaderError::ParseUft8Error(_)),
                )
            } else if !tz_name_known(vstd::utf8::decode_utf8(b)) {
                r == Err::<(), RobotPacketParseError>(RobotPacketParseError::InvalidTimeZoneData)
            } else {
                r is Ok && zone_view(final(read).time_data.time_zone) == Some(
                    vstd::utf8::decode_utf8(b),
                )
            }
        }),
{
    read.time_data.read_time_zone_date(sub)?;
    lift_err(sub.assert_empty())
}

/// Reads a joystick tag's bytes, all of `sub`, into the first free slot.
fn tag_joystick(read: &mut DriverstationToRobotPacket, sub: &mut BufferReader) -> (r: Result<
    (),
    RobotPacketParseError,
>)
    requires
        old(sub).spec_index() == 0,
        old(sub).spec_buf().len() <= 255,
        old(read).joystick_data@.len() == 6,
        count_present(old(read).joystick_data@) < 6,
    ensures
        final(read).core_data == old(read).core_data,
        final(read).countdown == old(read).countdown,
        final(read).time_data == old(read).time_data,
        final(read).joystick_data@.len() == 6,
        match joystick_read(old(sub).spec_buf(), 0, empty_joystick()) {
            (Err(e), _) => r == Err::<(), RobotPacketParseError>(
                RobotPacketParseError::JoystickParseError(e),
            ),
            (Ok(j), _) => r is Ok && final(read).joystick_data@ == old(read).joystick_data@.update(
                count_present(old(read).joystick_data@) as int,
                Some(j),
            ),
        },
{
    let c = read.joystick_data.count();
    let j = match Joystick::create_from_buf(sub) {
        Ok(j) => j,
        Err(e) => {
            return Err(RobotPacketParseError::JoystickParseError(e));
        },
    };
    read.joystick_data.insert(c, j);
    lift_err(sub.assert_empty())
}

/// Reads the tag `id` whose bytes are all of `sub` into `read`
/// ([`dtr_tag_body`]).
fn dtr_tag_dispatch(
    read: &mut DriverstationToRobotPacket,
    sub: &mut BufferReader,
    id: u8,
    Ghost(next): Ghost<nat>,
) -> (r: Result<(), RobotPacketParseError>)
    requires
        old(sub).spec_index() == 0,
        old(sub).spec_buf().len() <= 255,
        old(read).joystick_data@.len() == 6,
        !(dtr_tag_body(id, old(sub).spec_buf(), next, dtr_state_of(*old(read))) matches DtrStep::Stop(
            DtrOutcome::NoSlot,
        )),
    ensures
        final(read).core_data == old(read).core_data,
        final(read).joystick_data@.len() == 6,
        match dtr_tag_body(id, old(sub).spec_buf(), next, dtr_state_of(*old(read))) {
            DtrStep::Continue(n, st) => r is Ok && n == next && dtr_state_of(*final(read)) == st,
            DtrStep::Stop(DtrOutcome::Failed(e)) => r == Err::<(), RobotPacketParseError>(e),
            DtrStep::Stop(DtrOutcome::BadUtf8) => r matches Err(
                RobotPacketParseError::BufferReaderError(BufferReaderError::ParseUft8Error(_)),
            ),
            DtrStep::Stop(_) => false,
        },
{
    proof {
        reveal(dtr_tag_body);
    }
    if id == 7 {
        tag_countdown(read, sub)
    } else if id == 15 {
        tag_time(read, sub)
    } else if id == 16 {
        tag_zone(read, sub)
    } else if id == 12 {
        tag_joystick(read, sub)
    } else {
        Err(RobotPacketParseError::DriverToRobotInvalidExtraTag(id))
    }
}

/// Reads the tag at the cursor into `read` ([`dtr_step`]).
fn dtr_read_tag(read: &mut DriverstationToRobotPacket, buf: &mut BufferReader) -> (r: Result<
    (),
    RobotPacketParseError,
>)
    requires
        old(buf).spec_index() < old(buf).spec_buf().len(),
        old(buf).spec_buf().len() + 0x2_0000 <= usize::MAX,
        old(read).joystick_data@.len() == 6,
        !(dtr_step(old(buf).spec_buf(), old(buf).spec_index(), dtr_state_of(*old(read))) matches DtrStep::Stop(DtrOutcome::NoSlot)),
    ensures
        final(buf).spec_buf() == old(buf).spec_buf(),
        final(read).core_data == old(read).core_data,
        final(read).joystick_data@.len() == 6,
        match dtr_step(old(buf).spec_buf(), old(buf).spec_index(), dtr_state_of(*old(read))) {
            DtrStep::Continue(next, st) => r is Ok && final(buf).spec_index() == next
                && old(buf).spec_index() < next <= old(buf).spec_buf().len() && dtr_state_of(
                *final(read),
            ) == st,
            DtrStep::Stop(DtrOutcome::Failed(e)) => r == Err::<(), RobotPacketParseError>(e),
            DtrStep::Stop(DtrOutcome::BadUtf8) => r matches Err(
                RobotPacketParseError::BufferReaderError(BufferReaderError::ParseUft8Error(_)),
            ),
            DtrStep::Stop(_) => false,
        },
{
    proof {
        buf.lemma_len_bound();
    }
    let ghost d = buf.spec_buf();
    let ghost i = buf.spec_index();
    let lb = lift_err(buf.read_u8())?;
    let length: u8 = if lb == 0 {
        255
    } else {
        lb - 1
    };
    let extra_id = lift_err(buf.read_u8())?;
    let bytes = lift_err(buf.read_amount(length as usize))?;
    let mut sub = BufferReader::new(bytes);
    dtr_tag_dispatch(read, &mut sub, extra_id, Ghost(buf.spec_index()))
}

impl DriverstationToRobotPacket {
    /// Whether reading a whole packet at the cursor would come to a seventh
    /// joystick, which [`Self::create_from_buf`] does not accept; the cursor
    /// does not move.
    pub fn needs_seventh_slot(buf: &BufferReader) -> (r: bool)
        requires
            buf.headroom(),
        ensures
            r == dtr_needs_seventh_slot(buf.spec_buf(), buf.spec_index()),
    {
        let mut b = *buf;
        proof {
            b.lemma_len_bound();
        }
        let ghost d = b.spec_buf();
        let core_data = match read_core(&mut b) {
            Ok(c) => c,
            Err(_) => return false,
        };
        if core_data.control_code.is_invalid() || core_data.request_code.is_invalid() {
            return false;
        }
        let mut read = DriverstationToRobotPacket {
            core_data,
            countdown: None,
            time_data: TimeData::new(),
            joystick_data: Joysticks::default(),
        };
        let ghost start = b.spec_index();
        proof {
            assert(dtr_state_of(read) == dtr_start()) by {
                assert(read.joystick_data@ =~= dtr_start().joys);
            }
            b.lemma_len_bound();
        }
        while b.has_more()
            invariant
                b.spec_buf() == d,
                d == buf.spec_buf(),
                b.spec_index() <= d.len(),
                d.len() + 0x2_0000 <= usize::MAX,
                read.joystick_data@.len() == 6,
                dtr_needs_seventh_slot(d, buf.spec_index()) == (dtr_tags(
                    d,
                    b.spec_index(),
                    dtr_state_of(read),
                ) is NoSlot),
            decreases d.len() - b.spec_index(),
        {
            let rem = b.remaining_packet_data();
            if rem >= 2 {
                let mut p = b;
                let lb = match p.read_u8() {
                    Ok(v) => v,
                    Err(_) => return false,
                };
                let id = match p.read_u8() {
                    Ok(v) => v,
                    Err(_) => return false,
                };
                let length: usize = if lb == 0 {
                    255
                } else {
                    (lb - 1) as usize
                };
                if id == 12 && length <= rem - 2 && read.joystick_data.count() >= 6 {
                    proof {
                        reveal(dtr_tag_body);
                    }
                    return true;
                }
            }
            proof {
                reveal(dtr_tag_body);
            }
            match dtr_read_tag(&mut read, &mut b) {
                Ok(()) => {},
                Err(_) => return false,
            }
        }
        false
    }

    /// Reads a whole packet: the fixed part ([`dtr_core_read`], a bad version
    /// refused as an invalid usage tag), refusing reserved bits in the control
    /// and request codes, then the tags to the end of the buffer
    /// ([`dtr_tags`]). A packet with a seventh joystick is not accepted.
    pub fn create_from_buf(buf: &mut BufferReader) -> (r: Result<Self, RobotPacketParseError>)
        requires
            old(buf).headroom(),
            !dtr_needs_seventh_slot(old(buf).spec_buf(), old(buf).spec_index()),
        ensures
            ({
                let d = old(buf).spec_buf();
                let (core, end) = dtr_core_read(
                    d,
                    old(buf).spec_index(),
                    |v: u8| RobotPacketParseError::RobotToDriverInvalidUsageTag(v),
                );
                match core {
                    Err(e) => r matches Err(e2) && e2 == e,
                    Ok(c) => match dtr_codes_error(c) {
                        Some(e) => r matches Err(e2) && e2 == e,
                        None => match dtr_tags(d, end, dtr_start()) {
                            DtrOutcome::Done(st) => r matches Ok(p) && p.core_data == c
                                && dtr_state_of(p) == st,
                            DtrOutcome::Failed(e) => r matches Err(e2) && e2 == e,
                            DtrOutcome::BadUtf8 => r matches Err(
                                RobotPacketParseError::BufferReaderError(
                                    BufferReaderError::ParseUft8Error(_),
                                ),
                            ),
                            DtrOutcome::NoSlot => false,
                        },
                    },
                }
            }),
    {
        let ghost d = buf.spec_buf();
        let core_data = read_core(buf)?;
        if core_data.control_code.is_invalid() {
            return Err(RobotPacketParseError::InvalidControlCode(core_data.control_code.to_bits()));
        }
        if core_data.request_code.is_invalid() {
            return Err(RobotPacketParseError::InvalidRequestCode(core_data.request_code.to_bits()));
        }
        let mut read = DriverstationToRobotPacket {
            core_data,
            countdown: None,
            time_data: TimeData::new(),
            joystick_data: Joysticks::default(),
        };
        let ghost start = buf.spec_index();
        proof {
            assert(dtr_state_of(read) == dtr_start()) by {
                assert(read.joystick_data@ =~= dtr_start().joys);
            }
            buf.lemma_len_bound();
        }
        while buf.has_more()
            invariant
                buf.spec_buf() == d,
                buf.spec_index() <= d.len(),
                d.len() + 0x2_0000 <= usize::MAX,
                read.core_data == core_data,
                read.joystick_data@.len() == 6,
                d == old(buf).spec_buf(),
                dtr_core_read(
                    old(buf).spec_buf(),
                    old(buf).spec_index(),
                    |v: u8| RobotPacketParseError::RobotToDriverInvalidUsageTag(v),
                ) == (Ok::<DriverstationToRobotCorePacketDate, RobotPacketParseError>(core_data), start),
                dtr_codes_error(core_data) is None,
                dtr_tags(d, start, dtr_start()) == dtr_tags(d, buf.spec_index(), dtr_state_of(read)),
                !(dtr_tags(d, buf.spec_index(), dtr_state_of(read)) is NoSlot),
            decreases d.len() - buf.spec_index(),
        {
            dtr_read_tag(&mut read, buf)?;
        }
        Ok(read)
    }
}

/// One tag read into a packet that already holds data, from `d` at `i`, over
/// `st` with `joy` joystick tags seen: a two-byte length and that many bytes.
/// No bytes is no tag. Otherwise the countdown, date and time zone are
/// forgotten and the first byte says what follows: 7 the countdown (4 bytes),
/// 15 a date, 16 a time zone name that runs past the bytes, so it always fails,
/// 12 an empty joystick slot (at most 6). A tag that does not use up its bytes,
/// or any other tag, is an error.
pub open spec fn dtr_into_step(d: Seq<u8>, i: nat, st: DtrState, joy: nat) -> Result<
    (nat, DtrState, nat),
    RobotPacketParseError,
> {
    let len = d.len();
    if i + 2 > len {
        Err(RobotPacketParseError::BufferReaderError(overflow_error(len, i, 2)))
    } else {
        let n = be_value(d.subrange(i as int, i as int + 2));
        let start = i + 2;
        if start + n > len {
            Err(RobotPacketParseError::BufferReaderError(overflow_error(len, start, n)))
        } else if n == 0 {
            Ok((start, st, joy))
        } else {
            let sub = d.subrange(start as int, (start + n) as int);
            let next = start + n;
            let tag = sub[0];
            let cleared = DtrState { countdown: None, time: None, zone: None, ..st };
            if tag == 7 {
                if n < 5 {
                    Err(RobotPacketParseError::BufferReaderError(overflow_error(n, 1, 4)))
                } else if n != 5 {
                    Err(
                        RobotPacketParseError::BufferReaderError(
                            BufferReaderError::UnreadData { remaining: (n - 5) as usize },
                        ),
                    )
                } else {
                    Ok(
                        (
                            next,
                            DtrState {
                                countdown: Some(be_value(sub.subrange(1, 5)) as u32),
                                ..cleared
                            },
                            joy,
                        ),
                    )
                }
            } else if tag == 15 {
                match time_read(sub, 1) {
                    (Err(e), _) => Err(e),
                    (Ok(t), e) => if e != n {
                        Err(
                            RobotPacketParseError::BufferReaderError(
                                BufferReaderError::UnreadData { remaining: (n - e) as usize },
                            ),
                        )
                    } else {
                        Ok((next, DtrState { time: Some(t), ..cleared }, joy))
                    },
                }
            } else if tag == 16 {
                Err(RobotPacketParseError::BufferReaderError(overflow_error(n, 1, n)))
            } else if tag == 12 {
                if joy >= 6 {
                    Err(RobotPacketParseError::TooManyJoysticksInPacket)
                } else if n != 1 {
                    Err(
                        RobotPacketParseError::BufferReaderError(
                            BufferReaderError::UnreadData { remaining: (n - 1) as usize },
                        ),
                    )
                } else {
                    Ok(
                        (
                            next,
                            DtrState { joys: cleared.joys.update(joy as int, None), ..cleared },
                            joy + 1,
                        ),
                    )
                }
            } else {
                Err(RobotPacketParseError::DriverToRobotInvalidExtraTag(tag))
            }
        }
    }
}

/// The tags read into a packet from `d` at `i` on, one [`dtr_into_step`]
/// after another to the end of `d`: the state and joystick count they end
/// with, or the first error.
pub open spec fn dtr_into_tags(d: Seq<u8>, i: nat, st: DtrState, joy: nat) -> Result<
    (DtrState, nat),
    RobotPacketParseError,
>
    decreases d.len() - i,
{
    if i >= d.len() {
        Ok((st, joy))
    } else {
        match dtr_into_step(d, i, st, joy) {
            Ok((next, st2, j2)) => if i < next <= d.len() {
                dtr_into_tags(d, next, st2, j2)
            } else {
                Ok((st2, j2))
            },
            Err(e) => Err(e),
        }
    }
}

/// Reads one tag into `read` ([`dtr_into_step`]); returns the new joystick
/// count.
fn into_read_tag(read: &mut DriverstationToRobotPacket, buf: &mut BufferReader, joy: usize) -> (r:
    Result<usize, RobotPacketParseError>)
    requires
        old(buf).spec_index() < old(buf).spec_buf().len(),
        old(buf).spec_buf().len() + 0x2_0000 <= usize::MAX,
        old(read).joystick_data@.len() == 6,
        joy <= 6,
    ensures
        final(buf).spec_buf() == old(buf).spec_buf(),
        final(read).core_data == old(read).core_data,
        final(read).joystick_data@.len() == 6,
        match dtr_into_step(
            old(buf).spec_buf(),
            old(buf).spec_index(),
            dtr_state_of(*old(read)),
            joy as nat,
        ) {
            Ok((next, st, j)) => r == Ok::<usize, RobotPacketParseError>(j as usize)
                && final(buf).spec_index() == next && old(buf).spec_index() < next <= old(
                buf,
            ).spec_buf().len() && dtr_state_of(*final(read)) == st && j <= 6,
            Err(e) => r == Err::<usize, RobotPacketParseError>(e),
        },
{
    proof {
        buf.lemma_len_bound();
    }
    let ghost d = buf.spec_buf();
    let ghost i = buf.spec_index();
    let mut sub = lift_err(buf.read_known_length_u16())?;
    if !sub.has_more() {
        return Ok(joy);
    }
    let ghost sb = sub.spec_buf();
    let tag = lift_err(sub.read_u8())?;
    read.countdown = None;
    read.time_data.empty();
    let mut j = joy;
    if tag == 7 {
        let v = lift_err(sub.read_u32())?;
        read.countdown = Some(v);
        proof {
            assert(sb.subrange(1, 5) =~= sub.spec_buf().subrange(1, 5));
        }
    } else if tag == 15 {
        read.time_data.read_time_data(&mut sub)?;
    } else if tag == 16 {
        read.time_data.read_time_zone_date(&mut sub)?;
    } else if tag == 12 {
        if j < 6 {
            read.joystick_data.delete(j);
        } else {
            return Err(RobotPacketParseError::TooManyJoysticksInPacket);
        }
        j = j + 1;
    } else {
        return Err(RobotPacketParseError::DriverToRobotInvalidExtraTag(tag));
    }
    lift_err(sub.assert_empty())?;
    Ok(j)
}

impl<'a> ReadFromBuf<'a> for DriverstationToRobotPacket {
    type Error = RobotPacketParseError;

    /// Reads a whole packet into this one: the fixed part ([`dtr_core_read`],
    /// a bad version refused as version 1), then the tags to the end of the
    /// buffer ([`dtr_into_tags`]), after which the joystick slots past the
    /// joystick tags read are emptied.
    fn read_into_from_buf(&mut self, buf: &mut BufferReader<'a>) -> (r: Result<(), Self::Error>)
        ensures
            ({
                let d = old(buf).spec_buf();
                let (core, end) = dtr_core_read(
                    d,
                    old(buf).spec_index(),
                    |v: u8| RobotPacketParseError::RobotToDriverInvalidCommVersion(1),
                );
                match core {
                    Err(e) => r == Err::<(), RobotPacketParseError>(e) && final(self).core_data
                        == dtr_core_fill(old(self).core_data, d, old(buf).spec_index())
                        && dtr_state_of(*final(self)) == dtr_state_of(*old(self)),
                    Ok(c) => match dtr_into_tags(d, end, dtr_state_of(*old(self)), 0) {
                        Err(e) => r == Err::<(), RobotPacketParseError>(e),
                        Ok((st, joy)) => {
                            &&& r is Ok
                            &&& final(self).core_data == c
                            &&& final(self).countdown == st.countdown
                            &&& final(self).time_data.time == st.time
                            &&& zone_view(final(self).time_data.time_zone) == st.zone
                            &&& final(self).joystick_data@ == Seq::new(
                                6,
                                |k: int| if k < joy { st.joys[k] } else { None },
                            )
                        },
                    },
                }
            }),
    {
        proof {
            buf.lemma_len_bound();
        }
        let ghost d = buf.spec_buf();
        let ghost st0 = dtr_state_of(*self);
        self.core_data.read_into_from_buf(buf)?;
        let c = self.core_data;
        let ghost start = buf.spec_index();
        proof {
            self.joystick_data.lemma_len();
        }
        let mut joy: usize = 0;
        while buf.has_more()
            invariant
                buf.spec_buf() == d,
                buf.spec_index() <= d.len(),
                d.len() + 0x2_0000 <= usize::MAX,
                self.core_data == c,
                self.joystick_data@.len() == 6,
                joy <= 6,
                d == old(buf).spec_buf(),
                st0 == dtr_state_of(*old(self)),
                dtr_core_read(
                    old(buf).spec_buf(),
                    old(buf).spec_index(),
                    |v: u8| RobotPacketParseError::RobotToDriverInvalidCommVersion(1),
                ) == (Ok::<DriverstationToRobotCorePacketDate, RobotPacketParseError>(c), start),
                dtr_into_tags(d, start, st0, 0) == dtr_into_tags(
                    d,
                    buf.spec_index(),
                    dtr_state_of(*self),
                    joy as nat,
                ),
            decreases d.len() - buf.spec_index(),
        {
            let ghost i = buf.spec_index();
            let ghost sti = dtr_state_of(*self);
            match into_read_tag(self, buf, joy) {
                Ok(j) => {
                    joy = j;
                },
                Err(e) => {
                    proof {
                        assert(dtr_into_tags(d, i, sti, joy as nat) == Err::<
                            (DtrState, nat),
                            RobotPacketParseError,
                        >(e));
                    }
                    return Err(e);
                },
            }
        }
        let ghost st = dtr_state_of(*self);
        let ghost j0 = joy;
        let mut k = joy;
        while k < 6
            invariant
                j0 <= k <= 6,
                self.joystick_data@.len() == 6,
                forall|m: int| 0 <= m < j0 ==> self.joystick_data@[m] == st.joys[m],
                forall|m: int| j0 <= m < k ==> self.joystick_data@[m] is None,
                self.core_data == c,
                self.countdown == st.countdown,
                self.time_data.time == st.time,
                zone_view(self.time_data.time_zone) == st.zone,
            decreases 6 - k,
        {
            self.joystick_data.delete(k);
            k = k + 1;
        }
        proof {
            assert(self.joystick_data@ =~= Seq::new(
                6,
                |m: int| if m < j0 { st.joys[m] } else { None },
            ));
        }
        Ok(())
    }
}

/// The fixed part of a driver station packet, written and read back, is the
/// same, when its comm version is 1, the only one a read accepts; the read
/// ends where it does.
pub proof fn law_dtr_core_roundtrip(
    c: DriverstationToRobotCorePacketDate,
    bad_version: spec_fn(u8) -> RobotPacketParseError,
)
    requires
        c.tag_comm_version == 1,
    ensures
        dtr_core_read(dtr_core_wire(c), 0, bad_version) == (
            Ok::<DriverstationToRobotCorePacketDate, RobotPacketParseError>(c),
            6nat,
        ),
{
    let w = dtr_core_wire(c);
    lemma_be_bytes_len(c.sequence as nat, 2);
    assert(w.subrange(0, 2) =~= be_bytes(c.sequence as nat, 2));
    lemma_be_value_of_bytes(c.sequence as nat, 2);
    assert(pow256(2) == 65536) by {
        reveal_with_fuel(pow256, 3);
    }
    law_station_code_roundtrip(c.station, 0);
}

impl WriteToBuff for DriverstationToRobotPacket {
    type Error = RobotPacketParseError;

    /// Writes the fixed part of the packet, [`dtr_core_wire`], field by field:
    /// the sequence, then each byte after it; the date and the joysticks are
    /// not written.
    fn write_to_buf<T: BufferWritter>(&self, buf: &mut T) -> (r: Result<(), Self::Error>)
        ensures
            wrote_pieces(
                *old(buf),
                *final(buf),
                dtr_core_wire(self.core_data),
                seq![2usize, 3, 4, 5, 6],
                match r {
                    Ok(()) => Ok::<(), BufferWritterError>(()),
                    Err(RobotPacketParseError::BufferWriteError(e)) => Err(e),
                    Err(_) => Err(BufferWritterError::BufferTooSmall),
                },
            ),
            r matches Err(e) ==> e is BufferWriteError,
    {
        let s = be2(self.core_data.sequence);
        let bytes = [
            s[0],
            s[1],
            self.core_data.tag_comm_version,
            self.core_data.control_code.to_bits(),
            self.core_data.request_code.to_bits(),
            self.core_data.station.to_u8(),
        ];
        let cuts: [usize; 5] = [2, 3, 4, 5, 6];
        proof {
            assert(bytes@ =~= dtr_core_wire(self.core_data));
            assert(cuts@ =~= seq![2usize, 3, 4, 5, 6]);
        }
        match write_in_pieces(buf, bytes.as_slice(), cuts.as_slice()) {
            Ok(()) => Ok(()),
            Err(e) => Err(RobotPacketParseError::BufferWriteError(e)),
        }
    }
}

} // verus!
