use vstd::prelude::*;

use crate::buffer_reader::{overflow_error, BufferReader, BufferReaderError, CreateFromBuf};
use crate::driver_to_robot::{dtr_core_read, DriverstationToRobotCorePacketDate};
use crate::error::RobotPacketParseError;
use crate::buffer_reader::be_value;
use crate::joystick::{empty_joystick, joystick_read, Joystick, JoystickView};
use crate::robot_to_driver::lift_err;
use crate::time_data::{time_read, zone_view, TimeData, TimeFields};

verus! {

/// One delivery to a [`PacketTagAcceptor`], its values by their views.
pub enum TagEvent {
    Joystick(usize, Option<JoystickView>),
    Countdown(Option<u32>),
    TimeData(Option<TimeFields>, Option<Seq<char>>),
}

pub open spec fn opt_joystick_view(j: Option<Joystick>) -> Option<JoystickView> {
    match j {
        Some(j) => Some(j@),
        None => None,
    }
}

/// Receives what the tags of a driver station packet carry. `received` is the
/// record of every delivery so far, oldest first; each method adds its own.
pub trait PacketTagAcceptor {
    /// The record the method contracts speak of. An implementation that keeps
    /// this default, empty record cannot meet those contracts, so what the
    /// readers state of the record holds only of implementations that define
    /// it and are verified; of one that keeps the default (any built outside
    /// verification) nothing is stated about the calls it receives.
    open spec fn received(&self) -> Seq<TagEvent> {
        Seq::empty()
    }

    fn accept_joystick(&mut self, index: usize, joystick: Option<Joystick>)
        ensures
            final(self).received() == old(self).received().push(
                TagEvent::Joystick(index, opt_joystick_view(joystick)),
            ),
    ;

    /// The match countdown, as the bits of its 32-bit float.
    fn accept_countdown(&mut self, countdown: Option<u32>)
        ensures
            final(self).received() == old(self).received().push(TagEvent::Countdown(countdown)),
    ;

    fn accept_time_data(&mut self, timedata: TimeData)
        ensures
            final(self).received() == old(self).received().push(
                TagEvent::TimeData(timedata.time, zone_view(timedata.time_zone)),
            ),
    ;
}

/// Reads a driver station packet in two steps: its fixed part, then its tags.
pub struct DriverToRobotPacketReader<'a, 'b> {
    pub reader: &'b mut BufferReader<'a>,
}

/// One step of reading the tags for an acceptor.
pub enum ReaderStep {
    Continue(nat, nat),
    Stop(RobotPacketParseError),
}

/// Reading the tag at `i` of `d` when `idx` joysticks came before: a length
/// byte and that many bytes, an empty tag skipped; then the tag byte and what
/// it carries: 7 a countdown (4 bytes), 15 a date, 12 a joystick (at most 6);
/// a time zone name (16) is read as long as the whole tag and so never fits.
/// A tag that does not use up its bytes, or any other tag, is an error.
pub open spec fn reader_step(d: Seq<u8>, i: nat, idx: nat) -> ReaderStep {
    let len = d.len();
    let n = d[i as int] as nat;
    let s = i + 1;
    if s + n > len {
        ReaderStep::Stop(RobotPacketParseError::BufferReaderError(overflow_error(len, s, n)))
    } else if n == 0 {
        ReaderStep::Continue(s, idx)
    } else {
        let sub = d.subrange(s as int, (s + n) as int);
        let tag = sub[0];
        let next = s + n;
        if tag == 7 {
            if n < 5 {
                ReaderStep::Stop(
                    RobotPacketParseError::BufferReaderError(overflow_error(n, 1, 4)),
                )
            } else if n != 5 {
                ReaderStep::Stop(
                    RobotPacketParseError::BufferReaderError(
                        BufferReaderError::UnreadData { remaining: (n - 5) as usize },
                    ),
                )
            } else {
                ReaderStep::Continue(next, idx)
            }
        } else if tag == 15 {
            match time_read(sub, 1) {
                (Err(e), _) => ReaderStep::Stop(e),
                (Ok(_), e) => if e != n {
                    ReaderStep::Stop(
                        RobotPacketParseError::BufferReaderError(
                            BufferReaderError::UnreadData { remaining: (n - e) as usize },
                        ),
                    )
                } else {
                    ReaderStep::Continue(next, idx)
                },
            }
        } else if tag == 16 {
            ReaderStep::Stop(RobotPacketParseError::BufferReaderError(overflow_error(n, 1, n)))
        } else if tag == 12 {
            if idx >= 6 {
                ReaderStep::Stop(RobotPacketParseError::TooManyJoysticksInPacket)
            } else {
                match joystick_read(sub, 1, empty_joystick()) {
                    (Err(e), _) => ReaderStep::Stop(RobotPacketParseError::JoystickParseError(e)),
                    (Ok(_), _) => ReaderStep::Continue(next, idx + 1),
                }
            }
        } else {
            ReaderStep::Stop(RobotPacketParseError::DriverToRobotInvalidExtraTag(tag))
        }
    }
}

/// Reading the tags of `d` from `i` on, one [`reader_step`] after another.
pub open spec fn reader_tags(d: Seq<u8>, i: nat, idx: nat) -> Result<(), RobotPacketParseError>
    decreases d.len() - i,
{
    if i >= d.len() {
        Ok(())
    } else {
        match reader_step(d, i, idx) {
            ReaderStep::Continue(next, idx2) => if next > i {
                reader_tags(d, next, idx2)
            } else {
                Ok(())
            },
            ReaderStep::Stop(e) => Err(e),
        }
    }
}

/// What a tag that reads well (a [`ReaderStep::Continue`] at `i`) carries: a
/// joystick, a countdown or a date, each when the tag is one of those.
pub open spec fn step_joystick(d: Seq<u8>, i: nat) -> Option<JoystickView> {
    let n = d[i as int] as nat;
    let sub = d.subrange(i + 1 as int, (i + 1 + n) as int);
    if n > 0 && sub[0] == 12 {
        match joystick_read(sub, 1, empty_joystick()).0 {
            Ok(j) => Some(j),
            Err(_) => None,
        }
    } else {
        None
    }
}

pub open spec fn step_countdown(d: Seq<u8>, i: nat, cd: Option<u32>) -> Option<u32> {
    let n = d[i as int] as nat;
    let sub = d.subrange(i + 1 as int, (i + 1 + n) as int);
    if n > 0 && sub[0] == 7 {
        Some(be_value(sub.subrange(1, 5)) as u32)
    } else {
        cd
    }
}

pub open spec fn step_time(d: Seq<u8>, i: nat, tm: Option<TimeFields>) -> Option<TimeFields> {
    let n = d[i as int] as nat;
    let sub = d.subrange(i + 1 as int, (i + 1 + n) as int);
    if n > 0 && sub[0] == 15 {
        match time_read(sub, 1).0 {
            Ok(t) => Some(t),
            Err(_) => tm,
        }
    } else {
        tm
    }
}

/// What follows the tags once all read well: the countdown, an empty slot for
/// every joystick from `idx` to the sixth, and the date without a time zone.
pub open spec fn closing_events(idx: nat, cd: Option<u32>, tm: Option<TimeFields>) -> Seq<TagEvent> {
    seq![TagEvent::Countdown(cd)] + Seq::new(
        (6 - idx) as nat,
        |k: int| TagEvent::Joystick((idx + k) as usize, None),
    ) + seq![TagEvent::TimeData(tm, None)]
}

/// The deliveries reading the tags of `d` from `i` on makes, after `ev`, with
/// `idx` joysticks, countdown `cd` and date `tm` so far: each joystick as it
/// comes; if every tag reads well, then [`closing_events`]; if one fails,
/// nothing more.
pub open spec fn reader_events(
    d: Seq<u8>,
    i: nat,
    idx: nat,
    cd: Option<u32>,
    tm: Option<TimeFields>,
    ev: Seq<TagEvent>,
) -> Seq<TagEvent>
    decreases d.len() - i,
{
    if i >= d.len() {
        ev + closing_events(idx, cd, tm)
    } else {
        match reader_step(d, i, idx) {
            ReaderStep::Continue(next, idx2) => {
                let ev2 = match step_joystick(d, i) {
                    Some(j) => ev.push(TagEvent::Joystick(idx as usize, Some(j))),
                    None => ev,
                };
                if next > i {
                    reader_events(d, next, idx2, step_countdown(d, i, cd), step_time(d, i, tm), ev2)
                } else {
                    ev2 + closing_events(idx2, step_countdown(d, i, cd), step_time(d, i, tm))
                }
            },
            ReaderStep::Stop(_) => ev,
        }
    }
}

/// The deliveries for joysticks `js` that came in slots `idx` on, in order.
pub open spec fn joystick_events(idx: nat, js: Seq<JoystickView>) -> Seq<TagEvent> {
    Seq::new(js.len(), |k: int| TagEvent::Joystick((idx + k) as usize, Some(js[k])))
}

/// The shape of [`reader_events`] when every tag reads well, with the
/// joysticks, countdown and date it found.
proof fn lemma_reader_events_shape(
    d: Seq<u8>,
    i: nat,
    idx: nat,
    cd: Option<u32>,
    tm: Option<TimeFields>,
    ev: Seq<TagEvent>,
) -> (w: (nat, Seq<JoystickView>, Option<u32>, Option<TimeFields>))
    requires
        idx <= 6,
        reader_tags(d, i, idx) is Ok,
    ensures
        idx <= w.0 <= 6,
        w.1.len() == w.0 - idx,
        reader_events(d, i, idx, cd, tm, ev) == ev + joystick_events(idx, w.1) + closing_events(
            w.0,
            w.2,
            w.3,
        ),
    decreases d.len() - i,
{
    if i >= d.len() {
        assert(joystick_events(idx, Seq::empty()) =~= Seq::<TagEvent>::empty());
        assert(ev + Seq::<TagEvent>::empty() =~= ev);
        (idx, Seq::empty(), cd, tm)
    } else {
        match reader_step(d, i, idx) {
            ReaderStep::Continue(next, idx2) => {
                let cd2 = step_countdown(d, i, cd);
                let tm2 = step_time(d, i, tm);
                let (ev2, here) = match step_joystick(d, i) {
                    Some(j) => (ev.push(TagEvent::Joystick(idx as usize, Some(j))), seq![j]),
                    None => (ev, Seq::<JoystickView>::empty()),
                };
                assert(idx2 == idx + here.len() && idx2 <= 6);
                assert(ev2 =~= ev + joystick_events(idx, here));
                if next > i {
                    let w = lemma_reader_events_shape(d, next, idx2, cd2, tm2, ev2);
                    let js = here + w.1;
                    assert(joystick_events(idx, here) + joystick_events(idx2, w.1)
                        =~= joystick_events(idx, js));
                    assert(ev2 + joystick_events(idx2, w.1) =~= ev + joystick_events(idx, js));
                    (w.0, js, w.2, w.3)
                } else {
                    (idx2, here, cd2, tm2)
                }
            },
            ReaderStep::Stop(_) => {
                (idx, Seq::empty(), cd, tm)
            },
        }
    }
}

/// Reading tags that all read well delivers, after what came before, each
/// joystick in the slot it came in, from `idx` on and in order; then the
/// countdown; then an empty joystick for each slot left up to the sixth; then
/// the date.
pub proof fn law_read_tags_order(
    d: Seq<u8>,
    i: nat,
    idx: nat,
    cd: Option<u32>,
    tm: Option<TimeFields>,
    ev: Seq<TagEvent>,
)
    requires
        idx <= 6,
        reader_tags(d, i, idx) is Ok,
    ensures
        exists|j: nat, js: Seq<JoystickView>, cd2: Option<u32>, tm2: Option<TimeFields>|
            #![trigger joystick_events(idx, js), closing_events(j, cd2, tm2)]
            idx <= j <= 6 && js.len() == j - idx && reader_events(d, i, idx, cd, tm, ev) == ev
                + joystick_events(idx, js) + closing_events(j, cd2, tm2),
{
    let w = lemma_reader_events_shape(d, i, idx, cd, tm, ev);
    assert(reader_events(d, i, idx, cd, tm, ev) == ev + joystick_events(idx, w.1)
        + closing_events(w.0, w.2, w.3));
}

/// Reads the tag at the cursor and hands what it carries on.
#[verifier::rlimit(40)]
fn reader_read_tag<A: PacketTagAcceptor>(
    buf: &mut BufferReader,
    idx: usize,
    acceptor: &mut A,
    countdown: &mut Option<u32>,
    timedata: &mut TimeData,
) -> (r: Result<usize, RobotPacketParseError>)
    requires
        old(buf).spec_index() < old(buf).spec_buf().len(),
        old(buf).spec_buf().len() + 0x2_0000 <= usize::MAX,
        idx <= 6,
        old(timedata).time_zone is None,
    ensures
        final(buf).spec_buf() == old(buf).spec_buf(),
        final(timedata).time_zone is None,
        match reader_step(old(buf).spec_buf(), old(buf).spec_index(), idx as nat) {
            ReaderStep::Continue(next, idx2) => {
                let d = old(buf).spec_buf();
                let i = old(buf).spec_index();
                &&& r == Ok::<usize, RobotPacketParseError>(idx2 as usize)
                &&& final(buf).spec_index() == next
                &&& idx2 <= 6
                &&& *final(countdown) == step_countdown(d, i, *old(countdown))
                &&& final(timedata).time == step_time(d, i, old(timedata).time)
                &&& final(acceptor).received() == match step_joystick(d, i) {
                    Some(j) => old(acceptor).received().push(TagEvent::Joystick(idx, Some(j))),
                    None => old(acceptor).received(),
                }
            },
            ReaderStep::Stop(e) => {
                &&& r == Err::<usize, RobotPacketParseError>(e)
                &&& final(acceptor).received() == old(acceptor).received()
            },
        },
{
    proof {
        buf.lemma_len_bound();
    }
    let mut sub = lift_err(buf.read_known_length_u8())?;
    if sub.remaining_packet_data() == 0 {
        return Ok(idx);
    }
    let ghost sd = sub.spec_buf();
    let tag = lift_err(sub.read_u8())?;
    let mut next_idx = idx;
    if tag == 7 {
        let c = lift_err(sub.read_u32())?;
        proof {
            assert(sd.subrange(1, 5) =~= sub.spec_buf().subrange(1, 5));
        }
        lift_err(sub.assert_empty())?;
        *countdown = Some(c);
        return Ok(next_idx);
    } else if tag == 15 {
        timedata.read_time_data(&mut sub)?;
    } else if tag == 16 {
        timedata.read_time_zone_date(&mut sub)?;
    } else if tag == 12 {
        if idx >= 6 {
            return Err(RobotPacketParseError::TooManyJoysticksInPacket);
        }
        let j = match Joystick::create_from_buf(&mut sub) {
            Ok(j) => j,
            Err(e) => {
                return Err(RobotPacketParseError::JoystickParseError(e));
            },
        };
        acceptor.accept_joystick(idx, Some(j));
        next_idx = idx + 1;
    } else {
        return Err(RobotPacketParseError::DriverToRobotInvalidExtraTag(tag));
    }
    lift_err(sub.assert_empty())?;
    Ok(next_idx)
}

impl<'a, 'b> DriverToRobotPacketReader<'a, 'b> {
    /// Reads the fixed part of the packet (as `create_from_buf` does) and
    /// hands back a reader for its tags.
    pub fn new(reader: &'b mut BufferReader<'a>) -> (r: Result<
        (DriverstationToRobotCorePacketDate, Self),
        RobotPacketParseError,
    >)
        requires
            old(reader).headroom(),
        ensures
            ({
                let (res, end) = dtr_core_read(
                    old(reader).spec_buf(),
                    old(reader).spec_index(),
                    |v: u8| RobotPacketParseError::RobotToDriverInvalidUsageTag(v),
                );
                match res {
                    Ok(c) => r matches Ok((c2, rd)) && c2 == c
                        && rd.reader.spec_buf() == old(reader).spec_buf()
                        && rd.reader.spec_index() == end
                        && *final(rd.reader) == *final(reader),
                    Err(e) => r matches Err(e2) && e2 == e,
                }
            }),
    {
        match DriverstationToRobotCorePacketDate::create_from_buf(reader) {
            Ok(c) => Ok((c, DriverToRobotPacketReader { reader })),
            Err(e) => Err(e),
        }
    }

    /// Reads the tags to the end of the buffer ([`reader_tags`]), handing each
    /// joystick to `acceptor` as it comes; at the end the countdown, an empty
    /// slot for each joystick that did not come, and the date follow.
    pub fn read_tags<A: PacketTagAcceptor>(self, acceptor: &mut A) -> (r: Result<
        (),
        RobotPacketParseError,
    >)
        requires
            self.reader.spec_index() <= self.reader.spec_buf().len(),
            self.reader.spec_buf().len() + 0x2_0000 <= usize::MAX,
        ensures
            r == reader_tags(old(self.reader).spec_buf(), old(self.reader).spec_index(), 0),
            final(acceptor).received() == reader_events(
                old(self.reader).spec_buf(),
                old(self.reader).spec_index(),
                0,
                None,
                None,
                old(acceptor).received(),
            ),
    {
        let buf = self.reader;
        let ghost d = buf.spec_buf();
        let ghost start = buf.spec_index();
        let mut joystick_index: usize = 0;
        let mut timedata = TimeData::new();
        let mut countdown: Option<u32> = None;
        while buf.has_more()
            invariant
                buf.spec_buf() == d,
                d == self.reader.spec_buf(),
                start == self.reader.spec_index(),
                buf.spec_index() <= d.len(),
                d.len() + 0x2_0000 <= usize::MAX,
                joystick_index <= 6,
                reader_tags(d, start, 0) == reader_tags(d, buf.spec_index(), joystick_index as nat),
                timedata.time_zone is None,
                reader_events(d, start, 0, None, None, old(acceptor).received()) == reader_events(
                    d,
                    buf.spec_index(),
                    joystick_index as nat,
                    countdown,
                    timedata.time,
                    acceptor.received(),
                ),
            decreases d.len() - buf.spec_index(),
        {
            joystick_index = reader_read_tag(
                buf,
                joystick_index,
                acceptor,
                &mut countdown,
                &mut timedata,
            )?;
        }
        let ghost before = acceptor.received();
        let ghost closing = closing_events(joystick_index as nat, countdown, timedata.time);
        acceptor.accept_countdown(countdown);
        let mut i = joystick_index;
        while i < 6
            invariant
                joystick_index <= i <= 6,
                closing == closing_events(joystick_index as nat, countdown, timedata.time),
                acceptor.received() == before + closing.subrange(0, 1 + i - joystick_index),
            decreases 6 - i,
        {
            acceptor.accept_joystick(i, None);
            proof {
                assert(acceptor.received() =~= before + closing.subrange(0, 1 + i + 1 - joystick_index));
            }
            i = i + 1;
        }
        acceptor.accept_time_data(timedata);
        proof {
            assert(acceptor.received() =~= before + closing);
        }
        Ok(())
    }
}

} // verus!
