use vstd::prelude::*;

use crate::buffer_reader::{be_value, overflow_error, BufferReader, BufferReaderError};
use crate::buffer_writter::{
    be4, be_bytes, cut, lemma_be_bytes_len, push_all, write_in_pieces, wrote_pieces, BufferWritter,
    BufferWritterError, WriteToBuff,
};
use crate::error::RobotPacketParseError;
use crate::robot_to_driver::lift_err;

verus! {

#[verifier::external_type_specification]
#[verifier::external_body]
pub struct ExNaiveDate(chrono::NaiveDate);

#[verifier::external_type_specification]
#[verifier::external_body]
pub struct ExNaiveDateTime(chrono::NaiveDateTime);

/// Whether `y` is a leap year of the proleptic Gregorian calendar.
pub open spec fn is_leap_year(y: int) -> bool {
    (y % 4 == 0 && y % 100 != 0) || y % 400 == 0
}

/// The number of days of month `m` (1 to 12) of year `y`.
pub open spec fn days_in_month(y: int, m: int) -> int {
    if m == 2 {
        if is_leap_year(y) {
            29
        } else {
            28
        }
    } else if m == 4 || m == 6 || m == 9 || m == 11 {
        30
    } else {
        31
    }
}

/// A year of the calendar has 365 days, 366 in a leap year; only February's
/// length changes from year to year; and leap years repeat every 400 years,
/// the years 1900 and 2100 being none and 2000 being one.
pub proof fn law_calendar_year(y: int, m: int)
    ensures
        days_in_month(y, 1) + days_in_month(y, 2) + days_in_month(y, 3) + days_in_month(y, 4)
            + days_in_month(y, 5) + days_in_month(y, 6) + days_in_month(y, 7) + days_in_month(y, 8)
            + days_in_month(y, 9) + days_in_month(y, 10) + days_in_month(y, 11) + days_in_month(y, 12)
            == if is_leap_year(y) {
            366int
        } else {
            365int
        },
        m != 2 ==> days_in_month(y, m) == days_in_month(y + 1, m),
        is_leap_year(y) == is_leap_year(y + 400),
        !is_leap_year(1900int) && is_leap_year(2000int) && !is_leap_year(2100int) && is_leap_year(2024int),
{
}

/// Whether a calendar date exists and lies in the years chrono represents.
pub open spec fn valid_ymd(y: i32, m: u32, d: u32) -> bool {
    &&& -262143 <= y <= 262142
    &&& 1 <= m <= 12
    &&& 1 <= d <= days_in_month(y as int, m as int)
}

/// Whether a time of day exists; the microseconds may pass one second only in
/// a leap second, the 59th second of a minute.
pub open spec fn valid_hms_micro(h: u32, m: u32, s: u32, micro: u32) -> bool {
    &&& h < 24
    &&& m < 60
    &&& s < 60
    &&& micro < 2_000_000
    &&& (micro < 1_000_000 || s == 59)
}

/// Calls `chrono::NaiveDate::from_ymd_opt`. Its source returns a date exactly
/// when the month is 1 to 12, the day exists in that month of that year of the
/// proleptic Gregorian calendar, and the year lies in chrono's range.
#[verifier::external_body]
fn naive_date_from_ymd(y: i32, m: u32, d: u32) -> (r: Option<chrono::NaiveDate>)
    ensures
        r is Some <==> valid_ymd(y, m, d),
{
    chrono::NaiveDate::from_ymd_opt(y, m, d)
}

/// Calls `chrono::NaiveDate::and_hms_micro_opt`. Its source returns a date and
/// time exactly when the hour, minute, second and microseconds make a time of
/// day, a leap second allowed.
#[verifier::external_body]
fn naive_date_and_hms_micro(date: &chrono::NaiveDate, h: u32, m: u32, s: u32, micro: u32) -> (r:
    Option<chrono::NaiveDateTime>)
    ensures
        r is Some <==> valid_hms_micro(h, m, s, micro),
{
    date.and_hms_micro_opt(h, m, s, micro)
}

/// Whether chrono-tz knows a time zone by the name `name`.
pub uninterp spec fn tz_name_known(name: Seq<char>) -> bool;

/// Calls `<chrono_tz::Tz as FromStr>::from_str` and tells whether it succeeded.
/// The source looks the string up, exactly as given, in its table of zone
/// names; which names the table holds is left to [`tz_name_known`]. The table
/// maps each name to the zone whose `name()` is that same string.
#[verifier::external_body]
fn tz_parses(name: &str) -> (r: bool)
    ensures
        r == tz_name_known(name@),
{
    name.parse::<chrono_tz::Tz>().is_ok()
}

/// A date and time as the driver station sends it.
#[derive(Debug, Clone, Copy, PartialEq, Eq)]
pub struct TimeFields {
    pub micro: u32,
    pub sec: u8,
    pub min: u8,
    pub hour: u8,
    pub day: u8,
    /// 1 to 12.
    pub month: u8,
    pub year: i32,
}

/// The date and the time zone a driver station reported.
#[derive(Debug, Clone)]
pub struct TimeData {
    pub time: Option<TimeFields>,
    /// The name of a time zone chrono-tz knows.
    pub time_zone: Option<String>,
}

/// Reading a date from `d` at `i`: the microseconds as a u32, then one byte
/// each for the second, minute, hour, day, the month counted from 0 and the
/// year counted from 1900; a date or time that does not exist is an error.
pub open spec fn time_read(d: Seq<u8>, i: nat) -> (Result<TimeFields, RobotPacketParseError>, nat) {
    let len = d.len();
    if i + 4 > len {
        (Err(RobotPacketParseError::BufferReaderError(overflow_error(len, i, 4))), i + 4)
    } else if i + 10 > len {
        (Err(RobotPacketParseError::BufferReaderError(overflow_error(len, len, 1))), len + 1)
    } else {
        let micro = be_value(d.subrange(i as int, i as int + 4)) as u32;
        let sec = d[i as int + 4];
        let min = d[i as int + 5];
        let hour = d[i as int + 6];
        let day = d[i as int + 7];
        let month = d[i as int + 8] + 1;
        let year = d[i as int + 9] + 1900;
        if !valid_ymd(year as i32, month as u32, day as u32) || !valid_hms_micro(
            hour as u32,
            min as u32,
            sec as u32,
            micro,
        ) {
            (Err(RobotPacketParseError::InvalidTimeData), i + 10)
        } else {
            (
                Ok(
                    TimeFields {
                        micro,
                        sec,
                        min,
                        hour,
                        day,
                        month: month as u8,
                        year: year as i32,
                    },
                ),
                i + 10,
            )
        }
    }
}

/// The date on the wire: length 11, tag 15, and the fields in the order
/// [`time_read`] reads them.
pub open spec fn time_wire(t: TimeFields) -> Seq<u8> {
    seq![11u8, 15u8] + be_bytes(t.micro as nat, 4) + seq![
        t.sec,
        t.min,
        t.hour,
        t.day,
        (t.month - 1) as u8,
        (t.year - 1900) as u8,
    ]
}

/// The time zone on the wire: its length, tag 16, and the bytes of its name.
pub open spec fn zone_wire(name: Seq<char>) -> Seq<u8> {
    let b = vstd::utf8::encode_utf8(name);
    seq![((b.len() + 1) % 256) as u8, 16u8] + b
}

/// The date on the wire: a length byte counting what follows it, the tag 15,
/// the microseconds in four bytes high byte first, then one byte each for the
/// second, minute, hour, day, month counted from 0 and year counted from
/// 1900. The time zone: a length byte counting what follows it, the tag 16,
/// then the name.
pub proof fn law_time_wire_layout(t: TimeFields, z: Seq<char>)
    ensures
        time_wire(t).len() == 12,
        time_wire(t)[0] == 11 && time_wire(t)[1] == 15,
        time_wire(t)[6] == t.sec && time_wire(t)[7] == t.min && time_wire(t)[8] == t.hour
            && time_wire(t)[9] == t.day,
        time_wire(t)[10] == (t.month - 1) as u8,
        time_wire(t)[11] == (t.year - 1900) as u8,
        zone_wire(z)[1] == 16,
        zone_wire(z).len() < 256 ==> zone_wire(z)[0] == zone_wire(z).len() - 1,
{
    lemma_be_bytes_len(t.micro as nat, 4);
}

/// All of a [`TimeData`] on the wire: the date if there is one, then the time
/// zone if there is one.
pub open spec fn time_data_wire(time: Option<TimeFields>, zone: Option<Seq<char>>) -> Seq<u8> {
    (match time {
        Some(t) => time_wire(t),
        None => Seq::empty(),
    }) + (match zone {
        Some(z) => zone_wire(z),
        None => Seq::empty(),
    })
}

/// Where the fields of a [`TimeData`] end in [`time_data_wire`]: each field
/// of the date on its own, then the zone's length, its tag and its name.
pub open spec fn time_data_cuts(time: Option<TimeFields>, zone: Option<Seq<char>>) -> Seq<usize> {
    let (date, p): (Seq<usize>, nat) = match time {
        Some(_) => (seq![1usize, 2, 6, 7, 8, 9, 10, 11, 12], 12),
        None => (Seq::empty(), 0),
    };
    date + match zone {
        Some(z) => seq![
            (p + 1) as usize,
            (p + 2) as usize,
            (p + 2 + vstd::utf8::encode_utf8(z).len()) as usize,
        ],
        None => Seq::empty(),
    }
}

/// The zone of a time data, as the characters of its name.
pub open spec fn zone_view(z: Option<String>) -> Option<Seq<char>> {
    match z {
        Some(s) => Some(s@),
        None => None,
    }
}

impl TimeData {
    pub fn new() -> (r: Self)
        ensures
            r.time is None,
            r.time_zone is None,
    {
        TimeData { time: None, time_zone: None }
    }

    /// Reads a date ([`time_read`]) and keeps it; the time zone stays.
    pub fn read_time_data(&mut self, buf: &mut BufferReader<'_>) -> (r: Result<
        (),
        RobotPacketParseError,
    >)
        requires
            old(buf).headroom(),
        ensures
            final(buf).spec_buf() == old(buf).spec_buf(),
            final(buf).spec_buf_ref() == old(buf).spec_buf_ref(),
            ({
                let (res, end) = time_read(old(buf).spec_buf(), old(buf).spec_index());
                &&& final(buf).spec_index() == end
                &&& match res {
                    Ok(t) => r is Ok && final(self).time == Some(t) && final(self).time_zone
                        == old(self).time_zone,
                    Err(e) => r == Err::<(), RobotPacketParseError>(e) && *final(self) == *old(
                        self,
                    ),
                }
            }),
    {
        proof {
            buf.lemma_len_bound();
        }
        let micro = lift_err(buf.read_u32())?;
        let sec = lift_err(buf.read_u8())?;
        let min = lift_err(buf.read_u8())?;
        let hour = lift_err(buf.read_u8())?;
        let day = lift_err(buf.read_u8())?;
        let month: u32 = lift_err(buf.read_u8())? as u32 + 1;
        let year: u32 = lift_err(buf.read_u8())? as u32 + 1900;
        let date = match naive_date_from_ymd(year as i32, month, day as u32) {
            Some(date) => date,
            None => {
                return Err(RobotPacketParseError::InvalidTimeData);
            },
        };
        match naive_date_and_hms_micro(&date, hour as u32, min as u32, sec as u32, micro) {
            Some(_) => {},
            None => {
                return Err(RobotPacketParseError::InvalidTimeData);
            },
        }
        self.time = Some(
            TimeFields { micro, sec, min, hour, day, month: month as u8, year: year as i32 },
        );
        Ok(())
    }

    /// Forgets the date and the time zone.
    pub fn empty(&mut self)
        ensures
            final(self).time is None,
            final(self).time_zone is None,
    {
        self.time = None;
        self.time_zone = None;
    }

    /// Keeps `name` as the time zone when `known`, the answer of chrono-tz's
    /// parser for it; an unknown name is an error and changes nothing.
    pub fn set_time_zone(&mut self, name: &str, known: bool) -> (r: Result<(), RobotPacketParseError>)
        ensures
            known ==> r is Ok && zone_view(final(self).time_zone) == Some(name@) && final(self).time
                == old(self).time,
            !known ==> r == Err::<(), RobotPacketParseError>(
                RobotPacketParseError::InvalidTimeZoneData,
            ) && *final(self) == *old(self),
    {
        if known {
            self.time_zone = Some(name.to_owned());
            Ok(())
        } else {
            Err(RobotPacketParseError::InvalidTimeZoneData)
        }
    }

    /// Reads a time zone name as long as the whole buffer, from the cursor on,
    /// and keeps it if chrono-tz knows it. The date stays.
    pub fn read_time_zone_date(&mut self, buf: &mut BufferReader<'_>) -> (r: Result<
        (),
        RobotPacketParseError,
    >)
        requires
            old(buf).spec_index() + old(buf).spec_buf().len() <= usize::MAX,
        ensures
            final(buf).spec_buf() == old(buf).spec_buf(),
            final(buf).spec_index() == old(buf).spec_index() + old(buf).spec_buf().len(),
            ({
                let b = old(buf).spec_buf();
                let i = old(buf).spec_index();
                if i + b.len() > b.len() {
                    r == Err::<(), RobotPacketParseError>(
                        RobotPacketParseError::BufferReaderError(overflow_error(b.len(), i, b.len())),
                    ) && *final(self) == *old(self)
                } else if !vstd::utf8::valid_utf8(b) {
                    r matches Err(
                        RobotPacketParseError::BufferReaderError(BufferReaderError::ParseUft8Error(_)),
                    ) && *final(self) == *old(self)
                } else if tz_name_known(vstd::utf8::decode_utf8(b)) {
                    r is Ok && zone_view(final(self).time_zone) == Some(vstd::utf8::decode_utf8(b))
                        && final(self).time == old(self).time
                } else {
                    r == Err::<(), RobotPacketParseError>(
                        RobotPacketParseError::InvalidTimeZoneData,
                    ) && *final(self) == *old(self)
                }
            }),
    {
        proof {
            buf.lemma_len_bound();
        }
        let total = buf.total_packet_size();
        proof {
            if buf.spec_index() == 0 {
                assert(buf.next_bytes(total as nat) =~= buf.spec_buf());
            }
        }
        let name = match buf.read_str(total) {
            Ok(s) => s,
            Err(e) => {
                return Err(RobotPacketParseError::BufferReaderError(e));
            },
        };
        let known = tz_parses(name);
        self.set_time_zone(name, known)
    }

    /// Whether a date or a time zone is known.
    pub fn has_data(&self) -> (r: bool)
        ensures
            r == (self.time is Some || self.time_zone is Some),
    {
        self.time.is_some() || self.time_zone.is_some()
    }

    /// Takes over the date and the time zone of `other` that it has.
    pub fn copy_existing_from(&mut self, other: &Self)
        ensures
            final(self).time == (if other.time is Some {
                other.time
            } else {
                old(self).time
            }),
            zone_view(final(self).time_zone) == (if other.time_zone is Some {
                zone_view(other.time_zone)
            } else {
                zone_view(old(self).time_zone)
            }),
    {
        if other.time.is_some() {
            self.time = other.time;
        }
        match &other.time_zone {
            Some(z) => {
                self.time_zone = Some(z.clone());
            },
            None => {},
        }
    }
}

impl Default for TimeData {
    fn default() -> (r: Self)
        ensures
            r.time is None,
            r.time_zone is None,
    {
        TimeData::new()
    }
}

impl WriteToBuff for TimeData {
    type Error = BufferWritterError;

    /// Writes [`time_data_wire`] field by field ([`time_data_cuts`]), stopping
    /// at the first field that does not fit.
    fn write_to_buf<T: BufferWritter>(&self, buf: &mut T) -> (r: Result<(), Self::Error>)
        ensures
            wrote_pieces(
                *old(buf),
                *final(buf),
                time_data_wire(self.time, zone_view(self.time_zone)),
                time_data_cuts(self.time, zone_view(self.time_zone)),
                r,
            ),
    {
        let mut v: Vec<u8> = Vec::new();
        let mut cuts: Vec<usize> = Vec::new();
        match self.time {
            Some(t) => {
                let month = ((t.month as i32) - 1) as u8;
                let year = (t.year as i64 - 1900) as u8;
                v.push(11);
                cut(&mut cuts, &v);
                v.push(15);
                cut(&mut cuts, &v);
                push_all(&mut v, be4(t.micro).as_slice());
                cut(&mut cuts, &v);
                v.push(t.sec);
                cut(&mut cuts, &v);
                v.push(t.min);
                cut(&mut cuts, &v);
                v.push(t.hour);
                cut(&mut cuts, &v);
                v.push(t.day);
                cut(&mut cuts, &v);
                v.push(month);
                cut(&mut cuts, &v);
                v.push(year);
                cut(&mut cuts, &v);
                proof {
                    assert(v@ =~= time_wire(t));
                    assert(cuts@ =~= seq![1usize, 2, 6, 7, 8, 9, 10, 11, 12]);
                    assert(cuts@.last() == v@.len());
                }
            },
            None => {},
        }
        let ghost date = v@;
        let ghost date_cuts = cuts@;
        assert(self.time is Some ==> date.len() == 12 && date_cuts =~= seq![
            1usize,
            2,
            6,
            7,
            8,
            9,
            10,
            11,
            12,
        ]);
        assert(self.time is None ==> date.len() == 0 && date_cuts.len() == 0);
        match &self.time_zone {
            Some(z) => {
                let name = z.as_str().as_bytes();
                let l: u8 = (name.len() % 256) as u8;
                let lb: u8 = if l == 255 {
                    0
                } else {
                    l + 1
                };
                v.push(lb);
                cut(&mut cuts, &v);
                v.push(16);
                cut(&mut cuts, &v);
                push_all(&mut v, name);
                cut(&mut cuts, &v);
                assert(cuts@.last() == v@.len());
                proof {
                    assert(v@ =~= date + zone_wire(z@));
                    assert(name@ == vstd::utf8::encode_utf8(z@));
                    assert(cuts@ =~= date_cuts + seq![
                        (date.len() + 1) as usize,
                        (date.len() + 2) as usize,
                        (date.len() + 2 + name@.len()) as usize,
                    ]);
                }
            },
            None => {},
        }
        proof {
            assert(cuts@.len() > 0 ==> cuts@.last() == v@.len());
            assert(cuts@.len() == 0 ==> v@.len() == 0);
            assert(v@ =~= time_data_wire(self.time, zone_view(self.time_zone)));
            assert(cuts@ =~= time_data_cuts(self.time, zone_view(self.time_zone)));
        }
        write_in_pieces(buf, v.as_slice(), cuts.as_slice())
    }
}

} // verus!
