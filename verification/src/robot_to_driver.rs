use vstd::prelude::*;

pub mod reader;
pub mod writter;

use crate::buffer_reader::{
    be_value, overflow_error, reads_fail, widths_sum, BufferReader, BufferReaderError,
    CreateFromBuf, ReadFromBuf,
};
use crate::buffer_writter::{
    be_bytes, lemma_be_bytes_len, lemma_be_value_of_bytes, lemma_wrote_all_empty,
    lemma_wrote_all_next, pow256, wrote_all, BufferWritter, BufferWritterError, WriteToBuff,
};
use crate::control_code::ControlCode;
use crate::error::RobotPacketParseError;
use crate::request_code::DriverstationRequestCode;
use crate::roborio_status_code::RobotStatusCode;
use crate::robot_voltage::RobotVoltage;

verus! {

/// The fixed part of every packet the robot sends the driver station.
#[derive(Debug, PartialEq, Eq, Clone, Copy)]
pub struct RobotToDriverstationPacket {
    pub sequence: u16,
    pub tag_comm_version: u8,
    pub control_code: ControlCode,
    pub status: RobotStatusCode,
    pub battery: RobotVoltage,
    pub request: DriverstationRequestCode,
}

impl Default for RobotToDriverstationPacket {
    fn default() -> (r: Self)
        ensures
            r == (RobotToDriverstationPacket {
                sequence: 0,
                tag_comm_version: 0,
                control_code: ControlCode(0),
                status: RobotStatusCode(0),
                battery: RobotVoltage { int: 0, dec: 0 },
                request: DriverstationRequestCode(0),
            }),
    {
        RobotToDriverstationPacket {
            sequence: 0,
            tag_comm_version: 0,
            control_code: ControlCode(0),
            status: RobotStatusCode(0),
            battery: RobotVoltage { int: 0, dec: 0 },
            request: DriverstationRequestCode(0),
        }
    }
}

/// Rumble the robot asks a joystick for.
#[derive(Debug, Default, Copy, Clone, Eq, PartialEq, Hash)]
pub struct RobotToDriverRumble {
    pub no_idea: u32,
    pub left: u16,
    pub right: u16,
}

#[derive(Debug, Default, Copy, Clone, Eq, PartialEq, Hash)]
pub struct RobotToDriverRamUsage {
    pub bytes_free: u64,
}

#[derive(Debug, Default, Copy, Clone, Eq, PartialEq, Hash)]
pub struct RobotToDriverDiskUsage {
    pub bytes_free: u64,
}

/// CAN bus usage; the utilization, a fraction in \[0, 1\], is kept as the bits
/// of its 32-bit float.
#[derive(Debug, Default, Copy, Clone, PartialEq, Eq)]
pub struct RobotToDriverCanUsage {
    pub utilization: u32,
    pub bus_off: u32,
    pub tx_full: u32,
    pub rx: u8,
    pub tx: u8,
}

/// One CPU's usage: four 32-bit floats as their big-endian bytes.
#[derive(Debug, Default, Copy, Clone, PartialEq, Eq)]
pub struct CpuUsage {
    pub user: [u8; 4],
    pub unknown1: [u8; 4],
    pub unknown2: [u8; 4],
    pub system: [u8; 4],
}

/// The power distribution report, as its nine bytes.
#[derive(Debug, Copy, Clone, PartialEq, Eq)]
pub struct PdpPowerReportInner(pub [u8; 9]);

#[derive(Debug, Copy, Clone, PartialEq, Eq)]
pub struct PdpPowerReport {
    pub inner: PdpPowerReportInner,
}

/// The currents of the 16 ports of the power distribution panel, 10 bits each,
/// as their 21 bytes.
#[derive(Debug, Copy, Clone, PartialEq, Eq)]
pub struct PdpPortAmpReport(pub [u8; 21]);

#[derive(Debug, Copy, Clone, PartialEq, Eq)]
pub struct PdpPortReport {
    pub unknown_0: u8,
    pub port_amp_report: PdpPortAmpReport,
    pub unknown_1: [u8; 3],
}

/// The packet on the wire: the sequence number big-endian, then the comm
/// version, control code, status, the battery's whole volts and fraction, and
/// the request.
pub open spec fn rtd_wire(p: RobotToDriverstationPacket) -> Seq<u8> {
    be_bytes(p.sequence as nat, 2) + seq![
        p.tag_comm_version,
        p.control_code.0,
        p.status.0,
        p.battery.int,
        p.battery.dec,
        p.request.0,
    ]
}

/// The fixed part of a robot packet on the wire, big-endian: the sequence in
/// bytes 0 and 1, high byte first, then one byte each for the comm version,
/// the control code, the status, the battery's whole volts and hundredths,
/// and the request.
pub proof fn law_rtd_wire_layout(p: RobotToDriverstationPacket)
    ensures
        rtd_wire(p).len() == 8,
        rtd_wire(p)[0] as int * 256 + rtd_wire(p)[1] as int == p.sequence,
        rtd_wire(p)[2] == p.tag_comm_version,
        rtd_wire(p)[3] == p.control_code.0,
        rtd_wire(p)[4] == p.status.0,
        rtd_wire(p)[5] == p.battery.int,
        rtd_wire(p)[6] == p.battery.dec,
        rtd_wire(p)[7] == p.request.0,
{
    reveal_with_fuel(be_bytes, 3);
    let b = be_bytes(p.sequence as nat, 2);
    assert(b.len() == 2);
    assert(b[0] as int * 256 + b[1] as int == p.sequence);
    assert(rtd_wire(p)[0] == b[0] && rtd_wire(p)[1] == b[1]);
}

/// Reading the fixed part of a packet from `d` at `i`: the packet or the
/// error, and where the cursor ends. A comm version other than 1 is refused.
pub open spec fn rtd_core_read(d: Seq<u8>, i: nat) -> (
    Result<RobotToDriverstationPacket, RobotPacketParseError>,
    nat,
) {
    let len = d.len();
    if i + 2 > len {
        (Err(RobotPacketParseError::BufferReaderError(overflow_error(len, i, 2))), i + 2)
    } else if i + 3 > len {
        (Err(RobotPacketParseError::BufferReaderError(overflow_error(len, i + 2, 1))), i + 3)
    } else if d[i as int + 2] != 1 {
        (Err(RobotPacketParseError::RobotToDriverInvalidCommVersion(d[i as int + 2])), i + 3)
    } else if i + 8 > len {
        (Err(RobotPacketParseError::BufferReaderError(overflow_error(len, len, 1))), len + 1)
    } else {
        (
            Ok(
                RobotToDriverstationPacket {
                    sequence: be_value(d.subrange(i as int, i as int + 2)) as u16,
                    tag_comm_version: 1,
                    control_code: ControlCode(d[i as int + 3]),
                    status: RobotStatusCode(d[i as int + 4]),
                    battery: RobotVoltage { int: d[i as int + 5], dec: d[i as int + 6] },
                    request: DriverstationRequestCode(d[i as int + 7]),
                },
            ),
            i + 8,
        )
    }
}

/// A packet of at least eight bytes is refused for its comm version exactly
/// when its third byte is not 1, and otherwise read with the big-endian
/// sequence number of its first two bytes.
pub proof fn law_rtd_comm_version(d: Seq<u8>)
    requires
        d.len() >= 8,
    ensures
        (rtd_core_read(d, 0).0 == Err::<RobotToDriverstationPacket, RobotPacketParseError>(
            RobotPacketParseError::RobotToDriverInvalidCommVersion(d[2]),
        )) <==> d[2] != 1,
        d[2] == 1 ==> (rtd_core_read(d, 0).0 matches Ok(p) && p.sequence == d[0] as int * 256
            + d[1] as int),
{
    let s = d.subrange(0, 2);
    assert(s.drop_last() =~= seq![d[0]]);
    assert(seq![d[0]].drop_last() =~= Seq::<u8>::empty());
    assert(be_value(s) == d[0] as int * 256 + d[1] as int) by {
        reveal_with_fuel(be_value, 3);
    }
}

/// The outcome of a run of fixed-width reads from byte 1 of a usage tag of
/// `n` bytes that must use up the tag.
pub open spec fn fixed_reads(n: nat, ws: Seq<nat>) -> Result<(), RobotPacketParseError> {
    match reads_fail(n, 1, ws) {
        Some((p, w)) => Err(RobotPacketParseError::BufferReaderError(overflow_error(n, p, w))),
        None => if 1 + widths_sum(ws) != n {
            Err(
                RobotPacketParseError::BufferReaderError(
                    BufferReaderError::UnreadData { remaining: (n - 1 - widths_sum(ws)) as usize },
                ),
            )
        } else {
            Ok(())
        },
    }
}

/// Checking one usage tag `t` (its bytes after the length, at least one): the
/// first byte names it and fixes what follows: 1 rumble (two u16), 4 disk and 6
/// ram (a u64 each), 5 cpu (a count, then four 32-bit floats per cpu), 8 pdp
/// ports (1, 21 and 3 bytes), 9 pdp power (1, 1, 5 and 2 bytes), 14 CAN (three
/// 32-bit values and two bytes). Anything else, a short tag or bytes left over
/// is an error.
pub open spec fn usage_tag_check(t: Seq<u8>) -> Result<(), RobotPacketParseError> {
    let n = t.len();
    let id = t[0];
    if id == 1 {
        fixed_reads(n, seq![2nat, 2nat])
    } else if id == 4 || id == 6 {
        fixed_reads(n, seq![8nat])
    } else if id == 5 {
        if n < 2 {
            Err(RobotPacketParseError::BufferReaderError(overflow_error(n, 1, 1)))
        } else if 2 + 16 * (t[1] as nat) > n {
            Err(
                RobotPacketParseError::BufferReaderError(
                    overflow_error(n, (2 + 4 * ((n - 2) / 4)) as nat, 4),
                ),
            )
        } else if 2 + 16 * (t[1] as nat) != n {
            Err(
                RobotPacketParseError::BufferReaderError(
                    BufferReaderError::UnreadData { remaining: (n - 2 - 16 * (t[1] as nat)) as usize },
                ),
            )
        } else {
            Ok(())
        }
    } else if id == 8 {
        fixed_reads(n, seq![1nat, 21nat, 3nat])
    } else if id == 9 {
        fixed_reads(n, seq![1nat, 1nat, 5nat, 2nat])
    } else if id == 14 {
        fixed_reads(n, seq![4nat, 4nat, 4nat, 1nat, 1nat])
    } else {
        Err(RobotPacketParseError::RobotToDriverInvalidUsageTag(id))
    }
}

/// Checking the usage tags of `d` from `i` on: each is a length byte and that
/// many bytes; an empty one is skipped; the first that fails
/// [`usage_tag_check`] or runs past the end ends it with its error.
pub open spec fn rtd_tags_check(d: Seq<u8>, i: nat) -> (Result<(), RobotPacketParseError>, nat)
    decreases d.len() - i,
{
    if i >= d.len() {
        (Ok(()), i)
    } else {
        let n = d[i as int] as nat;
        let s = i + 1;
        if s + n > d.len() {
            (Err(RobotPacketParseError::BufferReaderError(overflow_error(d.len(), s, n))), s + n)
        } else if n == 0 {
            rtd_tags_check(d, s)
        } else {
            match usage_tag_check(d.subrange(s as int, (s + n) as int)) {
                Err(e) => (Err(e), s + n),
                Ok(()) => rtd_tags_check(d, s + n),
            }
        }
    }
}

/// Reading a whole packet from `d` at `i`: its fixed part, then its usage tags
/// checked.
pub open spec fn rtd_packet_read(d: Seq<u8>, i: nat) -> (
    Result<RobotToDriverstationPacket, RobotPacketParseError>,
    nat,
) {
    let (core, end) = rtd_core_read(d, i);
    match core {
        Err(e) => (Err(e), end),
        Ok(p) => {
            let (tags, end2) = rtd_tags_check(d, end);
            match tags {
                Ok(()) => (Ok(p), end2),
                Err(e) => (Err(e), end2),
            }
        },
    }
}

/// A reader error as a packet error.
pub(crate) fn lift_err<T>(r: Result<T, BufferReaderError>) -> (o: Result<T, RobotPacketParseError>)
    ensures
        match r {
            Ok(v) => o == Ok::<T, RobotPacketParseError>(v),
            Err(e) => o == Err::<T, RobotPacketParseError>(
                RobotPacketParseError::BufferReaderError(e),
            ),
        },
{
    match r {
        Ok(v) => Ok(v),
        Err(e) => Err(RobotPacketParseError::BufferReaderError(e)),
    }
}

impl WriteToBuff for RobotToDriverstationPacket {
    type Error = BufferWritterError;

    /// Writes the fixed part of the packet, [`rtd_wire`].
    fn write_to_buf<T: BufferWritter>(&self, buf: &mut T) -> (r: Result<(), Self::Error>)
        ensures
            wrote_all(*old(buf), *final(buf), rtd_wire(*self), r),
    {
        let ghost total = rtd_wire(*self);
        let ghost before = *buf;
        proof {
            assert(total.take(0) =~= Seq::<u8>::empty());
            lemma_wrote_all_empty(before);
            reveal_with_fuel(be_bytes, 3);
            assert(total.subrange(0, 2) =~= be_bytes(self.sequence as nat, 2));
        }
        let ghost mid = *buf;
        let res = buf.write_u16(self.sequence);
        proof {
            lemma_wrote_all_next(before, mid, *buf, total, 0, 2, res);
        }
        if res.is_err() {
            return res;
        }
        let bytes: [u8; 6] = [
            self.tag_comm_version,
            self.control_code.to_bits(),
            self.status.to_bits(),
            self.battery.int,
            self.battery.dec,
            self.request.to_bits(),
        ];
        let mut k: usize = 0;
        while k < 6
            invariant
                k <= 6,
                before == *old(buf),
                total == rtd_wire(*self),
                total.len() == 8,
                forall|q: int| 0 <= q < 6 ==> total[2 + q] == bytes@[q],
                wrote_all(before, *buf, total.take(2 + k), Ok(())),
            decreases 6 - k,
        {
            let ghost mid = *buf;
            let res = buf.write_u8(bytes[k]);
            proof {
                reveal_with_fuel(be_bytes, 2);
                assert(total.subrange(2 + k, 2 + k + 1) =~= be_bytes(bytes@[k as int] as nat, 1));
                lemma_wrote_all_next(before, mid, *buf, total, (2 + k) as nat, 1, res);
            }
            if res.is_err() {
                return res;
            }
            k = k + 1;
        }
        proof {
            assert(total.take(8) =~= total);
        }
        Ok(())
    }
}

/// What a read of the fixed part of a packet leaves in `p`, whether it
/// succeeds or not: each field read before the read stopped.
pub open spec fn rtd_core_fill(p: RobotToDriverstationPacket, d: Seq<u8>, i: nat) -> RobotToDriverstationPacket {
    let len = d.len();
    if i + 2 > len {
        p
    } else {
        let p1 = RobotToDriverstationPacket {
            sequence: be_value(d.subrange(i as int, i as int + 2)) as u16,
            ..p
        };
        if i + 3 > len {
            p1
        } else {
            let p2 = RobotToDriverstationPacket { tag_comm_version: d[i as int + 2], ..p1 };
            if d[i as int + 2] != 1 || i + 4 > len {
                p2
            } else {
                let p3 = RobotToDriverstationPacket { control_code: ControlCode(d[i as int + 3]), ..p2 };
                if i + 5 > len {
                    p3
                } else {
                    let p4 = RobotToDriverstationPacket { status: RobotStatusCode(d[i as int + 4]), ..p3 };
                    if i + 6 > len {
                        p4
                    } else {
                        let p5 = RobotToDriverstationPacket {
                            battery: RobotVoltage { int: d[i as int + 5], ..p4.battery },
                            ..p4
                        };
                        if i + 7 > len {
                            p5
                        } else {
                            let p6 = RobotToDriverstationPacket {
                                battery: RobotVoltage { int: d[i as int + 5], dec: d[i as int + 6] },
                                ..p5
                            };
                            if i + 8 > len {
                                p6
                            } else {
                                RobotToDriverstationPacket {
                                    request: DriverstationRequestCode(d[i as int + 7]),
                                    ..p6
                                }
                            }
                        }
                    }
                }
            }
        }
    }
}

impl<'a> ReadFromBuf<'a> for RobotToDriverstationPacket {
    type Error = RobotPacketParseError;

    /// Reads the fixed part of a packet into this one, field by field
    /// ([`rtd_core_fill`]); what follows it is left unread. A comm version other
    /// than 1 is refused after it was stored.
    fn read_into_from_buf(&mut self, buf: &mut BufferReader<'a>) -> (r: Result<(), Self::Error>)
        ensures
            final(buf).spec_buf() == old(buf).spec_buf(),
            final(buf).spec_buf_ref() == old(buf).spec_buf_ref(),
            ({
                let (res, end) = rtd_core_read(old(buf).spec_buf(), old(buf).spec_index());
                &&& final(buf).spec_index() == end
                &&& match res {
                    Ok(p) => r is Ok && *final(self) == p,
                    Err(e) => r == Err::<(), RobotPacketParseError>(e),
                }
                &&& *final(self) == rtd_core_fill(*old(self), old(buf).spec_buf(), old(buf).spec_index())
            }),
    {
        proof {
            buf.lemma_len_bound();
        }
        self.sequence = lift_err(buf.read_u16())?;
        self.tag_comm_version = lift_err(buf.read_u8())?;
        if self.tag_comm_version != 1 {
            return Err(RobotPacketParseError::RobotToDriverInvalidCommVersion(self.tag_comm_version));
        }
        self.control_code = ControlCode::from_bits(lift_err(buf.read_u8())?);
        self.status = RobotStatusCode::from_bits(lift_err(buf.read_u8())?);
        lift_err(self.battery.read_into_from_buf(buf))?;
        self.request = DriverstationRequestCode::from_bits(lift_err(buf.read_u8())?);
        Ok(())
    }
}

/// Checks one usage tag whose bytes `sub` holds from its start.
fn check_usage_tag(sub: &mut BufferReader) -> (r: Result<(), RobotPacketParseError>)
    requires
        old(sub).spec_index() == 0,
        0 < old(sub).spec_buf().len() <= 255,
    ensures
        r == usage_tag_check(old(sub).spec_buf()),
{
    let ghost t = sub.spec_buf();
    let ghost n = t.len();
    let extra_id = lift_err(sub.read_u8())?;
    proof {
        reveal_with_fuel(reads_fail, 6);
        reveal_with_fuel(widths_sum, 6);
    }
    if extra_id == 1 {
        lift_err(sub.read_u16())?;
        lift_err(sub.read_u16())?;
    } else if extra_id == 4 || extra_id == 6 {
        lift_err(sub.read_u64())?;
    } else if extra_id == 5 {
        let cpus = lift_err(sub.read_u8())?;
        let floats: u16 = cpus as u16 * 4;
        let mut c: u16 = 0;
        while c < floats
            invariant
                c <= floats,
                floats == 4 * (t[1] as nat),
                n == t.len(),
                n <= 255,
                sub.spec_buf() == t,
                t == old(sub).spec_buf(),
                sub.spec_index() == 2 + 4 * (c as nat),
                2 + 4 * (c as nat) <= n,
                t[0] == 5,
                usage_tag_check(t) == (if 2 + 16 * (t[1] as nat) > n {
                    Err(
                        RobotPacketParseError::BufferReaderError(
                            overflow_error(n, (2 + 4 * ((n - 2) / 4)) as nat, 4),
                        ),
                    )
                } else if 2 + 16 * (t[1] as nat) != n {
                    Err(
                        RobotPacketParseError::BufferReaderError(
                            BufferReaderError::UnreadData {
                                remaining: (n - 2 - 16 * (t[1] as nat)) as usize,
                            },
                        ),
                    )
                } else {
                    Ok(())
                }),
            decreases floats - c,
        {
            let res = sub.read_u32();
            match res {
                Ok(_) => {},
                Err(e) => {
                    proof {
                        assert((n - 2) / 4 == c);
                        assert(2 + 16 * (t[1] as nat) > n);
                        assert(e == overflow_error(n, (2 + 4 * ((n - 2) / 4)) as nat, 4));
                    }
                    return Err(RobotPacketParseError::BufferReaderError(e));
                },
            }
            c = c + 1;
        }
    } else if extra_id == 8 {
        lift_err(sub.read_u8())?;
        lift_err(sub.read_const_amount::<21>())?;
        lift_err(sub.read_const_amount::<3>())?;
    } else if extra_id == 9 {
        lift_err(sub.read_u8())?;
        lift_err(sub.read_u8())?;
        lift_err(sub.read_const_amount::<5>())?;
        lift_err(sub.read_u16())?;
        lift_err(sub.assert_empty())?;
    } else if extra_id == 14 {
        lift_err(sub.read_u32())?;
        lift_err(sub.read_u32())?;
        lift_err(sub.read_u32())?;
        lift_err(sub.read_u8())?;
        lift_err(sub.read_u8())?;
    } else {
        return Err(RobotPacketParseError::RobotToDriverInvalidUsageTag(extra_id));
    }
    lift_err(sub.assert_empty())
}

impl<'a> CreateFromBuf<'a> for RobotToDriverstationPacket {
    /// Reads a whole packet: its fixed part, then checks its usage tags to the
    /// end of the buffer ([`rtd_packet_read`]).
    fn create_from_buf(buf: &mut BufferReader<'a>) -> (r: Result<Self, Self::Error>)
        ensures
            final(buf).spec_buf() == old(buf).spec_buf(),
            final(buf).spec_buf_ref() == old(buf).spec_buf_ref(),
            ({
                let (res, end) = rtd_packet_read(old(buf).spec_buf(), old(buf).spec_index());
                &&& final(buf).spec_index() == end
                &&& r == res
            }),
    {
        proof {
            buf.lemma_len_bound();
        }
        let sequence = lift_err(buf.read_u16())?;
        let com = lift_err(buf.read_u8())?;
        if com != 1 {
            return Err(RobotPacketParseError::RobotToDriverInvalidCommVersion(com));
        }
        let control_code = ControlCode::from_bits(lift_err(buf.read_u8())?);
        let status = RobotStatusCode::from_bits(lift_err(buf.read_u8())?);
        let battery = lift_err(RobotVoltage::create_from_buf(buf))?;
        let request = DriverstationRequestCode::from_bits(lift_err(buf.read_u8())?);
        let base = RobotToDriverstationPacket {
            sequence,
            tag_comm_version: com,
            control_code,
            status,
            battery,
            request,
        };
        let ghost d = buf.spec_buf();
        let ghost start = buf.spec_index();
        while buf.has_more()
            invariant
                buf.spec_buf() == d,
                d == old(buf).spec_buf(),
                buf.spec_buf_ref() == old(buf).spec_buf_ref(),
                buf.spec_index() <= d.len(),
                rtd_core_read(old(buf).spec_buf(), old(buf).spec_index()) == (
                    Ok::<RobotToDriverstationPacket, RobotPacketParseError>(base),
                    start,
                ),
                d.len() + 0x2_0000 <= usize::MAX,
                rtd_tags_check(d, start) == rtd_tags_check(d, buf.spec_index()),
            decreases d.len() - buf.spec_index(),
        {
            let mut sub = lift_err(buf.read_known_length_u8())?;
            if sub.remaining_packet_data() == 0 {
                continue;
            }
            check_usage_tag(&mut sub)?;
        }
        Ok(base)
    }
}

/// A packet written and read back is the same packet, when its comm version
/// is 1, the only one a read accepts; the read ends where the packet does.
pub proof fn law_packet_roundtrip(p: RobotToDriverstationPacket)
    requires
        p.tag_comm_version == 1,
    ensures
        rtd_packet_read(rtd_wire(p), 0) == (
            Ok::<RobotToDriverstationPacket, RobotPacketParseError>(p),
            8nat,
        ),
{
    let w = rtd_wire(p);
    lemma_be_bytes_len(p.sequence as nat, 2);
    assert(w.subrange(0, 2) =~= be_bytes(p.sequence as nat, 2));
    lemma_be_value_of_bytes(p.sequence as nat, 2);
    assert(pow256(2) == 65536) by {
        reveal_with_fuel(pow256, 3);
    }
}

} // verus!
