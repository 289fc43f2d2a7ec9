use vstd::prelude::*;

use core::marker::PhantomData;

use crate::buffer_reader::{
    be_value, overflow_error, reads_fail, widths_sum, BufferReader, BufferReaderError, ReadFromBuf,
};
use crate::error::RobotPacketParseError;
use crate::robot_to_driver::{
    lift_err, rtd_core_read, CpuUsage, PdpPortAmpReport, PdpPortReport, PdpPowerReportInner,
    RobotToDriverCanUsage, RobotToDriverDiskUsage, RobotToDriverRamUsage, RobotToDriverRumble,
    RobotToDriverstationPacket,
};

verus! {

/// One delivery to a [`PacketTagAcceptor`]; cpu usages and the power
/// distribution reports by their bytes.
pub enum UsageEvent {
    Rumble(RobotToDriverRumble),
    RamUsage(RobotToDriverRamUsage),
    DiskUsage(RobotToDriverDiskUsage),
    CpuUsage(Seq<Seq<u8>>),
    CanUsage(RobotToDriverCanUsage),
    PdpPortReport(Seq<u8>),
    PdpPowerReport(Seq<u8>),
}

/// A cpu's usage as its 16 bytes: user, two unknown figures, system.
pub open spec fn cpu_bytes(c: CpuUsage) -> Seq<u8> {
    c.user@ + c.unknown1@ + c.unknown2@ + c.system@
}

/// A port report as its 25 bytes.
pub open spec fn pdp_port_bytes(r: PdpPortReport) -> Seq<u8> {
    seq![r.unknown_0] + r.port_amp_report.0@ + r.unknown_1@
}

/// Receives the usage tags a robot packet carries, in order. `received` is the
/// record of every delivery so far, oldest first; each method adds its own.
pub trait PacketTagAcceptor {
    /// The record the method contracts speak of. An implementation that keeps
    /// this default, empty record cannot meet those contracts, so what the
    /// readers state of the record holds only of implementations that define
    /// it and are verified; of one that keeps the default (any built outside
    /// verification) nothing is stated about the calls it receives.
    open spec fn received(&self) -> Seq<UsageEvent> {
        Seq::empty()
    }

    fn accept_rumble(&mut self, rumble: RobotToDriverRumble)
        ensures
            final(self).received() == old(self).received().push(UsageEvent::Rumble(rumble)),
    ;

    fn accept_ram_usage(&mut self, bytes_free: RobotToDriverRamUsage)
        ensures
            final(self).received() == old(self).received().push(UsageEvent::RamUsage(bytes_free)),
    ;

    fn accept_disk_usage(&mut self, bytes_free: RobotToDriverDiskUsage)
        ensures
            final(self).received() == old(self).received().push(UsageEvent::DiskUsage(bytes_free)),
    ;

    fn accept_cpu_usage(&mut self, cpu_usage: &[CpuUsage])
        ensures
            final(self).received() == old(self).received().push(
                UsageEvent::CpuUsage(cpu_usage@.map_values(|c: CpuUsage| cpu_bytes(c))),
            ),
    ;

    fn accept_can_usage(&mut self, can_usage: RobotToDriverCanUsage)
        ensures
            final(self).received() == old(self).received().push(UsageEvent::CanUsage(can_usage)),
    ;

    fn accept_pdp_port_report(&mut self, pdp_port_report: PdpPortReport)
        ensures
            final(self).received() == old(self).received().push(
                UsageEvent::PdpPortReport(pdp_port_bytes(pdp_port_report)),
            ),
    ;

    fn accept_pdp_power_report(&mut self, pdp_power_report: PdpPowerReportInner)
        ensures
            final(self).received() == old(self).received().push(
                UsageEvent::PdpPowerReport(pdp_power_report.0@),
            ),
    ;
}

/// The reader before the fixed part of the packet was read.
pub struct Core;

/// The reader once the fixed part was read, before the tags.
pub struct Tags;

/// Reads a robot packet in two steps: its fixed part, then its tags.
pub struct RobotToDriverPacketReader<'a, T> {
    pub reader: BufferReader<'a>,
    pub phantom: PhantomData<T>,
}

/// The outcome of fixed-width reads from byte 1 of a tag of `n` bytes that
/// must use up the tag.
pub open spec fn tag_reads(n: nat, ws: Seq<nat>) -> Result<(), RobotPacketParseError> {
    match reads_fail(n, 1, ws) {
        Some((p, w)) => Err(RobotPacketParseError::BufferReaderError(overflow_error(n, p, w))),
        None => if 1 + widths_sum(ws) != n {
            Err(
                RobotPacketParseError::BufferReaderError(
                    BufferReaderError::UnreadData { remaining: (n - 1 - widths_sum(ws)) as usize },
                ),
            )
        } else {
            Ok(())
        },
    }
}

/// Delivering one tag `t` (its bytes after the length, at least one): 4 ram
/// and 6 disk usage (a u64 each), 5 cpu usage (a count, then 16 bytes per cpu),
/// 8 pdp ports (1, 21 and 3 bytes), 9 pdp power (9 bytes), 14 CAN usage (three
/// 32-bit values and two bytes). Anything else but the rumble tag 1 is an
/// error, and so are a short tag and bytes left over.
pub open spec fn reader_tag_outcome(t: Seq<u8>) -> Result<(), RobotPacketParseError> {
    let n = t.len();
    let id = t[0];
    if id == 4 || id == 6 {
        tag_reads(n, seq![8nat])
    } else if id == 5 {
        if n < 2 {
            Err(RobotPacketParseError::BufferReaderError(overflow_error(n, 1, 1)))
        } else if 2 + 16 * (t[1] as nat) > n {
            Err(
                RobotPacketParseError::BufferReaderError(
                    overflow_error(n, 2, 16 * (t[1] as nat)),
                ),
            )
        } else if 2 + 16 * (t[1] as nat) != n {
            Err(
                RobotPacketParseError::BufferReaderError(
                    BufferReaderError::UnreadData { remaining: (n - 2 - 16 * (t[1] as nat)) as usize },
                ),
            )
        } else {
            Ok(())
        }
    } else if id == 8 {
        tag_reads(n, seq![1nat, 21nat, 3nat])
    } else if id == 9 {
        tag_reads(n, seq![9nat])
    } else if id == 14 {
        tag_reads(n, seq![4nat, 4nat, 4nat, 1nat, 1nat])
    } else {
        Err(RobotPacketParseError::RobotToDriverInvalidUsageTag(id))
    }
}

/// What delivering the tag `t` hands to the acceptor: the tag's value, when its
/// id is one of the usage tags and all its fields are there (bytes left over
/// are found only after the delivery).
pub open spec fn tag_event(t: Seq<u8>) -> Option<UsageEvent> {
    let n = t.len();
    let id = t[0];
    if id == 4 && n >= 9 {
        Some(UsageEvent::RamUsage(RobotToDriverRamUsage { bytes_free: be_value(t.subrange(1, 9)) as u64 }))
    } else if id == 6 && n >= 9 {
        Some(UsageEvent::DiskUsage(RobotToDriverDiskUsage { bytes_free: be_value(t.subrange(1, 9)) as u64 }))
    } else if id == 5 && n >= 2 && 2 + 16 * (t[1] as nat) <= n {
        Some(UsageEvent::CpuUsage(Seq::new(t[1] as nat, |c: int| t.subrange(2 + 16 * c, 18 + 16 * c))))
    } else if id == 8 && n >= 26 {
        Some(UsageEvent::PdpPortReport(t.subrange(1, 26)))
    } else if id == 9 && n >= 10 {
        Some(UsageEvent::PdpPowerReport(t.subrange(1, 10)))
    } else if id == 14 && n >= 15 {
        Some(UsageEvent::CanUsage(RobotToDriverCanUsage {
            utilization: be_value(t.subrange(1, 5)) as u32,
            bus_off: be_value(t.subrange(5, 9)) as u32,
            tx_full: be_value(t.subrange(9, 13)) as u32,
            rx: t[13],
            tx: t[14],
        }))
    } else {
        None
    }
}

/// The usage tags a robot packet is read with, by id: 4 a ram usage, 6 a disk
/// usage, 5 the cpu usages, 8 a pdp port report, 9 a pdp power report, 14 a
/// CAN usage; every other id but the rumble tag 1 is refused.
pub proof fn law_usage_tag_ids(t: Seq<u8>)
    requires
        t.len() >= 26,
    ensures
        t[0] == 4 ==> tag_event(t) matches Some(UsageEvent::RamUsage(_)),
        t[0] == 6 ==> tag_event(t) matches Some(UsageEvent::DiskUsage(_)),
        t[0] == 5 && 2 + 16 * (t[1] as nat) <= t.len() ==> tag_event(t) matches Some(UsageEvent::CpuUsage(_)),
        t[0] == 8 ==> tag_event(t) matches Some(UsageEvent::PdpPortReport(_)),
        t[0] == 9 ==> tag_event(t) matches Some(UsageEvent::PdpPowerReport(_)),
        t[0] == 14 ==> tag_event(t) matches Some(UsageEvent::CanUsage(_)),
        !(t[0] == 1 || t[0] == 4 || t[0] == 5 || t[0] == 6 || t[0] == 8 || t[0] == 9 || t[0] == 14)
            ==> reader_tag_outcome(t) == Err::<(), RobotPacketParseError>(
            RobotPacketParseError::RobotToDriverInvalidUsageTag(t[0]),
        ),
{
}

/// The deliveries reading the tags of `d` from `i` on makes, after `ev`: each
/// tag's [`tag_event`] in order, up to and including the tag that stops the read.
pub open spec fn reader_events(d: Seq<u8>, i: nat, ev: Seq<UsageEvent>) -> Seq<UsageEvent>
    decreases d.len() - i,
{
    if i >= d.len() {
        ev
    } else {
        let n = d[i as int] as nat;
        let s = i + 1;
        if s + n > d.len() {
            ev
        } else if n == 0 {
            reader_events(d, s, ev)
        } else {
            let t = d.subrange(s as int, (s + n) as int);
            let ev2 = match tag_event(t) {
                Some(e) => ev.push(e),
                None => ev,
            };
            match reader_tag_outcome(t) {
                Err(e) => ev2,
                Ok(()) => reader_events(d, s + n, ev2),
            }
        }
    }
}

/// Reading the tags of `d` from `i` on: each is a length byte and that many
/// bytes, an empty one skipped; the first that fails [`reader_tag_outcome`] or
/// runs past the end stops the read.
pub open spec fn reader_tags(d: Seq<u8>, i: nat) -> (Result<(), RobotPacketParseError>, nat)
    decreases d.len() - i,
{
    if i >= d.len() {
        (Ok(()), i)
    } else {
        let n = d[i as int] as nat;
        let s = i + 1;
        if s + n > d.len() {
            (Err(RobotPacketParseError::BufferReaderError(overflow_error(d.len(), s, n))), s + n)
        } else if n == 0 {
            reader_tags(d, s)
        } else {
            match reader_tag_outcome(d.subrange(s as int, (s + n) as int)) {
                Err(e) => (Err(e), s + n),
                Ok(()) => reader_tags(d, s + n),
            }
        }
    }
}

/// Whether reading the tags of `d` from `i` on comes to a rumble tag before it
/// stops: the reader has no way to deliver one yet.
pub open spec fn reader_meets_rumble(d: Seq<u8>, i: nat) -> bool
    decreases d.len() - i,
{
    if i >= d.len() {
        false
    } else {
        let n = d[i as int] as nat;
        let s = i + 1;
        if s + n > d.len() {
            false
        } else if n == 0 {
            reader_meets_rumble(d, s)
        } else if d[s as int] == 1 {
            true
        } else {
            match reader_tag_outcome(d.subrange(s as int, (s + n) as int)) {
                Err(e) => false,
                Ok(()) => reader_meets_rumble(d, s + n),
            }
        }
    }
}

impl<'a> RobotToDriverPacketReader<'a, Core> {
    pub fn new(reader: BufferReader<'a>) -> (r: Self)
        ensures
            r.reader == reader,
    {
        RobotToDriverPacketReader { reader, phantom: PhantomData }
    }

    /// Reads the fixed part of the packet ([`rtd_core_read`]) and hands back the
    /// reader for the tags.
    pub fn read_core(self) -> (r: Result<
        (RobotToDriverstationPacket, RobotToDriverPacketReader<'a, Tags>),
        RobotPacketParseError,
    >)
        requires
            self.reader.headroom(),
        ensures
            ({
                let (res, end) = rtd_core_read(self.reader.spec_buf(), self.reader.spec_index());
                match res {
                    Ok(p) => r matches Ok((q, next)) && q == p && next.reader.spec_buf()
                        == self.reader.spec_buf() && next.reader.spec_buf_ref()
                        == self.reader.spec_buf_ref() && next.reader.spec_index() == end,
                    Err(e) => r matches Err(e2) && e2 == e,
                }
            }),
    {
        let mut reader = self.reader;
        let mut packet = RobotToDriverstationPacket::default();
        match packet.read_into_from_buf(&mut reader) {
            Ok(()) => Ok((packet, RobotToDriverPacketReader { reader, phantom: PhantomData })),
            Err(e) => Err(e),
        }
    }
}

/// The four 32-bit floats of a cpu's usage starting at byte `at` of `b`.
fn cpu_usage_at(b: &[u8], at: usize) -> (r: CpuUsage)
    requires
        at + 16 <= b@.len(),
    ensures
        r.user@ == b@.subrange(at as int, at + 4),
        r.unknown1@ == b@.subrange(at + 4, at + 8),
        r.unknown2@ == b@.subrange(at + 8, at + 12),
        r.system@ == b@.subrange(at + 12, at + 16),
{
    let r = CpuUsage {
        user: [b[at], b[at + 1], b[at + 2], b[at + 3]],
        unknown1: [b[at + 4], b[at + 5], b[at + 6], b[at + 7]],
        unknown2: [b[at + 8], b[at + 9], b[at + 10], b[at + 11]],
        system: [b[at + 12], b[at + 13], b[at + 14], b[at + 15]],
    };
    proof {
        assert(r.user@ =~= b@.subrange(at as int, at + 4));
        assert(r.unknown1@ =~= b@.subrange(at + 4, at + 8));
        assert(r.unknown2@ =~= b@.subrange(at + 8, at + 12));
        assert(r.system@ =~= b@.subrange(at + 12, at + 16));
    }
    r
}

/// Delivers one tag whose bytes `sub` holds from its start.
fn deliver_tag<A: PacketTagAcceptor>(sub: &mut BufferReader, acceptor: &mut A) -> (r: Result<
    (),
    RobotPacketParseError,
>)
    requires
        old(sub).spec_index() == 0,
        0 < old(sub).spec_buf().len() <= 255,
        old(sub).spec_buf()[0] != 1,
    ensures
        r == reader_tag_outcome(old(sub).spec_buf()),
        final(acceptor).received() == match tag_event(old(sub).spec_buf()) {
            Some(e) => old(acceptor).received().push(e),
            None => old(acceptor).received(),
        },
{
    let ghost t = sub.spec_buf();
    let extra_id = lift_err(sub.read_u8())?;
    proof {
        reveal_with_fuel(reads_fail, 6);
        reveal_with_fuel(widths_sum, 6);
    }
    if extra_id == 4 {
        let bytes_free = lift_err(sub.read_u64())?;
        proof {
            assert(t.subrange(1, 9) =~= sub.spec_buf().subrange(1, 9));
        }
        acceptor.accept_ram_usage(RobotToDriverRamUsage { bytes_free });
    } else if extra_id == 5 {
        let cpus = lift_err(sub.read_u8())?;
        let b = lift_err(sub.read_amount(cpus as usize * 16))?;
        let mut usages: Vec<CpuUsage> = Vec::new();
        let mut c: usize = 0;
        proof {
            assert(cpus == t[1]);
            assert(b@ =~= t.subrange(2, 2 + 16 * (cpus as int)));
        }
        while c < cpus as usize
            invariant
                c <= cpus,
                b@.len() == 16 * (cpus as nat),
                b@ == t.subrange(2, 2 + 16 * (cpus as int)),
                2 + 16 * (cpus as int) <= t.len(),
                usages@.len() == c,
                forall|k: int| 0 <= k < c ==> #[trigger] cpu_bytes(usages@[k]) == t.subrange(2 + 16 * k, 18 + 16 * k),
            decreases cpus - c,
        {
            proof {
                assert(c * 16 + 16 <= 16 * (cpus as nat)) by (nonlinear_arith)
                    requires c < cpus;
            }
            let u = cpu_usage_at(b, c * 16);
            proof {
                let at = (c * 16) as int;
                assert(at == 16 * (c as int));
                assert(cpu_bytes(u) =~= b@.subrange(at, at + 16));
                assert(b@.subrange(at, at + 16) =~= t.subrange(2 + at, 18 + at));
            }
            usages.push(u);
            c = c + 1;
        }
        proof {
            assert(usages@.map_values(|c: CpuUsage| cpu_bytes(c)) =~= Seq::new(
                t[1] as nat,
                |c: int| t.subrange(2 + 16 * c, 18 + 16 * c),
            ));
        }
        acceptor.accept_cpu_usage(usages.as_slice());
    } else if extra_id == 6 {
        let bytes_free = lift_err(sub.read_u64())?;
        proof {
            assert(t.subrange(1, 9) =~= sub.spec_buf().subrange(1, 9));
        }
        acceptor.accept_disk_usage(RobotToDriverDiskUsage { bytes_free });
    } else if extra_id == 8 {
        let unknown_0 = lift_err(sub.read_u8())?;
        let ports = lift_err(sub.read_const_amount::<21>())?;
        let rest = lift_err(sub.read_const_amount::<3>())?;
        let mut amps = [0u8; 21];
        let mut k: usize = 0;
        while k < 21
            invariant
                k <= 21,
                ports@.len() == 21,
                forall|j: int| 0 <= j < k ==> amps@[j] == ports@[j],
            decreases 21 - k,
        {
            amps[k] = ports[k];
            k = k + 1;
        }
        let report = PdpPortReport {
            unknown_0,
            port_amp_report: PdpPortAmpReport(amps),
            unknown_1: [rest[0], rest[1], rest[2]],
        };
        proof {
            assert(amps@ =~= ports@);
            assert(pdp_port_bytes(report) =~= t.subrange(1, 26));
        }
        acceptor.accept_pdp_port_report(report);
    } else if extra_id == 9 {
        let v = lift_err(sub.read_const_amount::<9>())?;
        let report = PdpPowerReportInner([v[0], v[1], v[2], v[3], v[4], v[5], v[6], v[7], v[8]]);
        proof {
            assert(report.0@ =~= t.subrange(1, 10));
        }
        acceptor.accept_pdp_power_report(report);
    } else if extra_id == 14 {
        let utilization = lift_err(sub.read_u32())?;
        let bus_off = lift_err(sub.read_u32())?;
        let tx_full = lift_err(sub.read_u32())?;
        let rx = lift_err(sub.read_u8())?;
        let tx = lift_err(sub.read_u8())?;
        proof {
            assert(t.subrange(1, 5) =~= sub.spec_buf().subrange(1, 5));
            assert(t.subrange(5, 9) =~= sub.spec_buf().subrange(5, 9));
            assert(t.subrange(9, 13) =~= sub.spec_buf().subrange(9, 13));
        }
        acceptor.accept_can_usage(
            RobotToDriverCanUsage { utilization, bus_off, tx_full, rx, tx },
        );
    } else {
        return Err(RobotPacketParseError::RobotToDriverInvalidUsageTag(extra_id));
    }
    lift_err(sub.assert_empty())
}

impl<'a> RobotToDriverPacketReader<'a, Tags> {
    /// Reads the tags to the end of the buffer and hands each to `acceptor`,
    /// with the outcome of [`reader_tags`]. A packet whose tags come to a rumble
    /// tag is not accepted: there is no way to deliver one yet.
    pub fn read_tags<A: PacketTagAcceptor>(self, acceptor: &mut A) -> (r: Result<
        (),
        RobotPacketParseError,
    >)
        requires
            self.reader.spec_index() <= self.reader.spec_buf().len(),
            self.reader.headroom(),
            !reader_meets_rumble(self.reader.spec_buf(), self.reader.spec_index()),
        ensures
            r == reader_tags(self.reader.spec_buf(), self.reader.spec_index()).0,
            final(acceptor).received() == reader_events(
                self.reader.spec_buf(),
                self.reader.spec_index(),
                old(acceptor).received(),
            ),
    {
        let mut buf = self.reader;
        let ghost d = buf.spec_buf();
        let ghost start = buf.spec_index();
        proof {
            buf.lemma_len_bound();
        }
        while buf.has_more()
            invariant
                buf.spec_buf() == d,
                d == self.reader.spec_buf(),
                start == self.reader.spec_index(),
                buf.spec_index() <= d.len(),
                d.len() + 0x2_0000 <= usize::MAX,
                reader_tags(d, start).0 == reader_tags(d, buf.spec_index()).0,
                reader_events(d, start, old(acceptor).received()) == reader_events(
                    d,
                    buf.spec_index(),
                    acceptor.received(),
                ),
                !reader_meets_rumble(d, buf.spec_index()),
            decreases d.len() - buf.spec_index(),
        {
            let mut sub = lift_err(buf.read_known_length_u8())?;
            if sub.remaining_packet_data() == 0 {
                continue;
            }
            deliver_tag(&mut sub, acceptor)?;
        }
        Ok(())
    }
}


/// An acceptor that keeps its record in ghost state only, for a dry run over
/// the tags.
struct Discard {
    seen: Ghost<Seq<UsageEvent>>,
}

impl PacketTagAcceptor for Discard {
    closed spec fn received(&self) -> Seq<UsageEvent> {
        self.seen@
    }

    fn accept_rumble(&mut self, rumble: RobotToDriverRumble) {
        self.seen = Ghost(self.seen@.push(UsageEvent::Rumble(rumble)));
    }

    fn accept_ram_usage(&mut self, bytes_free: RobotToDriverRamUsage) {
        self.seen = Ghost(self.seen@.push(UsageEvent::RamUsage(bytes_free)));
    }

    fn accept_disk_usage(&mut self, bytes_free: RobotToDriverDiskUsage) {
        self.seen = Ghost(self.seen@.push(UsageEvent::DiskUsage(bytes_free)));
    }

    fn accept_cpu_usage(&mut self, cpu_usage: &[CpuUsage]) {
        self.seen = Ghost(
            self.seen@.push(UsageEvent::CpuUsage(cpu_usage@.map_values(|c: CpuUsage| cpu_bytes(c)))),
        );
    }

    fn accept_can_usage(&mut self, can_usage: RobotToDriverCanUsage) {
        self.seen = Ghost(self.seen@.push(UsageEvent::CanUsage(can_usage)));
    }

    fn accept_pdp_port_report(&mut self, pdp_port_report: PdpPortReport) {
        self.seen = Ghost(self.seen@.push(UsageEvent::PdpPortReport(pdp_port_bytes(pdp_port_report))));
    }

    fn accept_pdp_power_report(&mut self, pdp_power_report: PdpPowerReportInner) {
        self.seen = Ghost(self.seen@.push(UsageEvent::PdpPowerReport(pdp_power_report.0@)));
    }
}

impl<'a> RobotToDriverPacketReader<'a, Tags> {
    /// Whether reading the tags would come to a rumble tag
    /// ([`reader_meets_rumble`]), which [`Self::read_tags`] cannot deliver.
    pub fn meets_rumble(&self) -> (r: bool)
        requires
            self.reader.spec_index() <= self.reader.spec_buf().len(),
            self.reader.headroom(),
        ensures
            r == reader_meets_rumble(self.reader.spec_buf(), self.reader.spec_index()),
    {
        let mut buf = self.reader;
        let ghost d = buf.spec_buf();
        proof {
            buf.lemma_len_bound();
        }
        let mut discard = Discard { seen: Ghost(Seq::empty()) };
        while buf.has_more()
            invariant
                buf.spec_buf() == d,
                d == self.reader.spec_buf(),
                buf.spec_index() <= d.len(),
                d.len() + 0x2_0000 <= usize::MAX,
                reader_meets_rumble(d, self.reader.spec_index()) == reader_meets_rumble(
                    d,
                    buf.spec_index(),
                ),
            decreases d.len() - buf.spec_index(),
        {
            let mut sub = match buf.read_known_length_u8() {
                Ok(sub) => sub,
                Err(_) => {
                    return false;
                },
            };
            if sub.remaining_packet_data() == 0 {
                continue;
            }
            match sub.peek_u8() {
                Ok(1) => {
                    return true;
                },
                _ => {},
            }
            if deliver_tag(&mut sub, &mut discard).is_err() {
                return false;
            }
        }
        false
    }
}

} // verus!
