use vstd::prelude::*;

use crate::buffer_writter::{
    be2, be4, be8, be_bytes, lemma_be_bytes_len, lemma_wrote_all_empty, lemma_wrote_all_next,
    lemma_wrote_all_one, wrote_all, BufferWritter, BufferWritterError, WriteToBuff,
};
use crate::robot_to_driver::{
    rtd_wire, CpuUsage, PdpPortReport, PdpPowerReport, RobotToDriverCanUsage,
    RobotToDriverDiskUsage, RobotToDriverRamUsage, RobotToDriverRumble,
    RobotToDriverstationPacket,
};

verus! {

/// Writes a robot packet: its fixed part first, then the usage tags asked for,
/// each with its length in front.
pub struct RobotToDriverstaionPacketWritter<'b, T: BufferWritter> {
    pub writter: &'b mut T,
}

/// The bytes of the ram usage tag.
pub open spec fn ram_usage_wire(usage: RobotToDriverRamUsage) -> Seq<u8> {
    seq![9u8, 6u8] + be_bytes(usage.bytes_free as nat, 8)
}

/// The bytes of the rumble tag.
pub open spec fn rumble_wire(r: RobotToDriverRumble) -> Seq<u8> {
    seq![9u8, 1u8] + be_bytes(r.no_idea as nat, 4) + be_bytes(r.left as nat, 2)
        + be_bytes(r.right as nat, 2)
}

/// The bytes of the disk usage tag.
pub open spec fn disk_usage_wire(usage: RobotToDriverDiskUsage) -> Seq<u8> {
    seq![9u8, 4u8] + be_bytes(usage.bytes_free as nat, 8)
}

/// The bytes of the CAN usage tag.
pub open spec fn can_usage_wire(u: RobotToDriverCanUsage) -> Seq<u8> {
    seq![15u8, 0x0eu8] + be_bytes(u.utilization as nat, 4) + be_bytes(u.bus_off as nat, 4)
        + be_bytes(u.tx_full as nat, 4) + seq![u.rx, u.tx]
}

/// The 16 bytes of each cpu in turn.
pub open spec fn cpu_bytes(s: Seq<CpuUsage>) -> Seq<u8>
    decreases s.len(),
{
    if s.len() == 0 {
        Seq::empty()
    } else {
        cpu_bytes(s.drop_last()) + s.last().user@ + s.last().unknown1@ + s.last().unknown2@
            + s.last().system@
    }
}

/// The bytes of the cpu usage tag.
pub open spec fn cpu_usage_wire(s: Seq<CpuUsage>) -> Seq<u8> {
    seq![(1 + 16 * s.len()) as u8, 5u8] + cpu_bytes(s)
}

/// Each usage tag is framed the same way: a length byte counting what follows
/// it, then the tag's id, then its data; the ids are 1 rumble, 4 disk usage,
/// 5 cpu usage, 6 ram usage and 0x0e CAN usage.
pub proof fn law_usage_tag_frames(
    r: RobotToDriverRumble,
    disk: RobotToDriverDiskUsage,
    ram: RobotToDriverRamUsage,
    can: RobotToDriverCanUsage,
    cpus: Seq<CpuUsage>,
)
    ensures
        rumble_wire(r).len() == rumble_wire(r)[0] + 1 && rumble_wire(r)[1] == 1,
        disk_usage_wire(disk).len() == disk_usage_wire(disk)[0] + 1 && disk_usage_wire(disk)[1] == 4,
        ram_usage_wire(ram).len() == ram_usage_wire(ram)[0] + 1 && ram_usage_wire(ram)[1] == 6,
        can_usage_wire(can).len() == can_usage_wire(can)[0] + 1 && can_usage_wire(can)[1] == 0x0e,
        cpu_usage_wire(cpus)[1] == 5,
{
    lemma_be_bytes_len(r.no_idea as nat, 4);
    lemma_be_bytes_len(r.left as nat, 2);
    lemma_be_bytes_len(r.right as nat, 2);
    lemma_be_bytes_len(disk.bytes_free as nat, 8);
    lemma_be_bytes_len(ram.bytes_free as nat, 8);
    lemma_be_bytes_len(can.utilization as nat, 4);
    lemma_be_bytes_len(can.bus_off as nat, 4);
    lemma_be_bytes_len(can.tx_full as nat, 4);
}

/// A write of `head`, then `gap` bytes that keep what the buffer held, then
/// `tail`, all of which fit.
pub open spec fn wrote_with_gap<W: BufferWritter>(
    before: W,
    after: W,
    head: Seq<u8>,
    gap: nat,
    tail: Seq<u8>,
) -> bool {
    let n = before.spec_written().len();
    let size = head.len() + gap + tail.len();
    &&& after.spec_written().len() == n + size
    &&& after.spec_written().take((n + head.len()) as int) == before.spec_written() + head
    &&& after.spec_written().skip((n + head.len() + gap) as int) == tail
    &&& after.spec_room() == before.spec_room() - size
    &&& forall|k: nat| #[trigger] after.spec_full_error(k) == before.spec_full_error(k + size)
}

/// Bytes a write of `head`, `gap` kept bytes and `tail` left when it stopped
/// part-way: fewer than all of them, and where they reach into `head` or
/// `tail`, those bytes.
pub open spec fn partial_gapped(extra: Seq<u8>, head: Seq<u8>, gap: nat, tail: Seq<u8>) -> bool {
    &&& extra.len() < head.len() + gap + tail.len()
    &&& forall|i: int| 0 <= i < extra.len() && i < head.len() ==> #[trigger] extra[i] == head[i]
    &&& forall|i: int|
        head.len() + gap <= i < extra.len() ==> #[trigger] extra[i] == tail[i - head.len() - gap]
}

/// A write that failed: it did not fit, and what was written before stays.
pub open spec fn failed_gapped<W: BufferWritter>(before: W, after: W, size: nat) -> bool {
    &&& size > before.spec_room()
    &&& after.spec_written().len() >= before.spec_written().len()
    &&& after.spec_written().take(before.spec_written().len() as int) == before.spec_written()
}

impl<'b, T: BufferWritter> RobotToDriverstaionPacketWritter<'b, T> {
    /// Starts a packet by writing its fixed part.
    pub fn new(writter: &'b mut T, packet: RobotToDriverstationPacket) -> (r: Result<
        Self,
        BufferWritterError,
    >)
        ensures
            match r {
                Ok(w) => wrote_all(*old(writter), *w.writter, rtd_wire(packet), Ok(()))
                    && *final(w.writter) == *final(writter),
                Err(e) => wrote_all(
                    *old(writter),
                    *final(writter),
                    rtd_wire(packet),
                    Err::<(), BufferWritterError>(e),
                ),
            },
    {
        match packet.write_to_buf(writter) {
            Ok(()) => Ok(RobotToDriverstaionPacketWritter { writter }),
            Err(e) => Err(e),
        }
    }

    /// Adds the ram usage tag: length 9, tag 6, the free bytes as a u64.
    pub fn ram_usage(&mut self, usage: RobotToDriverRamUsage) -> (r: Result<
        &mut Self,
        BufferWritterError,
    >)
        ensures
            match r {
                Ok(s) => wrote_all(*old(self).writter, *s.writter, ram_usage_wire(usage), Ok(()))
                    && *final(s) == *final(self),
                Err(e) => wrote_all(
                    *old(self).writter,
                    *final(self).writter,
                    ram_usage_wire(usage),
                    Err::<(), BufferWritterError>(e),
                ),
            },
    {
        let ghost total = ram_usage_wire(usage);
        let ghost before = *self.writter;
        proof {
            assert(total.take(0) =~= Seq::<u8>::empty());
            lemma_wrote_all_empty(before);
            reveal_with_fuel(be_bytes, 2);
            assert(total.subrange(0, 1) =~= be_bytes(9, 1));
            assert(total.subrange(1, 2) =~= be_bytes(6, 1));
            lemma_be_bytes_len(usage.bytes_free as nat, 8);
            assert(total.subrange(2, 10) =~= be_bytes(usage.bytes_free as nat, 8));
        }
        let ghost mid = *self.writter;
        let res = self.writter.write_u8(9);
        proof {
            lemma_wrote_all_next(before, mid, *self.writter, total, 0, 1, res);
        }
        if let Err(e) = res {
            return Err(e);
        }
        let ghost mid = *self.writter;
        let res = self.writter.write_u8(6);
        proof {
            lemma_wrote_all_next(before, mid, *self.writter, total, 1, 1, res);
        }
        if let Err(e) = res {
            return Err(e);
        }
        let ghost mid = *self.writter;
        let res = self.writter.write_u64(usage.bytes_free);
        proof {
            lemma_wrote_all_next(before, mid, *self.writter, total, 2, 8, res);
            assert(total.take(10) =~= total);
        }
        if let Err(e) = res {
            return Err(e);
        }
        Ok(self)
    }

    /// Writes `block` whole, or nothing when it does not fit.
    fn write_block(&mut self, block: &[u8]) -> (r: Result<&mut Self, BufferWritterError>)
        ensures
            match r {
                Ok(s) => wrote_all(*old(self).writter, *s.writter, block@, Ok(()))
                    && *final(s) == *final(self),
                Err(e) => wrote_all(
                    *old(self).writter,
                    *final(self).writter,
                    block@,
                    Err::<(), BufferWritterError>(e),
                ),
            },
    {
        let ghost before = *self.writter;
        let res = self.writter.write_buf(block);
        proof {
            lemma_wrote_all_one(before, *self.writter, block@, res);
        }
        match res {
            Ok(()) => Ok(self),
            Err(e) => Err(e),
        }
    }

    /// Adds the rumble tag: length 9, tag 1, a u32 and the left and right
    /// rumble as u16s.
    pub fn rumble(&mut self, rumble: RobotToDriverRumble) -> (r: Result<
        &mut Self,
        BufferWritterError,
    >)
        ensures
            match r {
                Ok(s) => wrote_all(*old(self).writter, *s.writter, rumble_wire(rumble), Ok(()))
                    && *final(s) == *final(self),
                Err(e) => wrote_all(
                    *old(self).writter,
                    *final(self).writter,
                    rumble_wire(rumble),
                    Err::<(), BufferWritterError>(e),
                ),
            },
    {
        let a = be4(rumble.no_idea);
        let l = be2(rumble.left);
        let rr = be2(rumble.right);
        let block = [9u8, 1, a[0], a[1], a[2], a[3], l[0], l[1], rr[0], rr[1]];
        proof {
            assert(block@ =~= rumble_wire(rumble));
        }
        self.write_block(block.as_slice())
    }

    /// Adds the disk usage tag: length 9, tag 4, the free bytes as a u64.
    pub fn disk_usage(&mut self, usage: RobotToDriverDiskUsage) -> (r: Result<
        &mut Self,
        BufferWritterError,
    >)
        ensures
            match r {
                Ok(s) => wrote_all(*old(self).writter, *s.writter, disk_usage_wire(usage), Ok(()))
                    && *final(s) == *final(self),
                Err(e) => wrote_all(
                    *old(self).writter,
                    *final(self).writter,
                    disk_usage_wire(usage),
                    Err::<(), BufferWritterError>(e),
                ),
            },
    {
        let v = be8(usage.bytes_free);
        let block = [9u8, 4, v[0], v[1], v[2], v[3], v[4], v[5], v[6], v[7]];
        proof {
            assert(block@ =~= disk_usage_wire(usage));
        }
        self.write_block(block.as_slice())
    }

    /// Adds the CAN usage tag: length 15, tag 14, the utilization bits, the bus
    /// off and tx full counts, and the rx and tx bytes.
    pub fn can_usage(&mut self, usage: RobotToDriverCanUsage) -> (r: Result<
        &mut Self,
        BufferWritterError,
    >)
        ensures
            match r {
                Ok(s) => wrote_all(*old(self).writter, *s.writter, can_usage_wire(usage), Ok(()))
                    && *final(s) == *final(self),
                Err(e) => wrote_all(
                    *old(self).writter,
                    *final(self).writter,
                    can_usage_wire(usage),
                    Err::<(), BufferWritterError>(e),
                ),
            },
    {
        let u = be4(usage.utilization);
        let b = be4(usage.bus_off);
        let t = be4(usage.tx_full);
        let block = [
            15u8,
            0x0e,
            u[0],
            u[1],
            u[2],
            u[3],
            b[0],
            b[1],
            b[2],
            b[3],
            t[0],
            t[1],
            t[2],
            t[3],
            usage.rx,
            usage.tx,
        ];
        proof {
            assert(block@ =~= can_usage_wire(usage));
        }
        self.write_block(block.as_slice())
    }

    /// Adds the cpu usage tag: its length, tag 5 and the 16 bytes of each cpu;
    /// no count is written. More than 15 cpus do not fit the one-byte length.
    pub fn cpu_usage(&mut self, usage: &[CpuUsage]) -> (r: Result<&mut Self, BufferWritterError>)
        ensures
            usage@.len() > 15 ==> (r matches Err(BufferWritterError::SizeValueOverflow)
                && *final(self) == *old(self)),
            usage@.len() <= 15 ==> match r {
                Ok(s) => wrote_all(*old(self).writter, *s.writter, cpu_usage_wire(usage@), Ok(()))
                    && *final(s) == *final(self),
                Err(e) => wrote_all(
                    *old(self).writter,
                    *final(self).writter,
                    cpu_usage_wire(usage@),
                    Err::<(), BufferWritterError>(e),
                ),
            },
    {
        if usage.len() > 15 {
            return Err(BufferWritterError::SizeValueOverflow);
        }
        let mut block: Vec<u8> = Vec::new();
        block.push((1 + 16 * usage.len()) as u8);
        block.push(5);
        let mut k: usize = 0;
        while k < usage.len()
            invariant
                k <= usage@.len(),
                usage@.len() <= 15,
                block@ == seq![(1 + 16 * usage@.len()) as u8, 5u8] + cpu_bytes(usage@.take(k as int)),
            decreases usage@.len() - k,
        {
            let c = usage[k];
            let mut q: usize = 0;
            while q < 4
                invariant
                    q <= 4,
                    block@ == seq![(1 + 16 * usage@.len()) as u8, 5u8] + cpu_bytes(
                        usage@.take(k as int),
                    ) + c.user@.take(q as int),
                decreases 4 - q,
            {
                block.push(c.user[q]);
                q = q + 1;
            }
            let mut q: usize = 0;
            while q < 4
                invariant
                    q <= 4,
                    block@ == seq![(1 + 16 * usage@.len()) as u8, 5u8] + cpu_bytes(
                        usage@.take(k as int),
                    ) + c.user@ + c.unknown1@.take(q as int),
                decreases 4 - q,
            {
                block.push(c.unknown1[q]);
                q = q + 1;
            }
            let mut q: usize = 0;
            while q < 4
                invariant
                    q <= 4,
                    block@ == seq![(1 + 16 * usage@.len()) as u8, 5u8] + cpu_bytes(
                        usage@.take(k as int),
                    ) + c.user@ + c.unknown1@ + c.unknown2@.take(q as int),
                decreases 4 - q,
            {
                block.push(c.unknown2[q]);
                q = q + 1;
            }
            let mut q: usize = 0;
            while q < 4
                invariant
                    q <= 4,
                    block@ == seq![(1 + 16 * usage@.len()) as u8, 5u8] + cpu_bytes(
                        usage@.take(k as int),
                    ) + c.user@ + c.unknown1@ + c.unknown2@ + c.system@.take(q as int),
                decreases 4 - q,
            {
                block.push(c.system[q]);
                q = q + 1;
            }
            proof {
                assert(usage@.take(k + 1).drop_last() =~= usage@.take(k as int));
                assert(c.user@.take(4) =~= c.user@);
                assert(c.unknown1@.take(4) =~= c.unknown1@);
                assert(c.unknown2@.take(4) =~= c.unknown2@);
                assert(c.system@.take(4) =~= c.system@);
                assert(block@ =~= seq![(1 + 16 * usage@.len()) as u8, 5u8] + cpu_bytes(
                    usage@.take(k + 1),
                ));
            }
            k = k + 1;
        }
        proof {
            assert(usage@.take(usage@.len() as int) =~= usage@);
        }
        self.write_block(block.as_slice())
    }

    /// Adds the pdp port report: length 26, then 8 bytes reserved where the tag
    /// belongs, which keep what the buffer held there, then the report's 25
    /// bytes.
    pub fn pdp_port_report(&mut self, report: &PdpPortReport) -> (r: Result<
        &mut Self,
        BufferWritterError,
    >)
        ensures
            match r {
                Ok(s) => wrote_with_gap(
                    *old(self).writter,
                    *s.writter,
                    seq![26u8],
                    8,
                    seq![report.unknown_0] + report.port_amp_report.0@ + report.unknown_1@,
                ) && *final(s) == *final(self),
                Err(_) => failed_gapped(*old(self).writter, *final(self).writter, 34)
                    && partial_gapped(
                    final(self).writter.spec_written().skip(old(self).writter.spec_written().len() as int),
                    seq![26u8],
                    8,
                    seq![report.unknown_0] + report.port_amp_report.0@ + report.unknown_1@,
                ),
            },
    {
        let tail = [
            report.unknown_0,
            report.port_amp_report.0[0],
            report.port_amp_report.0[1],
            report.port_amp_report.0[2],
            report.port_amp_report.0[3],
            report.port_amp_report.0[4],
            report.port_amp_report.0[5],
            report.port_amp_report.0[6],
            report.port_amp_report.0[7],
            report.port_amp_report.0[8],
            report.port_amp_report.0[9],
            report.port_amp_report.0[10],
            report.port_amp_report.0[11],
            report.port_amp_report.0[12],
            report.port_amp_report.0[13],
            report.port_amp_report.0[14],
            report.port_amp_report.0[15],
            report.port_amp_report.0[16],
            report.port_amp_report.0[17],
            report.port_amp_report.0[18],
            report.port_amp_report.0[19],
            report.port_amp_report.0[20],
            report.unknown_1[0],
            report.unknown_1[1],
            report.unknown_1[2],
        ];
        proof {
            assert(tail@ =~= seq![report.unknown_0] + report.port_amp_report.0@
                + report.unknown_1@);
        }
        self.write_gapped(26, tail.as_slice())
    }

    /// Adds the pdp power report: length 10, then 8 bytes reserved where the tag
    /// belongs, which keep what the buffer held there, then the report's 9
    /// bytes.
    pub fn pdp_power_report(&mut self, report: PdpPowerReport) -> (r: Result<
        &mut Self,
        BufferWritterError,
    >)
        ensures
            match r {
                Ok(s) => wrote_with_gap(
                    *old(self).writter,
                    *s.writter,
                    seq![10u8],
                    8,
                    report.inner.0@,
                ) && *final(s) == *final(self),
                Err(_) => failed_gapped(*old(self).writter, *final(self).writter, 18)
                    && partial_gapped(
                    final(self).writter.spec_written().skip(old(self).writter.spec_written().len() as int),
                    seq![10u8],
                    8,
                    report.inner.0@,
                ),
            },
    {
        self.write_gapped(10, report.inner.0.as_slice())
    }

    /// Writes `len`, reserves 8 bytes, and writes `tail`.
    fn write_gapped(&mut self, len: u8, tail: &[u8]) -> (r: Result<&mut Self, BufferWritterError>)
        ensures
            match r {
                Ok(s) => wrote_with_gap(*old(self).writter, *s.writter, seq![len], 8, tail@)
                    && *final(s) == *final(self),
                Err(_) => failed_gapped(*old(self).writter, *final(self).writter, 1 + 8 + tail@.len())
                    && partial_gapped(
                    final(self).writter.spec_written().skip(old(self).writter.spec_written().len() as int),
                    seq![len],
                    8,
                    tail@,
                ),
            },
    {
        let ghost v0 = *self.writter;
        let ghost w0 = self.writter.spec_written();
        proof {
            reveal_with_fuel(be_bytes, 2);
        }
        let res = self.writter.write_u8(len);
        if let Err(e) = res {
            proof {
                assert(w0.take(w0.len() as int) =~= w0);
                assert(w0.skip(w0.len() as int) =~= Seq::<u8>::empty());
            }
            return Err(e);
        }
        let ghost v1 = *self.writter;
        let ghost w1 = self.writter.spec_written();
        let res = self.writter.write(8);
        if let Err(e) = res {
            proof {
                assert(be_bytes(len as nat, 1) =~= seq![len]);
                assert(w1 == w0 + seq![len]);
                assert(w1.take(w0.len() as int) =~= w0);
                assert(w1.skip(w0.len() as int) =~= seq![len]);
            }
            return Err(e);
        }
        let ghost v2 = *self.writter;
        let ghost w2 = self.writter.spec_written();
        let res = self.writter.write_buf(tail);
        if let Err(e) = res {
            proof {
                assert(w2.take(w0.len() as int) =~= w1.take(w0.len() as int));
                assert(w1.take(w0.len() as int) =~= w0);
                assert(be_bytes(len as nat, 1) =~= seq![len]);
                assert(w1 == w0 + seq![len]);
                assert(w2.subrange(0, w1.len() as int) == w1);
                assert(w2[w0.len() as int] == w1[w0.len() as int]);
                assert(w2.skip(w0.len() as int)[0] == len);
            }
            return Err(e);
        }
        proof {
            let w3 = self.writter.spec_written();
            assert(w3.take(w0.len() as int + 1) =~= w0 + seq![len]);
            assert(w3.skip(w0.len() as int + 9) =~= tail@);
            let size = 1 + 8 + tail@.len();
            assert forall|k: nat| #[trigger] self.writter.spec_full_error(k) == v0.spec_full_error(
                k + size,
            ) by {
                assert(self.writter.spec_full_error(k) == v2.spec_full_error(k + tail@.len()));
                assert(v2.spec_full_error(k + tail@.len()) == v1.spec_full_error(
                    k + tail@.len() + 8,
                ));
                assert(v1.spec_full_error(k + tail@.len() + 8) == v0.spec_full_error(
                    k + tail@.len() + 8 + 1,
                ));
            }
        }
        Ok(self)
    }

    /// The bytes written so far.
    pub fn into_buf(self) -> (r: &'b [u8])
        ensures
            r@ == old(self.writter).spec_written(),
    {
        let w: &'b T = self.writter;
        w.curr_buf()
    }
}

} // verus!
