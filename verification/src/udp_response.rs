use vstd::prelude::*;

use crate::buffer_writter::{wrote_all, BufferWritter, BufferWritterError};
use crate::robot_to_driver::writter::{
    can_usage_wire, cpu_usage_wire, disk_usage_wire, failed_gapped, partial_gapped, ram_usage_wire, rumble_wire,
    wrote_with_gap, RobotToDriverstaionPacketWritter,
};
use crate::robot_to_driver::{
    CpuUsage, PdpPortReport, PdpPowerReport, RobotToDriverCanUsage, RobotToDriverDiskUsage,
    RobotToDriverRamUsage, RobotToDriverRumble,
};
use crate::buffer_writter::lemma_be_bytes_len;
use crate::control_code::ControlCodeView;
use crate::driver_to_robot::DriverstationToRobotCorePacketDate;
use crate::request_code::DriverstationRequestCodeView;
use crate::roborio_logic::{
    dropped_packets, merge_control_code, merged_code, mode_hook, plan_hooks, spec_dropped, tag_due, HookPlan,
};
use crate::roborio_status_code::RobotStatusCodeView;
use crate::buffer_writter::WriteToBuff;
use crate::robot_to_driver::{rtd_wire, RobotToDriverstationPacket};

verus! {

/// The usage reports a roboRIO adds to its packets, each while it is set.
pub struct UdpTags {
    pub rumble: Option<RobotToDriverRumble>,
    pub disk_usage: Option<RobotToDriverDiskUsage>,
    pub cpu_usage: Option<Vec<CpuUsage>>,
    pub ram_usage: Option<RobotToDriverRamUsage>,
    pub pdp_port_report: Option<PdpPortReport>,
    pub pdp_power_report: Option<PdpPowerReport>,
    pub can_usage: Option<RobotToDriverCanUsage>,
}

impl Default for UdpTags {
    fn default() -> (r: Self)
        ensures
            r.rumble is None,
            r.disk_usage is None,
            r.cpu_usage is None,
            r.ram_usage is None,
            r.pdp_port_report is None,
            r.pdp_power_report is None,
            r.can_usage is None,
    {
        UdpTags {
            rumble: None,
            disk_usage: None,
            cpu_usage: None,
            ram_usage: None,
            pdp_port_report: None,
            pdp_power_report: None,
            can_usage: None,
        }
    }
}

/// Every how many packets each usage report goes out; 0 never sends it.
#[derive(Debug, Clone, Copy, PartialEq, Eq, Structural)]
pub struct UdpTagFrequencies {
    pub disk_usage_m: u8,
    pub cpu_usage_m: u8,
    pub ram_usage_m: u8,
    pub pdp_port_report_m: u8,
    pub pdp_power_report_m: u8,
    pub can_usage_m: u8,
}

impl Default for UdpTagFrequencies {
    /// The slow reports every 51 packets, the power and CAN reports every 3.
    fn default() -> (r: Self)
        ensures
            r == (UdpTagFrequencies {
                disk_usage_m: 51,
                cpu_usage_m: 51,
                ram_usage_m: 51,
                pdp_port_report_m: 3,
                pdp_power_report_m: 3,
                can_usage_m: 3,
            }),
    {
        UdpTagFrequencies {
            disk_usage_m: 51,
            cpu_usage_m: 51,
            ram_usage_m: 51,
            pdp_port_report_m: 3,
            pdp_power_report_m: 3,
            can_usage_m: 3,
        }
    }
}

/// What one tag writes: leading bytes, a number of reserved bytes that keep
/// what the buffer held, and trailing bytes.
pub open spec fn seg_len(s: (Seq<u8>, nat, Seq<u8>)) -> nat {
    s.0.len() + s.1 + s.2.len()
}

/// The length a step writes; a step that cannot be written (`None`) writes
/// nothing.
pub open spec fn opt_seg_len(o: Option<(Seq<u8>, nat, Seq<u8>)>) -> nat {
    match o {
        Some(s) => seg_len(s),
        None => 0,
    }
}

/// The total length of the steps.
pub open spec fn steps_len(steps: Seq<Option<(Seq<u8>, nat, Seq<u8>)>>) -> nat
    decreases steps.len(),
{
    if steps.len() == 0 {
        0
    } else {
        steps_len(steps.drop_last()) + opt_seg_len(steps.last())
    }
}

/// Whether every step can be written.
pub open spec fn steps_ok(steps: Seq<Option<(Seq<u8>, nat, Seq<u8>)>>) -> bool {
    forall|i: int| 0 <= i < steps.len() ==> (#[trigger] steps[i]) is Some
}

/// `after` is `before` followed by the steps in order, each laid out as its
/// leading bytes, its reserved bytes and its trailing bytes.
pub open spec fn wrote_steps(
    before: Seq<u8>,
    after: Seq<u8>,
    steps: Seq<Option<(Seq<u8>, nat, Seq<u8>)>>,
) -> bool
    decreases steps.len(),
{
    if steps.len() == 0 {
        after == before
    } else {
        let n = after.len() - opt_seg_len(steps.last());
        &&& n >= 0
        &&& wrote_steps(before, after.take(n), steps.drop_last())
        &&& match steps.last() {
            Some(s) => {
                &&& after.skip(n).take(s.0.len() as int) == s.0
                &&& after.skip(n + s.0.len() + s.1) == s.2
            },
            None => true,
        }
    }
}

/// One step when `due`, none otherwise.
pub open spec fn step_if(due: bool, step: Option<(Seq<u8>, nat, Seq<u8>)>) -> Seq<
    Option<(Seq<u8>, nat, Seq<u8>)>,
> {
    if due {
        seq![step]
    } else {
        Seq::empty()
    }
}

/// Whether a report sent every `freq` packets is due `offset` packets into
/// its cycle after `sent` packets.
pub open spec fn report_due(sent: nat, freq: u8, offset: nat) -> bool {
    freq != 0 && (sent + offset) % (freq as nat) == 0
}

/// A tag written whole.
pub open spec fn plain(bytes: Seq<u8>) -> Option<(Seq<u8>, nat, Seq<u8>)> {
    Some((bytes, 0, Seq::empty()))
}

pub open spec fn rumble_step(t: UdpTags) -> Seq<Option<(Seq<u8>, nat, Seq<u8>)>> {
    match t.rumble {
        Some(x) => seq![plain(rumble_wire(x))],
        None => Seq::empty(),
    }
}

pub open spec fn disk_step(t: UdpTags, f: UdpTagFrequencies, sent: nat) -> Seq<
    Option<(Seq<u8>, nat, Seq<u8>)>,
> {
    match t.disk_usage {
        Some(x) => step_if(report_due(sent, f.disk_usage_m, 1), plain(disk_usage_wire(x))),
        None => Seq::empty(),
    }
}

/// The cpu report cannot be written with more than 15 cpus.
pub open spec fn cpu_step(t: UdpTags, f: UdpTagFrequencies, sent: nat) -> Seq<
    Option<(Seq<u8>, nat, Seq<u8>)>,
> {
    match t.cpu_usage {
        Some(v) => step_if(
            report_due(sent, f.cpu_usage_m, 2),
            cpu_one(v@),
        ),
        None => Seq::empty(),
    }
}

pub open spec fn ram_step(t: UdpTags, f: UdpTagFrequencies, sent: nat) -> Seq<
    Option<(Seq<u8>, nat, Seq<u8>)>,
> {
    match t.ram_usage {
        Some(x) => step_if(report_due(sent, f.ram_usage_m, 3), plain(ram_usage_wire(x))),
        None => Seq::empty(),
    }
}

/// The port report reserves 8 bytes after its length.
pub open spec fn pdp_port_step(t: UdpTags, f: UdpTagFrequencies, sent: nat) -> Seq<
    Option<(Seq<u8>, nat, Seq<u8>)>,
> {
    match t.pdp_port_report {
        Some(x) => step_if(
            report_due(sent, f.pdp_port_report_m, 4),
            Some((seq![26u8], 8, seq![x.unknown_0] + x.port_amp_report.0@ + x.unknown_1@)),
        ),
        None => Seq::empty(),
    }
}

/// The power report reserves 8 bytes after its length.
pub open spec fn pdp_power_step(t: UdpTags, f: UdpTagFrequencies, sent: nat) -> Seq<
    Option<(Seq<u8>, nat, Seq<u8>)>,
> {
    match t.pdp_power_report {
        Some(x) => step_if(
            report_due(sent, f.pdp_power_report_m, 5),
            Some((seq![10u8], 8, x.inner.0@)),
        ),
        None => Seq::empty(),
    }
}

pub open spec fn can_step(t: UdpTags, f: UdpTagFrequencies, sent: nat) -> Seq<
    Option<(Seq<u8>, nat, Seq<u8>)>,
> {
    match t.can_usage {
        Some(x) => step_if(report_due(sent, f.can_usage_m, 6), plain(can_usage_wire(x))),
        None => Seq::empty(),
    }
}

/// The tags a packet carries after `sent` packets, in order: the rumble
/// whenever set; the disk, cpu, ram, port, power and CAN reports when set and
/// due, each 1 to 6 packets into its cycle.
pub open spec fn udp_tag_steps(t: UdpTags, f: UdpTagFrequencies, sent: nat) -> Seq<
    Option<(Seq<u8>, nat, Seq<u8>)>,
> {
    rumble_step(t) + disk_step(t, f, sent) + cpu_step(t, f, sent) + ram_step(t, f, sent)
        + pdp_port_step(t, f, sent) + pdp_power_step(t, f, sent) + can_step(t, f, sent)
}

/// A report goes into a packet exactly when it is set and due: a frequency
/// of 1 sends it with every packet, 0 never, and `m` once every `m` packets,
/// the disk, cpu, ram, port, power and CAN reports 1 to 6 packets into their
/// cycles; the rumble goes whenever it is set.
pub proof fn law_udp_tag_frequency(t: UdpTags, f: UdpTagFrequencies, sent: nat, m: u8, o: nat)
    ensures
        report_due(sent, 1, o),
        !report_due(sent, 0, o),
        m > 0 ==> (report_due(sent, m, o) <==> report_due((sent + m) as nat, m, o)),
        rumble_step(t).len() == (if t.rumble is Some { 1int } else { 0 }),
        disk_step(t, f, sent).len() == (if t.disk_usage is Some && report_due(sent, f.disk_usage_m, 1) { 1int } else { 0 }),
        cpu_step(t, f, sent).len() == (if t.cpu_usage is Some && report_due(sent, f.cpu_usage_m, 2) { 1int } else { 0 }),
        ram_step(t, f, sent).len() == (if t.ram_usage is Some && report_due(sent, f.ram_usage_m, 3) { 1int } else { 0 }),
        pdp_port_step(t, f, sent).len() == (if t.pdp_port_report is Some && report_due(sent, f.pdp_port_report_m, 4) { 1int } else { 0 }),
        pdp_power_step(t, f, sent).len() == (if t.pdp_power_report is Some && report_due(sent, f.pdp_power_report_m, 5) { 1int } else { 0 }),
        can_step(t, f, sent).len() == (if t.can_usage is Some && report_due(sent, f.can_usage_m, 6) { 1int } else { 0 }),
{
    assert((sent + o) % 1 == 0);
    if m > 0 {
        vstd::arithmetic::div_mod::lemma_mod_add_multiples_vanish((sent + o) as int, m as int);
        assert(sent + m + o == (sent + o) + m);
    }
}

pub proof fn lemma_steps_len_concat(
    a: Seq<Option<(Seq<u8>, nat, Seq<u8>)>>,
    b: Seq<Option<(Seq<u8>, nat, Seq<u8>)>>,
)
    ensures
        steps_len(a + b) == steps_len(a) + steps_len(b),
    decreases b.len(),
{
    if b.len() == 0 {
        assert(a + b =~= a);
    } else {
        assert((a + b).drop_last() =~= a + b.drop_last());
        lemma_steps_len_concat(a, b.drop_last());
    }
}

/// What the steps wrote extends what was there by their total length.
pub proof fn lemma_wrote_steps_prefix(
    before: Seq<u8>,
    after: Seq<u8>,
    steps: Seq<Option<(Seq<u8>, nat, Seq<u8>)>>,
)
    requires
        wrote_steps(before, after, steps),
    ensures
        after.len() == before.len() + steps_len(steps),
        after.take(before.len() as int) == before,
    decreases steps.len(),
{
    if steps.len() == 0 {
        assert(after.take(before.len() as int) =~= after);
    } else {
        let n = after.len() - opt_seg_len(steps.last());
        lemma_wrote_steps_prefix(before, after.take(n), steps.drop_last());
        assert(after.take(n).take(before.len() as int) =~= after.take(before.len() as int));
    }
}

/// The state of a run of tag writes: the steps done so far were written from
/// `b0` on, and the room and errors moved on by their length.
pub open spec fn run_state<W: BufferWritter>(
    b0: W,
    cur: W,
    done: Seq<Option<(Seq<u8>, nat, Seq<u8>)>>,
) -> bool {
    &&& steps_ok(done)
    &&& wrote_steps(b0.spec_written(), cur.spec_written(), done)
    &&& steps_len(done) <= b0.spec_room()
    &&& cur.spec_room() == b0.spec_room() - steps_len(done)
    &&& forall|k: nat| #[trigger]
        cur.spec_full_error(k) == b0.spec_full_error(k + steps_len(done))
}

/// A step written whole moves the run on.
pub proof fn lemma_run_step<W: BufferWritter>(
    b0: W,
    cur: W,
    next: W,
    done: Seq<Option<(Seq<u8>, nat, Seq<u8>)>>,
    s: (Seq<u8>, nat, Seq<u8>),
)
    requires
        run_state(b0, cur, done),
        wrote_with_gap(cur, next, s.0, s.1, s.2),
    ensures
        run_state(b0, next, done.push(Some(s))),
{
    let d2 = done.push(Some(s));
    assert(d2.drop_last() =~= done);
    assert(steps_len(d2) == steps_len(done) + seg_len(s));
    let a = next.spec_written();
    let n = cur.spec_written().len();
    assert(a.take(n as int) =~= a.take((n + s.0.len()) as int).take(n as int));
    assert(a.take(n as int) =~= cur.spec_written());
    assert(a.skip(n as int).take(s.0.len() as int) =~= a.take((n + s.0.len()) as int).skip(n as int));
    assert(a.skip(n as int).take(s.0.len() as int) =~= s.0);
    assert forall|i: int| 0 <= i < d2.len() implies (#[trigger] d2[i]) is Some by {
        if i < done.len() {
            assert(d2[i] == done[i]);
        }
    }
    assert forall|k: nat| #[trigger]
        next.spec_full_error(k) == b0.spec_full_error(k + steps_len(d2)) by {
        assert(next.spec_full_error(k) == cur.spec_full_error(k + seg_len(s)));
        assert(cur.spec_full_error(k + seg_len(s)) == b0.spec_full_error(
            k + seg_len(s) + steps_len(done),
        ));
    }
}

/// A tag written by a run of writes is a step with nothing reserved.
pub proof fn lemma_plain_step<W: BufferWritter>(cur: W, next: W, bytes: Seq<u8>)
    requires
        wrote_all(cur, next, bytes, Ok(())),
    ensures
        wrote_with_gap(cur, next, bytes, 0, Seq::empty()),
{
    let a = next.spec_written();
    let n = cur.spec_written().len();
    assert(a.take((n + bytes.len()) as int) =~= a);
    assert(a.skip((n + bytes.len()) as int) =~= Seq::<u8>::empty());
    assert forall|k: nat| #[trigger]
        next.spec_full_error(k) == cur.spec_full_error(k + (bytes.len() + 0 + 0)) by {
        assert(next.spec_full_error(k) == cur.spec_full_error(k + bytes.len()));
    }
}

/// A step that did not fit leaves what came before it and means the whole run
/// does not fit.
pub proof fn lemma_run_failed<W: BufferWritter>(
    b0: W,
    cur: W,
    next: W,
    done: Seq<Option<(Seq<u8>, nat, Seq<u8>)>>,
    s: (Seq<u8>, nat, Seq<u8>),
    rest: Seq<Option<(Seq<u8>, nat, Seq<u8>)>>,
)
    requires
        run_state(b0, cur, done),
        failed_gapped(cur, next, seg_len(s)),
    ensures
        next.spec_written().len() >= b0.spec_written().len(),
        next.spec_written().take(b0.spec_written().len() as int) == b0.spec_written(),
        steps_len(done + seq![Some(s)] + rest) > b0.spec_room(),
{
    lemma_wrote_steps_prefix(b0.spec_written(), cur.spec_written(), done);
    let m = b0.spec_written().len() as int;
    assert(next.spec_written().take(m) =~= next.spec_written().take(
        cur.spec_written().len() as int,
    ).take(m));
    lemma_steps_len_concat(done, seq![Some(s)]);
    lemma_steps_len_concat(done + seq![Some(s)], rest);
    assert(seq![Some(s)].drop_last() =~= Seq::<Option<(Seq<u8>, nat, Seq<u8>)>>::empty());
}

/// A plain write that did not fit is a failed step.
pub proof fn lemma_plain_failed<W: BufferWritter>(
    cur: W,
    next: W,
    bytes: Seq<u8>,
    e: BufferWritterError,
)
    requires
        wrote_all(cur, next, bytes, Err(e)),
    ensures
        failed_gapped(cur, next, seg_len((bytes, 0, Seq::empty()))),
{
    let p = choose|p: int|
        0 <= p < bytes.len() && next.spec_written() == cur.spec_written() + bytes.take(p);
    assert(next.spec_written().take(cur.spec_written().len() as int) =~= cur.spec_written());
}

/// What a step that stopped part-way left after the steps before it: for a
/// step that can be written, part of its bytes ([`partial_gapped`]); for one
/// that cannot, nothing.
pub open spec fn step_partial(extra: Seq<u8>, o: Option<(Seq<u8>, nat, Seq<u8>)>) -> bool {
    match o {
        Some(s) => partial_gapped(extra, s.0, s.1, s.2),
        None => extra.len() == 0,
    }
}

/// How a step of a run ends: on success the run moved on by `step`; on
/// failure the steps done so far stay written, followed only by part of the
/// failing step, which cannot be written or does not fit after them.
pub open spec fn step_result<W: BufferWritter>(
    b0: W,
    a: W,
    done: Seq<Option<(Seq<u8>, nat, Seq<u8>)>>,
    step: Seq<Option<(Seq<u8>, nat, Seq<u8>)>>,
    r: Result<(), BufferWritterError>,
) -> bool {
    match r {
        Ok(()) => run_state(b0, a, done + step),
        Err(_) => {
            let m = b0.spec_written().len() + steps_len(done);
            &&& a.spec_written().len() >= b0.spec_written().len()
            &&& a.spec_written().take(b0.spec_written().len() as int) == b0.spec_written()
            &&& (!steps_ok(step) || steps_len(done) + steps_len(step) > b0.spec_room())
            &&& steps_ok(done)
            &&& step.len() > 0
            &&& a.spec_written().len() >= m
            &&& wrote_steps(b0.spec_written(), a.spec_written().take(m as int), done)
            &&& step_partial(a.spec_written().skip(m as int), step[0])
        },
    }
}

/// A step that cannot be written, or does not fit, fails the run up to it.
pub proof fn lemma_combine_failed(
    room: nat,
    done: Seq<Option<(Seq<u8>, nat, Seq<u8>)>>,
    step: Seq<Option<(Seq<u8>, nat, Seq<u8>)>>,
)
    requires
        !steps_ok(step) || steps_len(done) + steps_len(step) > room,
    ensures
        !(steps_ok(done + step) && steps_len(done + step) <= room),
{
    lemma_steps_len_concat(done, step);
    if !steps_ok(step) {
        let i = choose|i: int| 0 <= i < step.len() && !((#[trigger] step[i]) is Some);
        assert((done + step)[done.len() + i] == step[i]);
    }
}

/// A run that fails up to some step fails with more steps after it.
pub proof fn lemma_extend_failed(
    room: nat,
    a: Seq<Option<(Seq<u8>, nat, Seq<u8>)>>,
    b: Seq<Option<(Seq<u8>, nat, Seq<u8>)>>,
)
    requires
        !(steps_ok(a) && steps_len(a) <= room),
    ensures
        !(steps_ok(a + b) && steps_len(a + b) <= room),
{
    lemma_steps_len_concat(a, b);
    if !steps_ok(a) {
        let i = choose|i: int| 0 <= i < a.len() && !((#[trigger] a[i]) is Some);
        assert((a + b)[i] == a[i]);
    }
}

/// The `k`-th kind of tag in packet order, 0 the rumble to 6 the CAN report.
pub open spec fn tag_step(t: UdpTags, f: UdpTagFrequencies, sent: nat, k: nat) -> Seq<
    Option<(Seq<u8>, nat, Seq<u8>)>,
> {
    if k == 0 {
        rumble_step(t)
    } else if k == 1 {
        disk_step(t, f, sent)
    } else if k == 2 {
        cpu_step(t, f, sent)
    } else if k == 3 {
        ram_step(t, f, sent)
    } else if k == 4 {
        pdp_port_step(t, f, sent)
    } else if k == 5 {
        pdp_power_step(t, f, sent)
    } else if k == 6 {
        can_step(t, f, sent)
    } else {
        Seq::empty()
    }
}

/// The tags of kinds `k` and later, in packet order.
pub open spec fn steps_from(t: UdpTags, f: UdpTagFrequencies, sent: nat, k: nat) -> Seq<
    Option<(Seq<u8>, nat, Seq<u8>)>,
>
    decreases 7 - k,
{
    if k >= 7 {
        Seq::empty()
    } else {
        tag_step(t, f, sent, k) + steps_from(t, f, sent, k + 1)
    }
}

/// The tags of kinds before `k`, in packet order.
pub open spec fn steps_before(t: UdpTags, f: UdpTagFrequencies, sent: nat, k: nat) -> Seq<
    Option<(Seq<u8>, nat, Seq<u8>)>,
>
    decreases k,
{
    if k == 0 {
        Seq::empty()
    } else {
        steps_before(t, f, sent, (k - 1) as nat) + tag_step(t, f, sent, (k - 1) as nat)
    }
}

/// The tags before kind `k` and from it on make up the whole packet's tags.
#[verifier::rlimit(40)]
pub proof fn lemma_steps_split(t: UdpTags, f: UdpTagFrequencies, sent: nat, k: nat)
    requires
        k <= 7,
    ensures
        steps_before(t, f, sent, k) + steps_from(t, f, sent, k) == udp_tag_steps(t, f, sent),
    decreases 7 - k,
{
    if k < 7 {
        lemma_steps_split(t, f, sent, k + 1);
        assert(steps_before(t, f, sent, k) + steps_from(t, f, sent, k) =~= steps_before(t, f, sent, k + 1)
            + steps_from(t, f, sent, k + 1));
    } else {
        let e = Seq::<Option<(Seq<u8>, nat, Seq<u8>)>>::empty();
        assert(steps_before(t, f, sent, 0) == e);
        assert(steps_before(t, f, sent, 1) == e + rumble_step(t));
        assert(steps_before(t, f, sent, 2) == e + rumble_step(t) + disk_step(t, f, sent));
        assert(steps_before(t, f, sent, 3) == e + rumble_step(t) + disk_step(t, f, sent) + cpu_step(t, f, sent));
        assert(steps_before(t, f, sent, 4) == e + rumble_step(t) + disk_step(t, f, sent) + cpu_step(t, f, sent)
            + ram_step(t, f, sent));
        assert(steps_before(t, f, sent, 5) == e + rumble_step(t) + disk_step(t, f, sent) + cpu_step(t, f, sent)
            + ram_step(t, f, sent) + pdp_port_step(t, f, sent));
        assert(steps_before(t, f, sent, 6) == e + rumble_step(t) + disk_step(t, f, sent) + cpu_step(t, f, sent)
            + ram_step(t, f, sent) + pdp_port_step(t, f, sent) + pdp_power_step(t, f, sent));
        assert(steps_before(t, f, sent, 7) == e + rumble_step(t) + disk_step(t, f, sent) + cpu_step(t, f, sent)
            + ram_step(t, f, sent) + pdp_port_step(t, f, sent) + pdp_power_step(t, f, sent) + can_step(t, f, sent));
        assert(steps_before(t, f, sent, 7) + steps_from(t, f, sent, 7) =~= udp_tag_steps(t, f, sent));
    }
}

/// A run over `steps` that stopped at step `k`: the steps before it were
/// written in order, followed only by part of step `k`.
pub open spec fn stopped_at(
    before: Seq<u8>,
    after: Seq<u8>,
    steps: Seq<Option<(Seq<u8>, nat, Seq<u8>)>>,
    k: int,
) -> bool {
    let m = before.len() + steps_len(steps.take(k));
    &&& 0 <= k < steps.len()
    &&& steps_ok(steps.take(k))
    &&& after.len() >= m
    &&& wrote_steps(before, after.take(m as int), steps.take(k))
    &&& step_partial(after.skip(m as int), steps[k])
}

/// A step of kind `kind` that stopped part-way, after the kinds before it went
/// through, stops the whole packet's tags there.
pub proof fn lemma_stopped_at_kind(
    before: Seq<u8>,
    after: Seq<u8>,
    t: UdpTags,
    f: UdpTagFrequencies,
    sent: nat,
    kind: nat,
    done: Seq<Option<(Seq<u8>, nat, Seq<u8>)>>,
)
    requires
        kind < 7,
        done == steps_before(t, f, sent, kind),
        tag_step(t, f, sent, kind).len() > 0,
        steps_ok(done),
        after.len() >= before.len() + steps_len(done),
        wrote_steps(before, after.take((before.len() + steps_len(done)) as int), done),
        step_partial(after.skip((before.len() + steps_len(done)) as int), tag_step(t, f, sent, kind)[0]),
    ensures
        stopped_at(before, after, udp_tag_steps(t, f, sent), done.len() as int),
{
    lemma_steps_split(t, f, sent, kind);
    let steps = udp_tag_steps(t, f, sent);
    assert(steps.take(done.len() as int) =~= done);
    assert(steps_from(t, f, sent, kind) == tag_step(t, f, sent, kind) + steps_from(t, f, sent, kind + 1));
    assert(steps[done.len() as int] == steps_from(t, f, sent, kind)[0]);
}

/// A write that fails at the tags of kind `k`, after `done` went through,
/// fails for the whole packet's tags.
#[verifier::rlimit(40)]
pub proof fn lemma_fail_at(
    room: nat,
    t: UdpTags,
    f: UdpTagFrequencies,
    sent: nat,
    k: nat,
    done: Seq<Option<(Seq<u8>, nat, Seq<u8>)>>,
)
    requires
        k < 7,
        done == steps_before(t, f, sent, k),
        !steps_ok(tag_step(t, f, sent, k)) || steps_len(done) + steps_len(tag_step(t, f, sent, k)) > room,
    ensures
        !(steps_ok(udp_tag_steps(t, f, sent)) && steps_len(udp_tag_steps(t, f, sent)) <= room),
{
    let step = tag_step(t, f, sent, k);
    let rest = steps_from(t, f, sent, k + 1);
    lemma_combine_failed(room, done, step);
    lemma_extend_failed(room, done + step, rest);
    assert(steps_from(t, f, sent, k) == step + rest);
    assert(done + step + rest =~= done + steps_from(t, f, sent, k));
    lemma_steps_split(t, f, sent, k);
}

/// One plain step, done.
pub proof fn lemma_one_plain<W: BufferWritter>(
    b0: W,
    cur: W,
    next: W,
    done: Seq<Option<(Seq<u8>, nat, Seq<u8>)>>,
    bytes: Seq<u8>,
    r: Result<(), BufferWritterError>,
)
    requires
        run_state(b0, cur, done),
        wrote_all(cur, next, bytes, r),
    ensures
        step_result(b0, next, done, seq![plain(bytes)], r),
{
    let s = (bytes, 0nat, Seq::<u8>::empty());
    assert(done.push(Some(s)) =~= done + seq![plain(bytes)]);
    match r {
        Ok(()) => {
            lemma_plain_step(cur, next, bytes);
            lemma_run_step(b0, cur, next, done, s);
        },
        Err(e) => {
            lemma_plain_failed(cur, next, bytes, e);
            lemma_run_failed(b0, cur, next, done, s, Seq::empty());
            assert(done + seq![Some(s)] + Seq::<Option<(Seq<u8>, nat, Seq<u8>)>>::empty()
                =~= done + seq![Some(s)]);
            lemma_steps_len_concat(done, seq![plain(bytes)]);
            lemma_wrote_steps_prefix(b0.spec_written(), cur.spec_written(), done);
            let m = cur.spec_written().len();
            let p = choose|p: int|
                0 <= p < bytes.len() && next.spec_written() == cur.spec_written() + bytes.take(p);
            assert(next.spec_written().take(m as int) =~= cur.spec_written());
            assert(next.spec_written().skip(m as int) =~= bytes.take(p));
        },
    }
}

/// One step with reserved bytes, done.
pub proof fn lemma_one_gapped<W: BufferWritter>(
    b0: W,
    cur: W,
    next: W,
    done: Seq<Option<(Seq<u8>, nat, Seq<u8>)>>,
    s: (Seq<u8>, nat, Seq<u8>),
    r: Result<(), BufferWritterError>,
)
    requires
        run_state(b0, cur, done),
        r is Ok ==> wrote_with_gap(cur, next, s.0, s.1, s.2),
        r is Err ==> failed_gapped(cur, next, seg_len(s)) && partial_gapped(
            next.spec_written().skip(cur.spec_written().len() as int),
            s.0,
            s.1,
            s.2,
        ),
    ensures
        step_result(b0, next, done, seq![Some(s)], r),
{
    assert(done.push(Some(s)) =~= done + seq![Some(s)]);
    if r is Ok {
        lemma_run_step(b0, cur, next, done, s);
    } else {
        lemma_run_failed(b0, cur, next, done, s, Seq::empty());
        assert(done + seq![Some(s)] + Seq::<Option<(Seq<u8>, nat, Seq<u8>)>>::empty()
            =~= done + seq![Some(s)]);
        lemma_steps_len_concat(done, seq![Some(s)]);
        lemma_wrote_steps_prefix(b0.spec_written(), cur.spec_written(), done);
    }
}

fn put_rumble<'b, T: BufferWritter>(
    x: RobotToDriverRumble,
    w: &mut RobotToDriverstaionPacketWritter<'b, T>,
    Ghost(b0): Ghost<T>,
    Ghost(done): Ghost<Seq<Option<(Seq<u8>, nat, Seq<u8>)>>>,
) -> (r: Result<(), BufferWritterError>)
    requires
        run_state(b0, *old(w).writter, done),
    ensures
        step_result(b0, *final(w).writter, done, seq![plain(rumble_wire(x))], r),
{
    let ghost cur = *w.writter;
    let res = match w.rumble(x) {
        Ok(_) => Ok(()),
        Err(e) => Err(e),
    };
    proof {
        lemma_one_plain(b0, cur, *w.writter, done, rumble_wire(x), res);
    }
    res
}

fn put_disk<'b, T: BufferWritter>(
    x: RobotToDriverDiskUsage,
    w: &mut RobotToDriverstaionPacketWritter<'b, T>,
    Ghost(b0): Ghost<T>,
    Ghost(done): Ghost<Seq<Option<(Seq<u8>, nat, Seq<u8>)>>>,
) -> (r: Result<(), BufferWritterError>)
    requires
        run_state(b0, *old(w).writter, done),
    ensures
        step_result(b0, *final(w).writter, done, seq![plain(disk_usage_wire(x))], r),
{
    let ghost cur = *w.writter;
    let res = match w.disk_usage(x) {
        Ok(_) => Ok(()),
        Err(e) => Err(e),
    };
    proof {
        lemma_one_plain(b0, cur, *w.writter, done, disk_usage_wire(x), res);
    }
    res
}

fn put_ram<'b, T: BufferWritter>(
    x: RobotToDriverRamUsage,
    w: &mut RobotToDriverstaionPacketWritter<'b, T>,
    Ghost(b0): Ghost<T>,
    Ghost(done): Ghost<Seq<Option<(Seq<u8>, nat, Seq<u8>)>>>,
) -> (r: Result<(), BufferWritterError>)
    requires
        run_state(b0, *old(w).writter, done),
    ensures
        step_result(b0, *final(w).writter, done, seq![plain(ram_usage_wire(x))], r),
{
    let ghost cur = *w.writter;
    let res = match w.ram_usage(x) {
        Ok(_) => Ok(()),
        Err(e) => Err(e),
    };
    proof {
        lemma_one_plain(b0, cur, *w.writter, done, ram_usage_wire(x), res);
    }
    res
}

fn put_can<'b, T: BufferWritter>(
    x: RobotToDriverCanUsage,
    w: &mut RobotToDriverstaionPacketWritter<'b, T>,
    Ghost(b0): Ghost<T>,
    Ghost(done): Ghost<Seq<Option<(Seq<u8>, nat, Seq<u8>)>>>,
) -> (r: Result<(), BufferWritterError>)
    requires
        run_state(b0, *old(w).writter, done),
    ensures
        step_result(b0, *final(w).writter, done, seq![plain(can_usage_wire(x))], r),
{
    let ghost cur = *w.writter;
    let res = match w.can_usage(x) {
        Ok(_) => Ok(()),
        Err(e) => Err(e),
    };
    proof {
        lemma_one_plain(b0, cur, *w.writter, done, can_usage_wire(x), res);
    }
    res
}

/// The cpu step: the report, or a step that cannot be written with more than
/// 15 cpus.
pub open spec fn cpu_one(v: Seq<CpuUsage>) -> Option<(Seq<u8>, nat, Seq<u8>)> {
    if v.len() > 15 {
        None
    } else {
        plain(cpu_usage_wire(v))
    }
}

fn put_cpu<'b, T: BufferWritter>(
    v: &[CpuUsage],
    w: &mut RobotToDriverstaionPacketWritter<'b, T>,
    Ghost(b0): Ghost<T>,
    Ghost(done): Ghost<Seq<Option<(Seq<u8>, nat, Seq<u8>)>>>,
) -> (r: Result<(), BufferWritterError>)
    requires
        run_state(b0, *old(w).writter, done),
    ensures
        step_result(b0, *final(w).writter, done, seq![cpu_one(v@)], r),
{
    let ghost cur = *w.writter;
    let res = match w.cpu_usage(v) {
        Ok(_) => Ok(()),
        Err(e) => Err(e),
    };
    proof {
        if v@.len() > 15 {
            lemma_wrote_steps_prefix(b0.spec_written(), cur.spec_written(), done);
            assert(seq![cpu_one(v@)][0] is None);
            let m = cur.spec_written().len() as int;
            assert(cur.spec_written().take(m) =~= cur.spec_written());
            assert(cur.spec_written().skip(m) =~= Seq::<u8>::empty());
        } else {
            lemma_one_plain(b0, cur, *w.writter, done, cpu_usage_wire(v@), res);
        }
    }
    res
}

fn put_pdp_port<'b, T: BufferWritter>(
    x: &PdpPortReport,
    w: &mut RobotToDriverstaionPacketWritter<'b, T>,
    Ghost(b0): Ghost<T>,
    Ghost(done): Ghost<Seq<Option<(Seq<u8>, nat, Seq<u8>)>>>,
) -> (r: Result<(), BufferWritterError>)
    requires
        run_state(b0, *old(w).writter, done),
    ensures
        step_result(
            b0,
            *final(w).writter,
            done,
            seq![Some((seq![26u8], 8nat, seq![x.unknown_0] + x.port_amp_report.0@ + x.unknown_1@))],
            r,
        ),
{
    let ghost cur = *w.writter;
    let res = match w.pdp_port_report(x) {
        Ok(_) => Ok(()),
        Err(e) => Err(e),
    };
    proof {
        lemma_one_gapped(
            b0,
            cur,
            *w.writter,
            done,
            (seq![26u8], 8nat, seq![x.unknown_0] + x.port_amp_report.0@ + x.unknown_1@),
            res,
        );
    }
    res
}

fn put_pdp_power<'b, T: BufferWritter>(
    x: PdpPowerReport,
    w: &mut RobotToDriverstaionPacketWritter<'b, T>,
    Ghost(b0): Ghost<T>,
    Ghost(done): Ghost<Seq<Option<(Seq<u8>, nat, Seq<u8>)>>>,
) -> (r: Result<(), BufferWritterError>)
    requires
        run_state(b0, *old(w).writter, done),
    ensures
        step_result(b0, *final(w).writter, done, seq![Some((seq![10u8], 8nat, x.inner.0@))], r),
{
    let ghost cur = *w.writter;
    let res = match w.pdp_power_report(x) {
        Ok(_) => Ok(()),
        Err(e) => Err(e),
    };
    proof {
        lemma_one_gapped(b0, cur, *w.writter, done, (seq![10u8], 8nat, x.inner.0@), res);
    }
    res
}

fn step_rumble<'b, T: BufferWritter>(
    tags: &UdpTags,
    freqs: &UdpTagFrequencies,
    packets_sent: usize,
    w: &mut RobotToDriverstaionPacketWritter<'b, T>,
    Ghost(b0): Ghost<T>,
    Ghost(done): Ghost<Seq<Option<(Seq<u8>, nat, Seq<u8>)>>>,
) -> (r: Result<(), BufferWritterError>)
    requires
        packets_sent + 6 <= usize::MAX,
        run_state(b0, *old(w).writter, done),
    ensures
        step_result(b0, *final(w).writter, done, rumble_step(*tags), r),
{
    if let Some(x) = tags.rumble {
        put_rumble(x, w, Ghost(b0), Ghost(done))
    } else {
        proof {
            assert(done + rumble_step(*tags) =~= done);
        }
        Ok(())
    }
}

fn step_disk<'b, T: BufferWritter>(
    tags: &UdpTags,
    freqs: &UdpTagFrequencies,
    packets_sent: usize,
    w: &mut RobotToDriverstaionPacketWritter<'b, T>,
    Ghost(b0): Ghost<T>,
    Ghost(done): Ghost<Seq<Option<(Seq<u8>, nat, Seq<u8>)>>>,
) -> (r: Result<(), BufferWritterError>)
    requires
        packets_sent + 6 <= usize::MAX,
        run_state(b0, *old(w).writter, done),
    ensures
        step_result(b0, *final(w).writter, done, disk_step(*tags, *freqs, packets_sent as nat), r),
{
    if let Some(x) = tags.disk_usage {
        if tag_due(packets_sent, freqs.disk_usage_m, 1) {
            put_disk(x, w, Ghost(b0), Ghost(done))
        } else {
            proof {
                assert(done + disk_step(*tags, *freqs, packets_sent as nat) =~= done);
            }
            Ok(())
        }
    } else {
        proof {
            assert(done + disk_step(*tags, *freqs, packets_sent as nat) =~= done);
        }
        Ok(())
    }
}

fn step_cpu<'b, T: BufferWritter>(
    tags: &UdpTags,
    freqs: &UdpTagFrequencies,
    packets_sent: usize,
    w: &mut RobotToDriverstaionPacketWritter<'b, T>,
    Ghost(b0): Ghost<T>,
    Ghost(done): Ghost<Seq<Option<(Seq<u8>, nat, Seq<u8>)>>>,
) -> (r: Result<(), BufferWritterError>)
    requires
        packets_sent + 6 <= usize::MAX,
        run_state(b0, *old(w).writter, done),
    ensures
        step_result(b0, *final(w).writter, done, cpu_step(*tags, *freqs, packets_sent as nat), r),
{
    if let Some(v) = &tags.cpu_usage {
        if tag_due(packets_sent, freqs.cpu_usage_m, 2) {
            put_cpu(v.as_slice(), w, Ghost(b0), Ghost(done))
        } else {
            proof {
                assert(done + cpu_step(*tags, *freqs, packets_sent as nat) =~= done);
            }
            Ok(())
        }
    } else {
        proof {
            assert(done + cpu_step(*tags, *freqs, packets_sent as nat) =~= done);
        }
        Ok(())
    }
}

fn step_ram<'b, T: BufferWritter>(
    tags: &UdpTags,
    freqs: &UdpTagFrequencies,
    packets_sent: usize,
    w: &mut RobotToDriverstaionPacketWritter<'b, T>,
    Ghost(b0): Ghost<T>,
    Ghost(done): Ghost<Seq<Option<(Seq<u8>, nat, Seq<u8>)>>>,
) -> (r: Result<(), BufferWritterError>)
    requires
        packets_sent + 6 <= usize::MAX,
        run_state(b0, *old(w).writter, done),
    ensures
        step_result(b0, *final(w).writter, done, ram_step(*tags, *freqs, packets_sent as nat), r),
{
    if let Some(x) = tags.ram_usage {
        if tag_due(packets_sent, freqs.ram_usage_m, 3) {
            put_ram(x, w, Ghost(b0), Ghost(done))
        } else {
            proof {
                assert(done + ram_step(*tags, *freqs, packets_sent as nat) =~= done);
            }
            Ok(())
        }
    } else {
        proof {
            assert(done + ram_step(*tags, *freqs, packets_sent as nat) =~= done);
        }
        Ok(())
    }
}

fn step_pdp_port<'b, T: BufferWritter>(
    tags: &UdpTags,
    freqs: &UdpTagFrequencies,
    packets_sent: usize,
    w: &mut RobotToDriverstaionPacketWritter<'b, T>,
    Ghost(b0): Ghost<T>,
    Ghost(done): Ghost<Seq<Option<(Seq<u8>, nat, Seq<u8>)>>>,
) -> (r: Result<(), BufferWritterError>)
    requires
        packets_sent + 6 <= usize::MAX,
        run_state(b0, *old(w).writter, done),
    ensures
        step_result(b0, *final(w).writter, done, pdp_port_step(*tags, *freqs, packets_sent as nat), r),
{
    if let Some(x) = &tags.pdp_port_report {
        if tag_due(packets_sent, freqs.pdp_port_report_m, 4) {
            put_pdp_port(x, w, Ghost(b0), Ghost(done))
        } else {
            proof {
                assert(done + pdp_port_step(*tags, *freqs, packets_sent as nat) =~= done);
            }
            Ok(())
        }
    } else {
        proof {
            assert(done + pdp_port_step(*tags, *freqs, packets_sent as nat) =~= done);
        }
        Ok(())
    }
}

fn step_pdp_power<'b, T: BufferWritter>(
    tags: &UdpTags,
    freqs: &UdpTagFrequencies,
    packets_sent: usize,
    w: &mut RobotToDriverstaionPacketWritter<'b, T>,
    Ghost(b0): Ghost<T>,
    Ghost(done): Ghost<Seq<Option<(Seq<u8>, nat, Seq<u8>)>>>,
) -> (r: Result<(), BufferWritterError>)
    requires
        packets_sent + 6 <= usize::MAX,
        run_state(b0, *old(w).writter, done),
    ensures
        step_result(b0, *final(w).writter, done, pdp_power_step(*tags, *freqs, packets_sent as nat), r),
{
    if let Some(x) = tags.pdp_power_report {
        if tag_due(packets_sent, freqs.pdp_power_report_m, 5) {
            put_pdp_power(x, w, Ghost(b0), Ghost(done))
        } else {
            proof {
                assert(done + pdp_power_step(*tags, *freqs, packets_sent as nat) =~= done);
            }
            Ok(())
        }
    } else {
        proof {
            assert(done + pdp_power_step(*tags, *freqs, packets_sent as nat) =~= done);
        }
        Ok(())
    }
}

fn step_can<'b, T: BufferWritter>(
    tags: &UdpTags,
    freqs: &UdpTagFrequencies,
    packets_sent: usize,
    w: &mut RobotToDriverstaionPacketWritter<'b, T>,
    Ghost(b0): Ghost<T>,
    Ghost(done): Ghost<Seq<Option<(Seq<u8>, nat, Seq<u8>)>>>,
) -> (r: Result<(), BufferWritterError>)
    requires
        packets_sent + 6 <= usize::MAX,
        run_state(b0, *old(w).writter, done),
    ensures
        step_result(b0, *final(w).writter, done, can_step(*tags, *freqs, packets_sent as nat), r),
{
    if let Some(x) = tags.can_usage {
        if tag_due(packets_sent, freqs.can_usage_m, 6) {
            put_can(x, w, Ghost(b0), Ghost(done))
        } else {
            proof {
                assert(done + can_step(*tags, *freqs, packets_sent as nat) =~= done);
            }
            Ok(())
        }
    } else {
        proof {
            assert(done + can_step(*tags, *freqs, packets_sent as nat) =~= done);
        }
        Ok(())
    }
}

/// Adds to a packet the tags of [`udp_tag_steps`] in order, stopping at the
/// first that cannot be written. Succeeds exactly when every tag can be
/// written and all of them fit; what was written before stays either way.
pub fn write_udp_packet_tags<'b, T: BufferWritter>(
    tags: &UdpTags,
    freqs: &UdpTagFrequencies,
    packets_sent: usize,
    w: &mut RobotToDriverstaionPacketWritter<'b, T>,
) -> (r: Result<(), BufferWritterError>)
    requires
        packets_sent + 6 <= usize::MAX,
    ensures
        ({
            let steps = udp_tag_steps(*tags, *freqs, packets_sent as nat);
            let b = *old(w).writter;
            let a = *final(w).writter;
            &&& (r is Ok <==> steps_ok(steps) && steps_len(steps) <= b.spec_room())
            &&& r is Ok ==> wrote_steps(b.spec_written(), a.spec_written(), steps)
                && a.spec_room() == b.spec_room() - steps_len(steps)
            &&& r is Err ==> a.spec_written().len() >= b.spec_written().len()
                && a.spec_written().take(b.spec_written().len() as int) == b.spec_written()
            &&& r is Err ==> exists|k: int| stopped_at(b.spec_written(), a.spec_written(), steps, k)
        }),
{
    let ghost t = *tags;
    let ghost f = *freqs;
    let ghost sent = packets_sent as nat;
    let ghost b0 = *w.writter;
    let ghost room = b0.spec_room();
    let ghost mut done: Seq<Option<(Seq<u8>, nat, Seq<u8>)>> = Seq::empty();
    proof {
        assert forall|k: nat| #[trigger]
            w.writter.spec_full_error(k) == b0.spec_full_error(k + steps_len(done)) by {}
    }
    let res = step_rumble(tags, freqs, packets_sent, w, Ghost(b0), Ghost(done));
    if let Err(e) = res {
        proof {
            lemma_fail_at(room, t, f, sent, 0, done);
            lemma_stopped_at_kind(b0.spec_written(), w.writter.spec_written(), t, f, sent, 0, done);
        }
        return Err(e);
    }
    proof {
        assert(steps_before(t, f, sent, 0) == done);
        done = done + rumble_step(t);
        assert(done == steps_before(t, f, sent, 1));
    }
    let res = step_disk(tags, freqs, packets_sent, w, Ghost(b0), Ghost(done));
    if let Err(e) = res {
        proof {
            lemma_fail_at(room, t, f, sent, 1, done);
            lemma_stopped_at_kind(b0.spec_written(), w.writter.spec_written(), t, f, sent, 1, done);
        }
        return Err(e);
    }
    proof {
        done = done + disk_step(t, f, sent);
        assert(done == steps_before(t, f, sent, 2));
    }
    let res = step_cpu(tags, freqs, packets_sent, w, Ghost(b0), Ghost(done));
    if let Err(e) = res {
        proof {
            lemma_fail_at(room, t, f, sent, 2, done);
            lemma_stopped_at_kind(b0.spec_written(), w.writter.spec_written(), t, f, sent, 2, done);
        }
        return Err(e);
    }
    proof {
        done = done + cpu_step(t, f, sent);
        assert(done == steps_before(t, f, sent, 3));
    }
    let res = step_ram(tags, freqs, packets_sent, w, Ghost(b0), Ghost(done));
    if let Err(e) = res {
        proof {
            lemma_fail_at(room, t, f, sent, 3, done);
            lemma_stopped_at_kind(b0.spec_written(), w.writter.spec_written(), t, f, sent, 3, done);
        }
        return Err(e);
    }
    proof {
        done = done + ram_step(t, f, sent);
        assert(done == steps_before(t, f, sent, 4));
    }
    let res = step_pdp_port(tags, freqs, packets_sent, w, Ghost(b0), Ghost(done));
    if let Err(e) = res {
        proof {
            lemma_fail_at(room, t, f, sent, 4, done);
            lemma_stopped_at_kind(b0.spec_written(), w.writter.spec_written(), t, f, sent, 4, done);
        }
        return Err(e);
    }
    proof {
        done = done + pdp_port_step(t, f, sent);
        assert(done == steps_before(t, f, sent, 5));
    }
    let res = step_pdp_power(tags, freqs, packets_sent, w, Ghost(b0), Ghost(done));
    if let Err(e) = res {
        proof {
            lemma_fail_at(room, t, f, sent, 5, done);
            lemma_stopped_at_kind(b0.spec_written(), w.writter.spec_written(), t, f, sent, 5, done);
        }
        return Err(e);
    }
    proof {
        done = done + pdp_power_step(t, f, sent);
        assert(done == steps_before(t, f, sent, 6));
    }
    let res = step_can(tags, freqs, packets_sent, w, Ghost(b0), Ghost(done));
    if let Err(e) = res {
        proof {
            lemma_fail_at(room, t, f, sent, 6, done);
            lemma_stopped_at_kind(b0.spec_written(), w.writter.spec_written(), t, f, sent, 6, done);
        }
        return Err(e);
    }
    proof {
        done = done + can_step(t, f, sent);
    }
    Ok(())
}

/// What a roboRIO did with a received packet besides answering it.
pub struct UdpResponse<'b> {
    /// How many packets went missing before this one.
    pub dropped: u16,
    /// The bytes of the answer to send, unless its fixed part could not be
    /// written.
    pub send: Option<&'b [u8]>,
    /// Why the answer's fixed part could not be written; nothing is sent then.
    pub core_error: Option<BufferWritterError>,
    /// Why the tags could not all be written; what was written is sent anyway.
    pub tag_error: Option<BufferWritterError>,
    /// The hooks to run.
    pub hooks: HookPlan,
}

/// Answers a received packet: keeps the merged control code and the received
/// sequence number, counts the packets dropped while connected, writes the
/// answer ([`answer_packet`]) and then its tags ([`write_udp_packet_tags`]) to
/// `buf`, and decides the hooks for the change of control code. After the
/// answer is written, a disabled driver station clears the request to disable,
/// and `clear_status` marks the robot disabled and without code.
#[verifier::spinoff_prover]
#[verifier::rlimit(40)]
pub fn respond_to_udp_packet<'b, T: BufferWritter>(
    observed: &mut RobotToDriverstationPacket,
    recv: DriverstationToRobotCorePacketDate,
    connected: bool,
    clear_status: bool,
    tags: &UdpTags,
    freqs: &UdpTagFrequencies,
    packets_sent: usize,
    buf: &'b mut T,
) -> (r: UdpResponse<'b>)
    requires
        packets_sent + 6 <= usize::MAX,
    ensures
        final(observed).sequence == recv.sequence,
        final(observed).tag_comm_version == old(observed).tag_comm_version,
        final(observed).battery == old(observed).battery,
        final(observed).control_code@ == merged_code(old(observed).control_code@, recv.control_code@),
        final(observed).request@ == (if recv.control_code@.enabled {
            old(observed).request@
        } else {
            DriverstationRequestCodeView { request_disable: false, ..old(observed).request@ }
        }),
        final(observed).status@ == (if clear_status {
            RobotStatusCodeView {
                disabled: true,
                teleop_code: false,
                test_code: false,
                auton_code: false,
                robot_has_code: false,
                ..old(observed).status@
            }
        } else {
            old(observed).status@
        }),
        r.dropped == spec_dropped(old(observed).sequence, recv.sequence, connected),
        r.hooks.estop == (!old(observed).control_code@.estop && final(observed).control_code@.estop),
        r.hooks.restart_rio == recv.request_code@.restart_roborio,
        r.hooks.restart_code == recv.request_code@.restart_roborio_code,
        r.hooks.mode_switch == mode_hook(old(observed).control_code@, final(observed).control_code@),
        ({
            let sent = RobotToDriverstationPacket {
                sequence: recv.sequence,
                control_code: final(observed).control_code,
                ..*old(observed)
            };
            let core = rtd_wire(sent);
            let mid = old(buf).spec_written() + core;
            let steps = udp_tag_steps(*tags, *freqs, packets_sent as nat);
            &&& (r.send is Some <==> core.len() <= old(buf).spec_room())
            &&& (r.core_error is Some <==> r.send is None)
            &&& r.send is None ==> r.tag_error is None
            &&& r.send matches Some(bytes) ==> {
                &&& (r.tag_error is None <==> steps_ok(steps) && steps_len(steps) <= old(
                    buf,
                ).spec_room() - core.len())
                &&& r.tag_error is None ==> wrote_steps(mid, bytes@, steps)
                &&& r.tag_error is Some ==> bytes@.len() >= mid.len() && bytes@.take(
                    mid.len() as int,
                ) == mid
                &&& r.tag_error is Some ==> exists|k: int| stopped_at(mid, bytes@, steps, k)
            }
        }),
{
    let old_code = observed.control_code;
    let new_code = merge_control_code(old_code, recv.control_code);
    observed.control_code = new_code;
    let dropped = dropped_packets(observed.sequence, recv.sequence, connected);
    observed.sequence = recv.sequence;
    let answer = *observed;
    proof {
        lemma_be_bytes_len(answer.sequence as nat, 2);
    }
    let mut core_error = None;
    let mut tag_error = None;
    let mut send = None;
    let ghost mut stop: int = 0;
    let ghost mid0 = old(buf).spec_written() + rtd_wire(answer);
    match answer.write_to_buf(buf) {
        Ok(()) => {
            let ghost mid_w = buf.spec_written();
            let mut w = RobotToDriverstaionPacketWritter { writter: buf };
            match write_udp_packet_tags(tags, freqs, packets_sent, &mut w) {
                Ok(()) => {},
                Err(e) => {
                    tag_error = Some(e);
                },
            }
            let ghost after_w = w.writter.spec_written();
            let bytes = w.into_buf();
            proof {
                if tag_error is Some {
                    let steps = udp_tag_steps(*tags, *freqs, packets_sent as nat);
                    let k = choose|k: int| stopped_at(mid_w, after_w, steps, k);
                    assert(bytes@ == after_w);
                    assert(mid_w == mid0);
                    assert(stopped_at(mid0, bytes@, steps, k));
                    stop = k;
                }
            }
            send = Some(bytes);
        },
        Err(e) => {
            core_error = Some(e);
        },
    }
    if !recv.control_code.is_enabled() {
        observed.request.set_request_disable(false);
    }
    if clear_status {
        observed.status.set_disabled();
        observed.status.set_has_robot_code(false);
    }
    let hooks = plan_hooks(old_code, new_code, recv.request_code);
    proof {
        if send is Some && tag_error is Some {
            let steps = udp_tag_steps(*tags, *freqs, packets_sent as nat);
            assert(stopped_at(mid0, send.unwrap()@, steps, stop));
        }
    }
    UdpResponse { dropped, send, core_error, tag_error, hooks }
}

} // verus!
