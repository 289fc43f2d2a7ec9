use vstd::prelude::*;

use crate::control_code::{decode_control_code, law_control_code_layout, ControlCode, ControlCodeView};
use crate::request_code::{
    decode_robot_request_code, law_robot_request_bits, DriverstationRequestCode, RobotRequestCode,
    RobotRequestCodeView,
};
use crate::roborio_status_code::{RobotStatusCode, RobotStatusCodeView};
use crate::robot_to_driver::RobotToDriverstationPacket;
use crate::robot_voltage::RobotVoltage;
use std::sync::Arc;

verus! {

/// The mode hook a change of control code calls for.
#[derive(Debug, Clone, Copy, PartialEq, Eq, Structural)]
pub enum ModeHook {
    Disable,
    Teleop,
    Auton,
    Test,
}

/// The hooks a roboRIO runs when its control code changes or a request comes.
#[derive(Debug, Clone, Copy, PartialEq, Eq, Structural)]
pub struct HookPlan {
    pub estop: bool,
    pub restart_rio: bool,
    pub restart_code: bool,
    pub mode_switch: Option<ModeHook>,
}

/// The mode hook for a change from `old` to `new`: disabling first; otherwise
/// entering teleop, autonomous or test, the mode counting even while disabled.
pub open spec fn mode_hook(old: ControlCodeView, new: ControlCodeView) -> Option<ModeHook> {
    if old.enabled && !new.enabled {
        Some(ModeHook::Disable)
    } else if old.mode != 0 && new.mode == 0 {
        Some(ModeHook::Teleop)
    } else if old.mode != 2 && new.mode == 2 {
        Some(ModeHook::Auton)
    } else if old.mode != 1 && new.mode == 1 {
        Some(ModeHook::Test)
    } else {
        None
    }
}

/// The hooks a change from `old` to `new` with the request `req` calls for:
/// the emergency stop hook when the stop comes on, the restart hooks the
/// request asks for, and one mode hook ([`mode_hook`]).
pub open spec fn hook_plan(old: ControlCodeView, new: ControlCodeView, req: RobotRequestCodeView) -> HookPlan {
    HookPlan {
        estop: !old.estop && new.estop,
        restart_rio: req.restart_roborio,
        restart_code: req.restart_roborio_code,
        mode_switch: mode_hook(old, new),
    }
}

/// Decides the hooks to run ([`hook_plan`]).
pub fn plan_hooks(old: ControlCode, new: ControlCode, request: RobotRequestCode) -> (r: HookPlan)
    ensures
        r == hook_plan(old@, new@, request@),
        r.estop == (!old@.estop && new@.estop),
        r.restart_rio == request@.restart_roborio,
        r.restart_code == request@.restart_roborio_code,
        r.mode_switch == mode_hook(old@, new@),
{
    let estop = !old.is_estop() && new.is_estop();
    let restart_rio = request.should_restart_roborio();
    let restart_code = request.should_restart_roborio_code();
    let mode_switch = if !old.is_disabled() && new.is_disabled() {
        Some(ModeHook::Disable)
    } else if !old.is_teleop() && new.is_teleop() {
        Some(ModeHook::Teleop)
    } else if !old.is_autonomus() && new.is_autonomus() {
        Some(ModeHook::Auton)
    } else if !old.is_test() && new.is_test() {
        Some(ModeHook::Test)
    } else {
        None
    };
    HookPlan { estop, restart_rio, restart_code, mode_switch }
}

/// The control code a roboRIO keeps after receiving `received`: the received
/// one, with the emergency stop kept on once it was on and the brown-out
/// protection kept as it was.
pub open spec fn merged_code(old: ControlCodeView, received: ControlCodeView) -> ControlCodeView {
    ControlCodeView {
        estop: old.estop || received.estop,
        brown_out_protection: old.brown_out_protection,
        ..received
    }
}

/// Merges a received control code into the one kept ([`merged_code`]).
pub fn merge_control_code(old: ControlCode, received: ControlCode) -> (r: ControlCode)
    ensures
        r@ == merged_code(old@, received@),
{
    let mut new = received;
    let estop = old.is_estop() || new.is_estop();
    new.set_estop(estop);
    let brownout = old.is_brown_out_protection() || old.is_brown_out_protection();
    new.set_brownout_protection(brownout);
    new
}

/// How far `received` lies past the expected next sequence number `last + 1`,
/// counting forward around the 16-bit wrap.
pub open spec fn seq_ahead(last: u16, received: u16) -> int {
    (received as int - (last as int + 1)) % 0x1_0000
}

/// How many packets were dropped between the last sequence number and the one
/// received, counted only while connected: how far the received number lies
/// from the expected next one, `last + 1` (wrapping at 16 bits). A received
/// number more than half the sequence space below the expected one has come
/// round the wrap, and counts the values it skipped across it.
pub open spec fn spec_dropped(last: u16, received: u16, connected: bool) -> u16 {
    let lower = ((last as int + 1) % 0x1_0000) as u16;
    if lower == received || !connected {
        0
    } else if lower < received {
        (received - lower) as u16
    } else if lower - received > 0x8000 {
        seq_ahead(last, received) as u16
    } else {
        (lower - received) as u16
    }
}

pub fn dropped_packets(last: u16, received: u16, connected: bool) -> (r: u16)
    ensures
        r == spec_dropped(last, received, connected),
{
    let lower = last.wrapping_add(1);
    if lower == received || !connected {
        0
    } else if lower < received {
        received - lower
    } else if lower - received > 0x8000 {
        let k = received.wrapping_sub(lower);
        proof {
            assert(lower == (last as int + 1) % 0x1_0000);
            assert(k == (received as int - lower as int) % 0x1_0000);
            assert(k == seq_ahead(last, received)) by {
                vstd::arithmetic::div_mod::lemma_sub_mod_noop_right(
                    received as int,
                    last as int + 1,
                    0x1_0000,
                );
            }
        }
        k
    } else {
        lower - received
    }
}

/// Whether a tag sent every `freq` packets is due, `offset` packets into the
/// cycle, after `packets_sent` packets; a frequency of 0 never sends it.
pub fn tag_due(packets_sent: usize, freq: u8, offset: usize) -> (r: bool)
    requires
        packets_sent + offset <= usize::MAX,
    ensures
        r == (freq != 0 && ((packets_sent + offset) as int) % (freq as int) == 0),
{
    freq != 0 && (packets_sent + offset) % (freq as usize) == 0
}

/// A control code forced to disable: disabled, in teleop, the rest kept.
pub open spec fn forced_disable(v: ControlCodeView) -> ControlCodeView {
    ControlCodeView { enabled: false, mode: 0, ..v }
}

/// Forcing a disable leaves the robot disabled in teleop, mode 0, with every
/// other field of the code as it was, and forcing it again changes nothing.
pub proof fn law_forced_disable(v: ControlCodeView)
    ensures
        !forced_disable(v).enabled,
        forced_disable(v).mode == 0,
        forced_disable(v).estop == v.estop && forced_disable(v).fms_attached == v.fms_attached
            && forced_disable(v).ds_attached == v.ds_attached && forced_disable(v).brown_out_protection
            == v.brown_out_protection && forced_disable(v).reserved == v.reserved,
        forced_disable(forced_disable(v)) == forced_disable(v),
{
}

/// The control code after a forced disable ([`forced_disable`]).
pub fn force_disabled(c: ControlCode) -> (r: ControlCode)
    ensures
        r@ == forced_disable(c@),
        r@ == (ControlCodeView { enabled: false, mode: 0, ..c@ }),
{
    let mut c = c;
    c.set_disabled();
    c.set_teleop();
    c
}

/// The status a simulated robot reports for the mode the driver station asks
/// for: disabled while disabled, else running the requested mode's code; an
/// undefined mode leaves the status as it was.
pub open spec fn mirrored_status(s: RobotStatusCodeView, c: ControlCodeView) -> RobotStatusCodeView {
    if !c.enabled {
        RobotStatusCodeView { disabled: true, teleop_code: false, test_code: false, auton_code: false, ..s }
    } else if c.mode == 2 {
        RobotStatusCodeView { disabled: false, teleop_code: false, test_code: false, auton_code: true, ..s }
    } else if c.mode == 0 {
        RobotStatusCodeView { disabled: false, teleop_code: true, test_code: false, auton_code: false, ..s }
    } else if c.mode == 1 {
        RobotStatusCodeView { disabled: false, teleop_code: false, test_code: true, auton_code: false, ..s }
    } else {
        s
    }
}

/// Makes the status follow the control code, as a simulated robot does each frame.
pub fn mirror_mode(status: RobotStatusCode, control: ControlCode) -> (r: RobotStatusCode)
    ensures
        r@ == mirrored_status(status@, control@),
{
    let mut status = status;
    if control.is_disabled() {
        status.set_disabled();
    } else if control.is_autonomus() {
        status.observe_robot_autonomus();
    } else if control.is_teleop() {
        status.set_teleop();
    } else if control.is_test() {
        status.set_test();
    }
    status
}

/// What a roboRIO reports after a reset: comm version 1, nothing set but the
/// emergency stop and brown-out protection it had, and the roboRIO flag.
pub fn reset_observed(prev: &RobotToDriverstationPacket) -> (r: RobotToDriverstationPacket)
    ensures
        r.sequence == 0,
        r.tag_comm_version == 1,
        r.control_code@ == (ControlCodeView {
            estop: prev.control_code@.estop,
            brown_out_protection: prev.control_code@.brown_out_protection,
            ..ControlCode(0)@
        }),
        r.status@ == (RobotStatusCodeView { is_roborio: true, ..RobotStatusCode(0)@ }),
        r.battery == (RobotVoltage { int: 0, dec: 0 }),
        r.request == DriverstationRequestCode(0),
{
    let mut code = ControlCode::new();
    code.set_estop(prev.control_code.is_estop());
    code.set_brownout_protection(prev.control_code.is_brown_out_protection());
    let mut status = RobotStatusCode::new();
    status.set_is_roborio(true);
    RobotToDriverstationPacket {
        sequence: 0,
        tag_comm_version: 1,
        control_code: code,
        status,
        battery: RobotVoltage { int: 0, dec: 0 },
        request: DriverstationRequestCode::new(),
    }
}

/// Whether a handle to a running service is still held by someone else, so
/// that the service should keep running.
pub trait PossibleRcSelf {
    fn exists_elsewhere(&self) -> bool;
}

/// A borrowed handle: its owner outlives the borrow, so it always exists
/// elsewhere.
impl<'a, T> PossibleRcSelf for &'a T {
    fn exists_elsewhere(&self) -> (r: bool)
        ensures
            r,
    {
        true
    }
}

/// The number of strong handles to the value (`std::sync::Arc::strong_count`).
/// The handle passed in is one of them, so the count is at least 1; other
/// threads may take or drop handles at any time, so nothing more is stated.
#[verifier::external_body]
fn arc_strong_count<T>(a: &Arc<T>) -> (r: usize)
    ensures
        r >= 1,
{
    Arc::strong_count(a)
}

/// Whether, of `count` strong handles, one is held besides the asker's own.
pub fn held_elsewhere(count: usize) -> (r: bool)
    ensures
        r == (count > 1),
{
    count > 1
}

/// A shared handle exists elsewhere while another strong handle is held: the
/// answer is [`held_elsewhere`] of the strong count read at the call, which
/// other threads may change at any moment.
impl<T> PossibleRcSelf for Arc<T> {
    fn exists_elsewhere(&self) -> (r: bool) {
        held_elsewhere(arc_strong_count(self))
    }
}

/// Once on, the emergency stop stays on through every packet received, and the
/// brown-out protection never changes.
pub proof fn law_estop_sticky(old: ControlCodeView, received: ControlCodeView)
    ensures
        old.estop ==> merged_code(old, received).estop,
        merged_code(old, received).brown_out_protection == old.brown_out_protection,
{
}

/// A packet `k` sequence values past the expected next one, wrapping or not,
/// counts the `k` values it skipped as dropped.
pub proof fn law_dropped_counts_skipped(last: u16, k: u16)
    requires
        k < 0x8000,
    ensures
        spec_dropped(last, ((last + 1 + k) % 0x1_0000) as u16, true) == k,
{
    let received = ((last + 1 + k) % 0x1_0000) as u16;
    let lower = ((last as int + 1) % 0x1_0000) as u16;
    assert(seq_ahead(last, received) == k) by {
        vstd::arithmetic::div_mod::lemma_sub_mod_noop(last as int + 1 + k as int, last as int + 1, 0x1_0000);
        vstd::arithmetic::div_mod::lemma_mod_twice(last as int + 1 + k as int, 0x1_0000);
        vstd::arithmetic::div_mod::lemma_small_mod(k as nat, 0x1_0000);
    }
}

/// A packet whose sequence number follows the last one drops nothing.
pub proof fn law_no_drop_in_sequence(last: u16, connected: bool)
    ensures
        spec_dropped(last, ((last + 1) % 0x1_0000) as u16, connected) == 0,
{
}

/// Switching into mode `m` (0 teleop, 1 test, 2 autonomous) from another
/// mode, without being disabled on the way, runs the hook named for `m`;
/// staying in the same mode runs no mode hook, and being disabled runs the
/// disable hook whatever the mode.
pub proof fn law_mode_hook_names_mode(old: ControlCodeView, new: ControlCodeView)
    ensures
        old.enabled && !new.enabled ==> mode_hook(old, new) == Some(ModeHook::Disable),
        !(old.enabled && !new.enabled) && old.mode != new.mode && new.mode == 0 ==> mode_hook(
            old,
            new,
        ) == Some(ModeHook::Teleop),
        !(old.enabled && !new.enabled) && old.mode != new.mode && new.mode == 1 ==> mode_hook(
            old,
            new,
        ) == Some(ModeHook::Test),
        !(old.enabled && !new.enabled) && old.mode != new.mode && new.mode == 2 ==> mode_hook(
            old,
            new,
        ) == Some(ModeHook::Auton),
        !(old.enabled && !new.enabled) && old.mode == new.mode ==> mode_hook(old, new) is None,
{
}

/// A simulated robot reports the code of the mode it is asked for running:
/// teleop for mode 0, test for mode 1, autonomous for mode 2, exactly one of
/// them and not disabled; asked to be disabled it reports disabled and no
/// code running.
pub proof fn law_mirrored_modes(s: RobotStatusCodeView, c: ControlCodeView)
    ensures
        !c.enabled ==> mirrored_status(s, c).disabled && !mirrored_status(s, c).teleop_code
            && !mirrored_status(s, c).test_code && !mirrored_status(s, c).auton_code,
        c.enabled && c.mode == 0 ==> !mirrored_status(s, c).disabled && mirrored_status(s, c).teleop_code
            && !mirrored_status(s, c).test_code && !mirrored_status(s, c).auton_code,
        c.enabled && c.mode == 1 ==> !mirrored_status(s, c).disabled && !mirrored_status(s, c).teleop_code
            && mirrored_status(s, c).test_code && !mirrored_status(s, c).auton_code,
        c.enabled && c.mode == 2 ==> !mirrored_status(s, c).disabled && !mirrored_status(s, c).teleop_code
            && !mirrored_status(s, c).test_code && mirrored_status(s, c).auton_code,
        mirrored_status(s, c).is_roborio == s.is_roborio && mirrored_status(s, c).robot_has_code
            == s.robot_has_code,
{
}

/// On the bytes as they come: the emergency stop hook runs when bit 7 of the
/// control byte comes on, the roboRIO restarts when the request byte has bit
/// 3 set and the robot code restarts when it has bit 2 set.
pub proof fn law_hook_plan_bits(old: u8, new: u8, req: u8)
    ensures
        hook_plan(decode_control_code(old), decode_control_code(new), decode_robot_request_code(req)).estop
            == ((old >> 7u8) & 1 == 0 && (new >> 7u8) & 1 == 1),
        hook_plan(decode_control_code(old), decode_control_code(new), decode_robot_request_code(req)).restart_rio
            == ((req >> 3u8) & 1 == 1),
        hook_plan(decode_control_code(old), decode_control_code(new), decode_robot_request_code(req)).restart_code
            == ((req >> 2u8) & 1 == 1),
{
    law_control_code_layout(old, decode_control_code(old));
    law_control_code_layout(new, decode_control_code(new));
    law_robot_request_bits(req);
    assert((old >> 7u8) & 1 == 0 || (old >> 7u8) & 1 == 1) by (bit_vector);
}

} // verus!
