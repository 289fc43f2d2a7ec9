use vstd::prelude::*;

use crate::bits::{lemma_masks, write_field, write_flag};

verus! {

/// The fields of a control code byte, least significant bits first: a two-bit
/// mode (0 teleop, 1 test, 2 autonomous), then one bit each for enabled, FMS
/// attached, brown-out protection, a reserved bit, driver station attached and
/// emergency stop.
pub struct ControlCodeView {
    pub mode: u8,
    pub enabled: bool,
    pub fms_attached: bool,
    pub brown_out_protection: bool,
    pub reserved: bool,
    pub ds_attached: bool,
    pub estop: bool,
}

pub open spec fn decode_control_code(b: u8) -> ControlCodeView {
    ControlCodeView {
        mode: b & 3,
        enabled: b & 4 != 0,
        fms_attached: b & 8 != 0,
        brown_out_protection: b & 16 != 0,
        reserved: b & 32 != 0,
        ds_attached: b & 64 != 0,
        estop: b & 128 != 0,
    }
}

pub open spec fn encode_control_code(v: ControlCodeView) -> u8 {
    (v.mode & 3) | (if v.enabled {
        4u8
    } else {
        0u8
    }) | (if v.fms_attached {
        8u8
    } else {
        0u8
    }) | (if v.brown_out_protection {
        16u8
    } else {
        0u8
    }) | (if v.reserved {
        32u8
    } else {
        0u8
    }) | (if v.ds_attached {
        64u8
    } else {
        0u8
    }) | (if v.estop {
        128u8
    } else {
        0u8
    })
}

/// The control code the driver station sends the robot, and the robot echoes.
#[derive(Default, Clone, Copy, Debug, PartialEq, Eq, Hash)]
pub struct ControlCode(pub u8);

impl View for ControlCode {
    type V = ControlCodeView;

    open spec fn view(&self) -> ControlCodeView {
        decode_control_code(self.0)
    }
}

/// Encoding the fields and decoding the byte gives the fields back, the mode
/// taken in its two bits.
pub proof fn law_control_code_fields(v: ControlCodeView)
    requires
        v.mode < 4,
    ensures
        decode_control_code(encode_control_code(v)) == v,
{
    let m = v.mode;
    let e = v.enabled;
    let f = v.fms_attached;
    let b = v.brown_out_protection;
    let r = v.reserved;
    let d = v.ds_attached;
    let s = v.estop;
    let x = encode_control_code(v);
    assert(m < 4 ==> ((m & 3) | (if e { 4u8 } else { 0u8 }) | (if f { 8u8 } else { 0u8 }) | (if b {
        16u8
    } else {
        0u8
    }) | (if r { 32u8 } else { 0u8 }) | (if d { 64u8 } else { 0u8 }) | (if s {
        128u8
    } else {
        0u8
    })) & 3 == m) by (bit_vector);
    assert(((((m & 3) | (if e { 4u8 } else { 0u8 }) | (if f { 8u8 } else { 0u8 }) | (if b {
        16u8
    } else {
        0u8
    }) | (if r { 32u8 } else { 0u8 }) | (if d { 64u8 } else { 0u8 }) | (if s {
        128u8
    } else {
        0u8
    })) & 4 != 0) == e) && ((((m & 3) | (if e { 4u8 } else { 0u8 }) | (if f { 8u8 } else {
        0u8
    }) | (if b { 16u8 } else { 0u8 }) | (if r { 32u8 } else { 0u8 }) | (if d { 64u8 } else {
        0u8
    }) | (if s { 128u8 } else { 0u8 })) & 8 != 0) == f) && ((((m & 3) | (if e { 4u8 } else {
        0u8
    }) | (if f { 8u8 } else { 0u8 }) | (if b { 16u8 } else { 0u8 }) | (if r { 32u8 } else {
        0u8
    }) | (if d { 64u8 } else { 0u8 }) | (if s { 128u8 } else { 0u8 })) & 16 != 0) == b) && ((((m
        & 3) | (if e { 4u8 } else { 0u8 }) | (if f { 8u8 } else { 0u8 }) | (if b { 16u8 } else {
        0u8
    }) | (if r { 32u8 } else { 0u8 }) | (if d { 64u8 } else { 0u8 }) | (if s { 128u8 } else {
        0u8
    })) & 32 != 0) == r) && ((((m & 3) | (if e { 4u8 } else { 0u8 }) | (if f { 8u8 } else {
        0u8
    }) | (if b { 16u8 } else { 0u8 }) | (if r { 32u8 } else { 0u8 }) | (if d { 64u8 } else {
        0u8
    }) | (if s { 128u8 } else { 0u8 })) & 64 != 0) == d) && ((((m & 3) | (if e { 4u8 } else {
        0u8
    }) | (if f { 8u8 } else { 0u8 }) | (if b { 16u8 } else { 0u8 }) | (if r { 32u8 } else {
        0u8
    }) | (if d { 64u8 } else { 0u8 }) | (if s { 128u8 } else { 0u8 })) & 128 != 0) == s))
        by (bit_vector);
}

/// Decoding a byte and encoding the fields gives the byte back.
pub proof fn law_control_code_bits(b: u8)
    ensures
        encode_control_code(decode_control_code(b)) == b,
{
    assert(((b & 3) & 3) | (if b & 4 != 0 { 4u8 } else { 0u8 }) | (if b & 8 != 0 { 8u8 } else {
        0u8
    }) | (if b & 16 != 0 { 16u8 } else { 0u8 }) | (if b & 32 != 0 { 32u8 } else { 0u8 }) | (if b
        & 64 != 0 { 64u8 } else { 0u8 }) | (if b & 128 != 0 { 128u8 } else { 0u8 }) == b)
        by (bit_vector);
}

/// One call of a [`ControlCode`] setter, with its argument.
pub enum ControlCodeSet {
    Test,
    Autonomus,
    Teleop,
    Enabled,
    Disabled,
    BrownoutProtection(bool),
    Estop(bool),
    FmsAttached(bool),
    DsAttached(bool),
}

/// What one setter call makes of the fields, as each setter's contract states.
pub open spec fn apply_set(v: ControlCodeView, op: ControlCodeSet) -> ControlCodeView {
    match op {
        ControlCodeSet::Test => ControlCodeView { mode: 1, ..v },
        ControlCodeSet::Autonomus => ControlCodeView { mode: 2, ..v },
        ControlCodeSet::Teleop => ControlCodeView { mode: 0, ..v },
        ControlCodeSet::Enabled => ControlCodeView { enabled: true, ..v },
        ControlCodeSet::Disabled => ControlCodeView { enabled: false, ..v },
        ControlCodeSet::BrownoutProtection(a) => ControlCodeView { brown_out_protection: a, ..v },
        ControlCodeSet::Estop(a) => ControlCodeView { estop: a, ..v },
        ControlCodeSet::FmsAttached(a) => ControlCodeView { fms_attached: a, ..v },
        ControlCodeSet::DsAttached(a) => ControlCodeView { ds_attached: a, ..v },
    }
}

/// The fields after a run of setter calls, oldest first.
pub open spec fn apply_sets(v: ControlCodeView, ops: Seq<ControlCodeSet>) -> ControlCodeView
    decreases ops.len(),
{
    if ops.len() == 0 {
        v
    } else {
        apply_set(apply_sets(v, ops.drop_last()), ops.last())
    }
}

/// A control code built from [`ControlCode::new`] by any run of setter calls
/// keeps the reserved bit clear and a mode of 0 to 2, and its byte is the sum
/// of its fields' bits: the mode, 4 when enabled, 8 with the FMS attached, 16
/// with brown-out protection, 64 with the driver station attached and 128
/// when emergency-stopped; decoding that byte gives the fields back.
pub proof fn law_control_code_setters(ops: Seq<ControlCodeSet>)
    ensures
        ({
            let v = apply_sets(decode_control_code(0), ops);
            &&& !v.reserved
            &&& v.mode < 3
            &&& encode_control_code(v) as int == v.mode + (if v.enabled { 4int } else { 0 }) + (if v.fms_attached {
                8int
            } else {
                0
            }) + (if v.brown_out_protection { 16int } else { 0 }) + (if v.ds_attached {
                64int
            } else {
                0
            }) + (if v.estop { 128int } else { 0 })
            &&& decode_control_code(encode_control_code(v)) == v
        }),
    decreases ops.len(),
{
    let v = apply_sets(decode_control_code(0), ops);
    if ops.len() == 0 {
        assert(0u8 & 3 == 0 && 0u8 & 4 == 0 && 0u8 & 8 == 0 && 0u8 & 16 == 0 && 0u8 & 32 == 0
            && 0u8 & 64 == 0 && 0u8 & 128 == 0) by (bit_vector);
    } else {
        law_control_code_setters(ops.drop_last());
    }
    law_control_code_fields(v);
    let m = v.mode;
    let e = v.enabled;
    let f = v.fms_attached;
    let b = v.brown_out_protection;
    let d = v.ds_attached;
    let s = v.estop;
    assert(m < 3 ==> ((m & 3) | (if e { 4u8 } else { 0u8 }) | (if f { 8u8 } else { 0u8 }) | (if b {
        16u8
    } else {
        0u8
    }) | 0u8 | (if d { 64u8 } else { 0u8 }) | (if s { 128u8 } else { 0u8 })) as int == m + (if e {
        4int
    } else {
        0
    }) + (if f { 8int } else { 0 }) + (if b { 16int } else { 0 }) + (if d { 64int } else { 0 })
        + (if s { 128int } else { 0 })) by (bit_vector);
}

impl ControlCode {
    pub fn new() -> (r: Self)
        ensures
            r.0 == 0,
    {
        ControlCode(0)
    }

    pub fn from_bits(bits: u8) -> (r: Self)
        ensures
            r.0 == bits,
            r@ == decode_control_code(bits),
    {
        ControlCode(bits)
    }

    pub fn to_bits(&self) -> (r: u8)
        ensures
            r == self.0,
            r == encode_control_code(self@),
    {
        proof {
            law_control_code_bits(self.0);
        }
        self.0
    }

    /// Whether the reserved bit is set.
    pub fn is_invalid(&self) -> (r: bool)
        ensures
            r == self@.reserved,
    {
        self.0 & 32 != 0
    }

    pub fn is_test(&self) -> (r: bool)
        ensures
            r == (self@.mode == 1),
    {
        self.0 & 3 == 1
    }

    pub fn is_autonomus(&self) -> (r: bool)
        ensures
            r == (self@.mode == 2),
    {
        self.0 & 3 == 2
    }

    pub fn is_teleop(&self) -> (r: bool)
        ensures
            r == (self@.mode == 0),
    {
        self.0 & 3 == 0
    }

    pub fn is_estop(&self) -> (r: bool)
        ensures
            r == self@.estop,
    {
        self.0 & 128 != 0
    }

    pub fn is_enabled(&self) -> (r: bool)
        ensures
            r == self@.enabled,
    {
        self.0 & 4 != 0
    }

    pub fn is_disabled(&self) -> (r: bool)
        ensures
            r == !self@.enabled,
    {
        !self.is_enabled()
    }

    pub fn is_brown_out_protection(&self) -> (r: bool)
        ensures
            r == self@.brown_out_protection,
    {
        self.0 & 16 != 0
    }

    pub fn is_driverstation_attached(&self) -> (r: bool)
        ensures
            r == self@.ds_attached,
    {
        self.0 & 64 != 0
    }

    fn set_mode(&mut self, mode: u8)
        requires
            mode < 4,
        ensures
            final(self)@ == (ControlCodeView { mode, ..old(self)@ }),
    {
        proof {
            assert(mode < 4 ==> mode & !3u8 == 0) by (bit_vector);
        }
        self.0 = write_field(self.0, 3, mode);
        proof {
            lemma_masks();
            assert(3u8 & 4 == 0 && 3u8 & 8 == 0 && 3u8 & 16 == 0 && 3u8 & 32 == 0 && 3u8 & 64 == 0
                && 3u8 & 128 == 0);
        }
    }

    fn set_flag(&mut self, m: u8, on: bool)
        requires
            m == 4 || m == 8 || m == 16 || m == 32 || m == 64 || m == 128,
        ensures
            final(self).0 & m != 0 <==> on,
            forall|m2: u8| m & m2 == 0 ==> #[trigger] (final(self).0 & m2) == old(self).0 & m2,
    {
        self.0 = write_flag(self.0, m, on);
    }

    pub fn set_test(&mut self) -> (r: &mut Self)
        ensures
            *final(self) == *final(r),
            r@ == apply_set(old(self)@, ControlCodeSet::Test),
    {
        self.set_mode(1);
        self
    }

    pub fn set_autonomus(&mut self) -> (r: &mut Self)
        ensures
            *final(self) == *final(r),
            r@ == apply_set(old(self)@, ControlCodeSet::Autonomus),
    {
        self.set_mode(2);
        self
    }

    pub fn set_teleop(&mut self) -> (r: &mut Self)
        ensures
            *final(self) == *final(r),
            r@ == apply_set(old(self)@, ControlCodeSet::Teleop),
    {
        self.set_mode(0);
        self
    }

    pub fn set_enabled(&mut self) -> (r: &mut Self)
        ensures
            *final(self) == *final(r),
            r@ == apply_set(old(self)@, ControlCodeSet::Enabled),
    {
        self.set_flag(4, true);
        proof {
            lemma_masks();
        }
        self
    }

    pub fn set_disabled(&mut self) -> (r: &mut Self)
        ensures
            *final(self) == *final(r),
            r@ == apply_set(old(self)@, ControlCodeSet::Disabled),
    {
        self.set_flag(4, false);
        proof {
            lemma_masks();
        }
        self
    }

    pub fn set_brownout_protection(&mut self, active: bool) -> (r: &mut Self)
        ensures
            *final(self) == *final(r),
            r@ == apply_set(old(self)@, ControlCodeSet::BrownoutProtection(active)),
    {
        self.set_flag(16, active);
        proof {
            lemma_masks();
        }
        self
    }

    pub fn set_estop(&mut self, estop: bool) -> (r: &mut Self)
        ensures
            *final(self) == *final(r),
            r@ == apply_set(old(self)@, ControlCodeSet::Estop(estop)),
    {
        self.set_flag(128, estop);
        proof {
            lemma_masks();
        }
        self
    }

    pub fn set_fms_attached(&mut self, fms_attached: bool) -> (r: &mut Self)
        ensures
            *final(self) == *final(r),
            r@ == apply_set(old(self)@, ControlCodeSet::FmsAttached(fms_attached)),
    {
        self.set_flag(8, fms_attached);
        proof {
            lemma_masks();
        }
        self
    }

    pub fn set_ds_attached(&mut self, attached: bool) -> (r: &mut Self)
        ensures
            *final(self) == *final(r),
            r@ == apply_set(old(self)@, ControlCodeSet::DsAttached(attached)),
    {
        self.set_flag(64, attached);
        proof {
            lemma_masks();
        }
        self
    }
}

/// The control byte, bit by bit from the least significant: the mode in the
/// two lowest bits (0 teleop, 1 test, 2 autonomous), then enabled, FMS
/// attached, brown-out protection, a reserved bit, driver station attached,
/// emergency stop; and the setters of the modes put those numbers there.
pub proof fn law_control_code_layout(b: u8, v: ControlCodeView)
    ensures
        decode_control_code(b).mode == b % 4,
        decode_control_code(b).enabled == ((b >> 2u8) & 1 == 1),
        decode_control_code(b).fms_attached == ((b >> 3u8) & 1 == 1),
        decode_control_code(b).brown_out_protection == ((b >> 4u8) & 1 == 1),
        decode_control_code(b).reserved == ((b >> 5u8) & 1 == 1),
        decode_control_code(b).ds_attached == ((b >> 6u8) & 1 == 1),
        decode_control_code(b).estop == ((b >> 7u8) & 1 == 1),
        apply_set(v, ControlCodeSet::Teleop).mode == 0,
        apply_set(v, ControlCodeSet::Test).mode == 1,
        apply_set(v, ControlCodeSet::Autonomus).mode == 2,
{
    assert(b & 3 == b % 4 && (b & 4 != 0) == ((b >> 2u8) & 1 == 1) && (b & 8 != 0) == ((b >> 3u8) & 1
        == 1) && (b & 16 != 0) == ((b >> 4u8) & 1 == 1) && (b & 32 != 0) == ((b >> 5u8) & 1 == 1) && (b
        & 64 != 0) == ((b >> 6u8) & 1 == 1) && (b & 128 != 0) == ((b >> 7u8) & 1 == 1)) by (bit_vector);
}

} // verus!
