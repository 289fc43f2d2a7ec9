use vstd::prelude::*;

use crate::bits::lemma_nibbles;
use crate::buffer_reader::{
    be_value, overflow_error, BufferReader, BufferReaderError, CreateFromBuf, ReadFromBuf,
};
use crate::buffer_writter::{
    be4, be_bytes, lemma_be_bytes_len, lemma_be_bytes_split, lemma_be_value_bound,
    lemma_be_value_of_bytes,
    lemma_pow256_step, lemma_piece_failed, lemma_wrote_all_empty, lemma_wrote_all_next,
    lemma_wrote_all_seq, lemma_wrote_all_stop, pow256, cut, cuts_ok, write_in_pieces, wrote_all,
    wrote_pieces, BufferWritter, BufferWritterError, SliceBufferWritter, WriteToBuff,
};

verus! {

/// A pov hat reading; the raw value `0xFFFF` means the hat is not pressed.
#[derive(Clone, Copy, Debug, PartialEq, Eq, Hash, PartialOrd, Ord, Structural)]
pub struct NonNegU16(u16);

impl View for NonNegU16 {
    type V = u16;

    closed spec fn view(&self) -> u16 {
        self.0
    }
}

impl NonNegU16 {
    pub fn new(val: u16) -> (r: Self)
        ensures
            r@ == val,
    {
        NonNegU16(val)
    }

    /// The reading of a hat that is not pressed.
    pub fn none() -> (r: Self)
        ensures
            r@ == 0xFFFF,
    {
        NonNegU16(0xFFFF)
    }

    /// The angle, or `None` when the hat is not pressed.
    pub fn get(&self) -> (r: Option<u16>)
        ensures
            r == (if self@ == 0xFFFF {
                None
            } else {
                Some(self@)
            }),
    {
        if self.0 == 0xFFFF {
            None
        } else {
            Some(self.0)
        }
    }

    pub fn raw(&self) -> (r: u16)
        ensures
            r == self@,
    {
        self.0
    }
}

/// A joystick already holds 32 buttons, or a button index past the settable ones.
#[derive(Debug, Clone, Copy, PartialEq, Eq, Hash, Structural)]
pub struct ButtonLenOverflow;

/// A joystick already holds 2 povs, or a pov index past them.
#[derive(Debug, Clone, Copy, PartialEq, Eq, Hash, Structural)]
pub struct PovLenOverflow;

/// A joystick already holds 10 axes, or an axis index past them.
#[derive(Debug, Clone, Copy, PartialEq, Eq, Hash, Structural)]
pub struct AxisLenOverflow;

/// Why a joystick could not be read.
#[derive(Debug)]
pub enum JoystickParseError {
    ButtonLenOverflow(u8),
    PovLenOverflow(u8),
    AxisLenOverflow(u8),
    BufferReaderError(BufferReaderError),
}

impl From<BufferReaderError> for JoystickParseError {
    fn from(value: BufferReaderError) -> (r: Self)
        ensures
            r == JoystickParseError::BufferReaderError(value),
    {
        JoystickParseError::BufferReaderError(value)
    }
}

impl vstd::std_specs::convert::FromSpecImpl<BufferReaderError> for JoystickParseError {
    open spec fn obeys_from_spec() -> bool {
        true
    }

    open spec fn from_spec(v: BufferReaderError) -> Self {
        JoystickParseError::BufferReaderError(v)
    }
}

impl From<AxisLenOverflow> for JoystickParseError {
    fn from(value: AxisLenOverflow) -> (r: Self)
        ensures
            r == JoystickParseError::AxisLenOverflow(11),
    {
        JoystickParseError::AxisLenOverflow(11)
    }
}

impl vstd::std_specs::convert::FromSpecImpl<AxisLenOverflow> for JoystickParseError {
    open spec fn obeys_from_spec() -> bool {
        true
    }

    open spec fn from_spec(v: AxisLenOverflow) -> Self {
        JoystickParseError::AxisLenOverflow(11)
    }
}

impl From<PovLenOverflow> for JoystickParseError {
    fn from(value: PovLenOverflow) -> (r: Self)
        ensures
            r == JoystickParseError::PovLenOverflow(3),
    {
        JoystickParseError::PovLenOverflow(3)
    }
}

impl vstd::std_specs::convert::FromSpecImpl<PovLenOverflow> for JoystickParseError {
    open spec fn obeys_from_spec() -> bool {
        true
    }

    open spec fn from_spec(v: PovLenOverflow) -> Self {
        JoystickParseError::PovLenOverflow(3)
    }
}

impl From<ButtonLenOverflow> for JoystickParseError {
    fn from(value: ButtonLenOverflow) -> (r: Self)
        ensures
            r == JoystickParseError::ButtonLenOverflow(33),
    {
        JoystickParseError::ButtonLenOverflow(33)
    }
}

impl vstd::std_specs::convert::FromSpecImpl<ButtonLenOverflow> for JoystickParseError {
    open spec fn obeys_from_spec() -> bool {
        true
    }

    open spec fn from_spec(v: ButtonLenOverflow) -> Self {
        JoystickParseError::ButtonLenOverflow(33)
    }
}

/// What a joystick holds. Only the first `axis_len` axes, `povs_len` povs and
/// `buttons_len` buttons are in use; the entries past them keep what was last
/// stored there, and come back into use when a setter lengthens the list.
#[verifier::ext_equal]
pub struct JoystickView {
    pub axis: Seq<i8>,
    pub axis_len: nat,
    pub povs: Seq<u16>,
    pub povs_len: nat,
    pub buttons: u32,
    pub buttons_len: nat,
}

/// The joystick that `Joystick::new` makes: nothing in use, every stored entry 0.
pub open spec fn empty_joystick() -> JoystickView {
    JoystickView {
        axis: Seq::new(10, |i: int| 0i8),
        axis_len: 0,
        povs: seq![0u16, 0u16],
        povs_len: 0,
        buttons: 0,
        buttons_len: 0,
    }
}

/// The state of one controller: up to 10 axes, up to 2 povs and up to 32
/// buttons.
#[derive(Clone, Copy, Debug)]
pub struct Joystick {
    /// The top bit is always set; bits 4 to 6 hold the pov count and bits 0 to
    /// 3 the axis count.
    axis_povs: u8,
    buttons_len: u8,
    buttons: u32,
    povs: [NonNegU16; 2],
    axis: [i8; 10],
}

impl View for Joystick {
    type V = JoystickView;

    closed spec fn view(&self) -> JoystickView {
        JoystickView {
            axis: self.axis@,
            axis_len: (self.axis_povs % 16) as nat,
            povs: self.povs@.map_values(|p: NonNegU16| p@),
            povs_len: ((self.axis_povs / 16) % 8) as nat,
            buttons: self.buttons,
            buttons_len: self.buttons_len as nat,
        }
    }
}

impl Joystick {
    #[verifier::type_invariant]
    pub closed spec fn inv(self) -> bool {
        &&& self.axis_povs >= 128
        &&& self.axis_povs % 16 <= 10
        &&& (self.axis_povs / 16) % 8 <= 2
        &&& self.buttons_len <= 32
    }

    /// Every joystick keeps 10 axis entries and 2 pov entries, and at most that
    /// many, and at most 32 buttons, in use.
    pub proof fn lemma_bounds(&self)
        requires
            self.inv(),
        ensures
            self@.axis.len() == 10,
            self@.povs.len() == 2,
            self@.axis_len <= 10,
            self@.povs_len <= 2,
            self@.buttons_len <= 32,
    {
    }

    pub fn new() -> (r: Self)
        ensures
            r@ == empty_joystick(),
    {
        let r = Joystick {
            axis_povs: 0b1000_0000,
            buttons_len: 0,
            buttons: 0,
            povs: [NonNegU16(0), NonNegU16(0)],
            axis: [0; 10],
        };
        proof {
            assert(r@.axis =~= empty_joystick().axis);
            assert(r@.povs =~= empty_joystick().povs);
        }
        r
    }

    pub fn axis_len(&self) -> (r: u8)
        ensures
            r == self@.axis_len,
    {
        proof {
            lemma_nibbles(self.axis_povs);
        }
        self.axis_povs & 0b1111
    }

    pub fn povs_len(&self) -> (r: u8)
        ensures
            r == self@.povs_len,
    {
        proof {
            lemma_nibbles(self.axis_povs);
        }
        (self.axis_povs >> 4) & 0b111
    }

    pub fn buttons_len(&self) -> (r: u8)
        ensures
            r == self@.buttons_len,
    {
        self.buttons_len
    }

    /// Appends a button as the next bit; fails once 32 buttons are held.
    pub fn push_button(&mut self, button: bool) -> (r: Result<(), ButtonLenOverflow>)
        ensures
            old(self)@.buttons_len < 32 ==> r is Ok && final(self)@ == (JoystickView {
                buttons: old(self)@.buttons | ((if button {
                    1u32
                } else {
                    0u32
                }) << old(self)@.buttons_len),
                buttons_len: old(self)@.buttons_len + 1,
                ..old(self)@
            }),
            old(self)@.buttons_len >= 32 ==> r is Err && final(self)@ == old(self)@,
    {
        proof {
            use_type_invariant(&*self);
        }
        if self.buttons_len < 32 {
            let bit: u32 = if button {
                1
            } else {
                0
            };
            self.buttons = self.buttons | (bit << self.buttons_len);
            self.buttons_len = self.buttons_len + 1;
            Ok(())
        } else {
            Err(ButtonLenOverflow)
        }
    }

    /// Appends an axis; fails once 10 axes are held.
    pub fn push_axis(&mut self, axis: i8) -> (r: Result<(), AxisLenOverflow>)
        ensures
            old(self)@.axis_len < 10 ==> r is Ok && final(self)@ == (JoystickView {
                axis: old(self)@.axis.update(old(self)@.axis_len as int, axis),
                axis_len: old(self)@.axis_len + 1,
                ..old(self)@
            }),
            old(self)@.axis_len >= 10 ==> r is Err && final(self)@ == old(self)@,
    {
        proof {
            use_type_invariant(&*self);
        }
        let len = self.axis_len();
        if len < 10 {
            self.axis[len as usize] = axis;
            self.axis_povs = self.axis_povs + 1;
            Ok(())
        } else {
            Err(AxisLenOverflow)
        }
    }

    /// Appends a pov; fails once 2 povs are held.
    pub fn push_pov(&mut self, pov: NonNegU16) -> (r: Result<(), PovLenOverflow>)
        ensures
            old(self)@.povs_len < 2 ==> r is Ok && final(self)@ == (JoystickView {
                povs: old(self)@.povs.update(old(self)@.povs_len as int, pov@),
                povs_len: old(self)@.povs_len + 1,
                ..old(self)@
            }),
            old(self)@.povs_len >= 2 ==> r is Err && final(self)@ == old(self)@,
    {
        proof {
            use_type_invariant(&*self);
        }
        let len = self.povs_len();
        if len < 2 {
            self.povs[len as usize] = pov;
            self.axis_povs = self.axis_povs + 16;
            proof {
                assert(self.povs@.map_values(|p: NonNegU16| p@) =~= old(self)@.povs.update(
                    old(self)@.povs_len as int,
                    pov@,
                ));
            }
            Ok(())
        } else {
            Err(PovLenOverflow)
        }
    }

    /// Button `button` when it is in use: bit `button` of the button bits.
    pub fn get_button(&self, button: u8) -> (r: Option<bool>)
        ensures
            r == (if button < self@.buttons_len {
                Some(button_bit(self@.buttons, button))
            } else {
                None
            }),
            r == (if button < self@.buttons_len {
                Some((self@.buttons >> button) & 1 == 1)
            } else {
                None
            }),
    {
        proof {
            use_type_invariant(self);
        }
        if button < self.buttons_len() {
            Some(self.buttons >> button & 1 == 1)
        } else {
            None
        }
    }

    pub fn get_pov(&self, pov: u8) -> (r: Option<NonNegU16>)
        ensures
            r matches Some(p) ==> pov < self@.povs_len && p@ == self@.povs[pov as int],
            r is None ==> pov >= self@.povs_len,
    {
        proof {
            use_type_invariant(self);
        }
        if pov < self.povs_len() {
            Some(self.povs[pov as usize])
        } else {
            None
        }
    }

    pub fn get_axis(&self, axis: u8) -> (r: Option<i8>)
        ensures
            r == (if axis < self@.axis_len {
                Some(self@.axis[axis as int])
            } else {
                None
            }),
    {
        proof {
            use_type_invariant(self);
        }
        if axis < self.axis_len() {
            Some(self.axis[axis as usize])
        } else {
            None
        }
    }

    /// Marks no axis as in use; the stored values stay.
    pub fn clear_axis(&mut self)
        ensures
            final(self)@ == (JoystickView { axis_len: 0, ..old(self)@ }),
    {
        proof {
            use_type_invariant(&*self);
            lemma_nibbles(self.axis_povs);
        }
        self.axis_povs = self.axis_povs & !0b1111u8;
    }

    /// Marks no pov as in use; the stored values stay.
    pub fn clear_povs(&mut self)
        ensures
            final(self)@ == (JoystickView { povs_len: 0, ..old(self)@ }),
    {
        proof {
            use_type_invariant(&*self);
            lemma_nibbles(self.axis_povs);
        }
        self.axis_povs = self.axis_povs & !0b111_0000u8;
    }

    /// Sets every button bit to 0; how many buttons are in use stays.
    pub fn clear_buttons(&mut self)
        ensures
            final(self)@ == (JoystickView { buttons: 0, ..old(self)@ }),
    {
        proof {
            use_type_invariant(&*self);
        }
        self.buttons = 0;
    }

    /// Sets button `index`, one of the first 10, and puts every button up to it
    /// in use.
    pub fn set_button(&mut self, index: u8, value: bool) -> (r: Result<(), ButtonLenOverflow>)
        ensures
            index < 10 ==> r is Ok && final(self)@ == (JoystickView {
                buttons: (old(self)@.buttons & !(1u32 << index)) | ((if value {
                    1u32
                } else {
                    0u32
                }) << index),
                buttons_len: if old(self)@.buttons_len > index + 1 {
                    old(self)@.buttons_len
                } else {
                    (index + 1) as nat
                },
                ..old(self)@
            }),
            index >= 10 ==> r is Err && final(self)@ == old(self)@,
            index < 10 ==> button_bit(final(self)@.buttons, index) == value && forall|j: u8|
                j < 32 && j != index ==> #[trigger] button_bit(final(self)@.buttons, j) == button_bit(
                    old(self)@.buttons,
                    j,
                ),
    {
        proof {
            use_type_invariant(&*self);
        }
        if index < 10 {
            let bit: u32 = if value {
                1
            } else {
                0
            };
            let ghost b0 = self.buttons;
            self.buttons = self.buttons & !(1u32 << index as u32) | (bit << index as u32);
            proof {
                assert forall|j: u8| j < 32 implies #[trigger] button_bit(self.buttons, j) == (if j
                    == index {
                    value
                } else {
                    button_bit(b0, j)
                }) by {
                    lemma_set_bit(b0, index as u32, bit, j as u32);
                }
            }
            if self.buttons_len < index + 1 {
                self.buttons_len = index + 1;
            }
            Ok(())
        } else {
            Err(ButtonLenOverflow)
        }
    }

    /// Sets pov `pov`, one of the 2, and puts every pov up to it in use.
    pub fn set_pov(&mut self, pov: u8, val: NonNegU16) -> (r: Result<(), PovLenOverflow>)
        ensures
            pov < 2 ==> r is Ok && final(self)@ == (JoystickView {
                povs: old(self)@.povs.update(pov as int, val@),
                povs_len: if old(self)@.povs_len > pov {
                    old(self)@.povs_len
                } else {
                    (pov + 1) as nat
                },
                ..old(self)@
            }),
            pov >= 2 ==> r is Err && final(self)@ == old(self)@,
    {
        proof {
            use_type_invariant(&*self);
            lemma_nibbles(self.axis_povs);
        }
        if pov < 2 {
            self.povs[pov as usize] = val;
            if pov >= self.povs_len() {
                let p1: u8 = pov + 1;
                proof {
                    assert(p1 << 4u8 == p1 * 16) by (bit_vector)
                        requires
                            p1 <= 2,
                    ;
                }
                self.axis_povs = (self.axis_povs & 0b1000_1111) + (p1 << 4u8);
            }
            proof {
                assert(self.povs@.map_values(|p: NonNegU16| p@) =~= old(self)@.povs.update(
                    pov as int,
                    val@,
                ));
            }
            Ok(())
        } else {
            Err(PovLenOverflow)
        }
    }

    /// Sets axis `axis` and puts every axis up to it in use. Indexes 0 to 9 name
    /// the 10 axes and 11 and up are refused; 10 is out of the storage, so it is
    /// not accepted.
    pub fn set_axis(&mut self, axis: u8, val: i8) -> (r: Result<(), AxisLenOverflow>)
        requires
            axis != 10,
        ensures
            axis < 10 ==> r is Ok && final(self)@ == (JoystickView {
                axis: old(self)@.axis.update(axis as int, val),
                axis_len: if old(self)@.axis_len > axis {
                    old(self)@.axis_len
                } else {
                    (axis + 1) as nat
                },
                ..old(self)@
            }),
            axis > 10 ==> r is Err && final(self)@ == old(self)@,
    {
        proof {
            use_type_invariant(&*self);
            lemma_nibbles(self.axis_povs);
        }
        if axis < 11 {
            self.axis[axis as usize] = val;
            if axis >= self.axis_len() {
                self.axis_povs = (self.axis_povs & 0b1111_0000) + (axis + 1);
            }
            Ok(())
        } else {
            Err(AxisLenOverflow)
        }
    }
}

impl Default for Joystick {
    fn default() -> (r: Self)
        ensures
            r@ == empty_joystick(),
    {
        Joystick::new()
    }
}

/// How many bytes the first `buttons_len` button bits take on the wire.
pub open spec fn button_bytes(buttons_len: nat) -> nat {
    ((buttons_len + 7) / 8) as nat
}

/// Where the fields of a joystick end in [`joystick_wire`]: each byte up to
/// the pov count on its own, then each pov in two bytes.
pub open spec fn joystick_cuts(j: JoystickView) -> Seq<usize> {
    let m = 3 + j.axis_len + button_bytes(j.buttons_len);
    Seq::new(m as nat, |i: int| (i + 1) as usize) + seq![(m + 2) as usize, (m + 4) as usize]
}

/// The cuts of a joystick are in order and end with its bytes.
proof fn lemma_joystick_cuts(j: JoystickView)
    requires
        j.axis_len <= 10,
        j.buttons_len <= 32,
    ensures
        ({
            let m = 3 + j.axis_len + button_bytes(j.buttons_len);
            let c = joystick_cuts(j);
            &&& c.len() == m + 2
            &&& forall|i: int| 0 <= i < m ==> #[trigger] c[i] == i + 1
            &&& c[m as int] == m + 2
            &&& c[(m + 1) as int] == m + 4
            &&& cuts_ok(c, (m + 4) as nat)
        }),
{
    let m = 3 + j.axis_len + button_bytes(j.buttons_len);
    let c = joystick_cuts(j);
    assert(c[m as int] == m + 2);
    assert(c[(m + 1) as int] == m + 4);
    assert forall|a: int, b: int| 0 <= a < b < c.len() implies c[a] <= c[b] by {
        if b < m {
        } else if a < m {
            assert(c[a] == a + 1);
        }
    }
}

/// A joystick on the wire: the axis count and the axes in use as bytes, the
/// button count and the button bits in whole bytes, most significant first,
/// then the pov count 2 and both stored povs, whichever are in use.
pub open spec fn joystick_wire(j: JoystickView) -> Seq<u8> {
    seq![j.axis_len as u8] + j.axis.take(j.axis_len as int).map_values(|a: i8| a as u8) + seq![
        j.buttons_len as u8,
    ] + be_bytes(j.buttons as nat, button_bytes(j.buttons_len)) + seq![2u8] + be_bytes(
        j.povs[0] as nat,
        2,
    ) + be_bytes(j.povs[1] as nat, 2)
}

/// Reading a joystick from the bytes `d` with the cursor at `i`, over the
/// stored entries of `base`: the joystick read or the error, and where the
/// cursor ends. The fields come in the order of [`joystick_wire`] except that
/// the pov count may be 0 to 2 with that many povs; more than 10 axes, more
/// than 32 buttons, more than 2 povs and bytes left over are errors.
pub open spec fn joystick_read(d: Seq<u8>, i: nat, base: JoystickView) -> (
    Result<JoystickView, JoystickParseError>,
    nat,
) {
    let len = d.len();
    if i + 1 > len {
        (Err(JoystickParseError::BufferReaderError(overflow_error(len, i, 1))), i + 1)
    } else {
        let n = d[i as int] as nat;
        let s = i + 1;
        if s + n > len {
            (Err(JoystickParseError::BufferReaderError(overflow_error(len, s, n))), s + n)
        } else if n > 10 {
            (Err(JoystickParseError::AxisLenOverflow(11)), s + n)
        } else {
            let j = s + n;
            if j + 1 > len {
                (Err(JoystickParseError::BufferReaderError(overflow_error(len, j, 1))), j + 1)
            } else if d[j as int] > 32 {
                (Err(JoystickParseError::ButtonLenOverflow(d[j as int])), j + 1)
            } else {
                let bl = d[j as int] as nat;
                let k = j + 1;
                let nb = button_bytes(bl);
                if k + nb > len {
                    (
                        Err(JoystickParseError::BufferReaderError(overflow_error(len, len, 1))),
                        len + 1,
                    )
                } else {
                    let m = k + nb;
                    if m + 1 > len {
                        (
                            Err(JoystickParseError::BufferReaderError(overflow_error(len, m, 1))),
                            m + 1,
                        )
                    } else {
                        let c = d[m as int] as nat;
                        let p = m + 1;
                        let t: nat = if c > 2 {
                            3
                        } else {
                            c
                        };
                        if p + 2 * t > len {
                            let t0 = ((len - p) / 2) as nat;
                            (
                                Err(
                                    JoystickParseError::BufferReaderError(
                                        overflow_error(len, p + 2 * t0, 2),
                                    ),
                                ),
                                p + 2 * t0 + 2,
                            )
                        } else if c > 2 {
                            (Err(JoystickParseError::PovLenOverflow(3)), p + 6)
                        } else {
                            let e = p + 2 * c;
                            if e != len {
                                (
                                    Err(
                                        JoystickParseError::BufferReaderError(
                                            BufferReaderError::UnreadData {
                                                remaining: (len - e) as usize,
                                            },
                                        ),
                                    ),
                                    e,
                                )
                            } else {
                                (
                                    Ok(
                                        JoystickView {
                                            axis: Seq::new(
                                                10,
                                                |q: int|
                                                    if q < n {
                                                        d[s + q] as i8
                                                    } else {
                                                        base.axis[q]
                                                    },
                                            ),
                                            axis_len: n,
                                            povs: Seq::new(
                                                2,
                                                |q: int|
                                                    if q < c {
                                                        be_value(
                                                            d.subrange(p + 2 * q, p + 2 * q + 2),
                                                        ) as u16
                                                    } else {
                                                        base.povs[q]
                                                    },
                                            ),
                                            povs_len: c,
                                            buttons: be_value(d.subrange(k as int, m as int)) as u32,
                                            buttons_len: bl,
                                        },
                                    ),
                                    e,
                                )
                            }
                        }
                    }
                }
            }
        }
    }
}

/// Where each field of a joystick sits on the wire.
proof fn lemma_wire_layout(j: JoystickView)
    requires
        j.axis_len <= 10,
        j.axis.len() == 10,
        j.povs.len() == 2,
        j.buttons_len <= 32,
    ensures
        ({
            let w = joystick_wire(j);
            let al = j.axis_len as int;
            let nb = button_bytes(j.buttons_len) as int;
            &&& w.len() == 7 + al + nb
            &&& w[0] == j.axis_len as u8
            &&& forall|q: int| 0 <= q < al ==> w[1 + q] == j.axis[q] as u8
            &&& w[1 + al] == j.buttons_len as u8
            &&& w.subrange(2 + al, 2 + al + nb) == be_bytes(j.buttons as nat, nb as nat)
            &&& w[2 + al + nb] == 2
            &&& w.subrange(3 + al + nb, 5 + al + nb) == be_bytes(j.povs[0] as nat, 2)
            &&& w.subrange(5 + al + nb, 7 + al + nb) == be_bytes(j.povs[1] as nat, 2)
        }),
{
    let nb = button_bytes(j.buttons_len);
    lemma_be_bytes_len(j.buttons as nat, nb);
    lemma_be_bytes_len(j.povs[0] as nat, 2);
    lemma_be_bytes_len(j.povs[1] as nat, 2);
    let w = joystick_wire(j);
    let al = j.axis_len as int;
    let axes = j.axis.take(al).map_values(|a: i8| a as u8);
    let p0 = seq![j.axis_len as u8] + axes;
    let p1 = p0 + seq![j.buttons_len as u8];
    let p2 = p1 + be_bytes(j.buttons as nat, nb);
    let p3 = p2 + seq![2u8];
    let p4 = p3 + be_bytes(j.povs[0] as nat, 2);
    assert(w == p4 + be_bytes(j.povs[1] as nat, 2));
    assert(w.subrange(2 + al, 2 + al + nb) =~= be_bytes(j.buttons as nat, nb as nat));
    assert(w.subrange(3 + al + nb, 5 + al + nb) =~= be_bytes(j.povs[0] as nat, 2));
    assert(w.subrange(5 + al + nb, 7 + al + nb) =~= be_bytes(j.povs[1] as nat, 2));
}

/// Whether button `i` of the bits `buttons` is down: bit `i`, counted from the
/// least significant.
pub open spec fn button_bit(buttons: u32, i: u8) -> bool {
    (buttons >> (i as u32)) & 1 == 1
}

/// Button `i` is bit `i` of the button bits: odd after shifting `i` places
/// down.
pub proof fn law_button_bit(x: u32, i: u8)
    requires
        i < 32,
    ensures
        button_bit(x, i) == ((x >> (i as u32)) % 2 == 1),
        button_bit(1u32 << (i as u32), i),
        button_bit(x, i) ==> x >= 1,
{
    let k = i as u32;
    assert(k < 32 ==> (((x >> k) & 1 == 1) == ((x >> k) % 2 == 1) && ((1u32 << k) >> k) & 1 == 1
        && (((x >> k) & 1 == 1) ==> x >= 1))) by (bit_vector);
}

/// Setting bit `i` of `b` to `v` changes that bit alone.
proof fn lemma_set_bit(b: u32, i: u32, v: u32, j: u32)
    requires
        i < 32,
        j < 32,
        v <= 1,
    ensures
        (((b & !(1u32 << i)) | (v << i)) >> j) & 1 == (if j == i {
            v
        } else {
            (b >> j) & 1
        }),
{
    assert(i < 32 && j < 32 && v <= 1 ==> (((b & !(1u32 << i)) | (v << i)) >> j) & 1 == (if j == i {
        v
    } else {
        (b >> j) & 1
    })) by (bit_vector);
}

/// A joystick on the wire: the axis count, each axis in use as a byte in
/// order, the button count, the button bits in whole bytes high byte first,
/// the pov count 2, and the two povs in two bytes each, high byte first.
pub proof fn law_joystick_wire_layout(j: JoystickView)
    requires
        j.axis_len <= 10,
        j.axis.len() == 10,
        j.povs.len() == 2,
        j.buttons_len <= 32,
    ensures
        ({
            let w = joystick_wire(j);
            let al = j.axis_len as int;
            let nb = button_bytes(j.buttons_len) as int;
            &&& w.len() == 7 + al + nb
            &&& w[0] == j.axis_len as u8
            &&& forall|q: int| 0 <= q < al ==> w[1 + q] == j.axis[q] as u8
            &&& w[1 + al] == j.buttons_len as u8
            &&& w[2 + al + nb] == 2
            &&& w[3 + al + nb] as int * 256 + w[4 + al + nb] as int == j.povs[0]
            &&& w[5 + al + nb] as int * 256 + w[6 + al + nb] as int == j.povs[1]
        }),
{
    lemma_wire_layout(j);
    let w = joystick_wire(j);
    let nb = button_bytes(j.buttons_len) as int;
    let al = j.axis_len as int;
    reveal_with_fuel(be_bytes, 3);
    let b0 = be_bytes(j.povs[0] as nat, 2);
    let b1 = be_bytes(j.povs[1] as nat, 2);
    assert(b0[0] as int * 256 + b0[1] as int == j.povs[0]);
    assert(b1[0] as int * 256 + b1[1] as int == j.povs[1]);
    assert(w.subrange(3 + al + nb, 5 + al + nb)[0] == w[3 + al + nb]);
    assert(w.subrange(3 + al + nb, 5 + al + nb)[1] == w[4 + al + nb]);
    assert(w.subrange(5 + al + nb, 7 + al + nb)[0] == w[5 + al + nb]);
    assert(w.subrange(5 + al + nb, 7 + al + nb)[1] == w[6 + al + nb]);
}

/// A joystick written and read back gives back its axes and buttons in use
/// and both stored povs, the other axes coming from the joystick read over;
/// the read reports both povs in use, since the wire always carries two.
pub proof fn law_joystick_roundtrip(j: JoystickView, base: JoystickView)
    requires
        j.axis_len <= 10,
        j.axis.len() == 10,
        j.povs.len() == 2,
        j.buttons_len <= 32,
        base.axis.len() == 10,
        base.povs.len() == 2,
    ensures
        joystick_read(joystick_wire(j), 0, base) == (
            Ok::<JoystickView, JoystickParseError>(
                JoystickView {
                    axis: Seq::new(
                        10,
                        |q: int|
                            if q < j.axis_len {
                                j.axis[q]
                            } else {
                                base.axis[q]
                            },
                    ),
                    axis_len: j.axis_len,
                    povs: j.povs,
                    povs_len: 2,
                    buttons: (j.buttons as nat % pow256(button_bytes(j.buttons_len))) as u32,
                    buttons_len: j.buttons_len,
                },
            ),
            joystick_wire(j).len(),
        ),
{
    lemma_wire_layout(j);
    let w = joystick_wire(j);
    let al = j.axis_len as int;
    let nb = button_bytes(j.buttons_len);
    lemma_be_value_of_bytes(j.buttons as nat, nb);
    lemma_be_value_of_bytes(j.povs[0] as nat, 2);
    lemma_be_value_of_bytes(j.povs[1] as nat, 2);
    assert(pow256(2) == 65536) by {
        reveal_with_fuel(pow256, 3);
    }
    assert forall|q: int| 0 <= q < al implies (w[1 + q] as i8) == j.axis[q] by {
        let a = j.axis[q];
        assert((a as u8) as i8 == a) by (bit_vector);
    }
    assert(w.len() == 7 + al + nb);
    assert(w[0] == j.axis_len as u8);
    assert(w[1 + al] == j.buttons_len as u8);
    assert(w[2 + al + nb] == 2);
    assert(button_bytes(w[1 + al] as nat) == nb);
    let (res, e) = joystick_read(w, 0, base);
    let expected = JoystickView {
        axis: Seq::new(10, |q: int| if q < j.axis_len { j.axis[q] } else { base.axis[q] }),
        axis_len: j.axis_len,
        povs: j.povs,
        povs_len: 2,
        buttons: (j.buttons as nat % pow256(nb)) as u32,
        buttons_len: j.buttons_len,
    };
    assert(res is Ok);
    assert(res matches Ok(v) && v.axis =~= expected.axis && v.povs =~= expected.povs && v
        == expected);
}

impl WriteToBuff for Joystick {
    type Error = BufferWritterError;

    /// Writes [`joystick_wire`] field by field ([`joystick_cuts`]), stopping at
    /// the first that does not fit.
    #[verifier::spinoff_prover]
    #[verifier::rlimit(40)]
    fn write_to_buf<T: BufferWritter>(&self, buf: &mut T) -> (r: Result<(), Self::Error>)
        ensures
            wrote_pieces(*old(buf), *final(buf), joystick_wire(self@), joystick_cuts(self@), r),
    {
        proof {
            use_type_invariant(self);
        }
        let ghost total = joystick_wire(self@);
        let ghost before = *buf;
        let ghost al = self@.axis_len;
        let ghost nb = button_bytes(self@.buttons_len);
        proof {
            lemma_wire_layout(self@);
            reveal_with_fuel(be_bytes, 2);
            assert(total.take(0) =~= Seq::<u8>::empty());
            lemma_wrote_all_empty(before);
        }
        // axis count
        let axis_len = self.axis_len();
        let ghost mid = *buf;
        let res = buf.write_u8(axis_len);
        proof {
            assert(total.subrange(0, 1) =~= be_bytes(axis_len as nat, 1));
            lemma_wrote_all_next(before, mid, *buf, total, 0, 1, res);
        }
        if res.is_err() {
            proof {
                lemma_joystick_cuts(self@);
                lemma_piece_failed(before, mid, *buf, total, joystick_cuts(self@), 0, 1, 0, res);
            }
            return res;
        }
        let mut i: u8 = 0;
        while i < axis_len
            invariant
                i <= axis_len,
                axis_len == al,
                al <= 10,
                al == self@.axis_len,
                self@.buttons_len <= 32,
                nb == button_bytes(self@.buttons_len),
                self@.axis.len() == 10,
                total == joystick_wire(self@),
                before == *old(buf),
                total.len() == 7 + al + nb,
                forall|q: int| 0 <= q < al ==> total[1 + q] == self@.axis[q] as u8,
                wrote_all(before, *buf, total.take(1 + i), Ok(())),
            decreases axis_len - i,
        {
            let a = self.axis[i as usize];
            let ghost mid = *buf;
            let res = buf.write_u8(a as u8);
            proof {
                reveal_with_fuel(be_bytes, 2);
                assert(total.subrange(1 + i, 1 + i + 1) =~= be_bytes((a as u8) as nat, 1));
                lemma_wrote_all_next(before, mid, *buf, total, (1 + i) as nat, 1, res);
            }
            if res.is_err() {
                proof {
                    lemma_joystick_cuts(self@);
                    lemma_piece_failed(before, mid, *buf, total, joystick_cuts(self@), (1 + i) as nat, 1, (1 + i) as int, res);
                }
                return res;
            }
            i = i + 1;
        }
        // button count and bits
        let buttons_len = self.buttons_len;
        let ghost mid = *buf;
        let res = buf.write_u8(buttons_len);
        proof {
            reveal_with_fuel(be_bytes, 2);
            assert(total.subrange(1 + al as int, 2 + al as int) =~= be_bytes(buttons_len as nat, 1));
            lemma_wrote_all_next(before, mid, *buf, total, 1 + al, 1, res);
        }
        if res.is_err() {
            proof {
                lemma_joystick_cuts(self@);
                lemma_piece_failed(before, mid, *buf, total, joystick_cuts(self@), 1 + al, 1, (1 + al) as int, res);
            }
            return res;
        }
        let nbytes: u8 = (buttons_len + 7) / 8;
        let bits = be4(self.buttons);
        proof {
            lemma_be_bytes_split(self.buttons as nat, (4 - nb) as nat, nb);
            lemma_be_bytes_len((self.buttons as nat) / pow256(nb), (4 - nb) as nat);
            lemma_be_bytes_split(self.buttons as nat, 0, nb);
            lemma_be_bytes_len((self.buttons as nat) / pow256(nb), 0);
            assert(bits@.skip(4 - nb) =~= be_bytes(self.buttons as nat, nb));
        }
        let ghost start = 2 + al;
        let mut q: usize = 4 - nbytes as usize;
        while q < 4
            invariant
                4 - nb <= q <= 4,
                nb <= 4,
                nbytes == nb,
                nb == button_bytes(self@.buttons_len),
                al == self@.axis_len,
                self@.axis_len <= 10,
                self@.buttons_len <= 32,
                start == 2 + al,
                bits@.skip(4 - nb) == be_bytes(self.buttons as nat, nb),
                bits@.len() == 4,
                total == joystick_wire(self@),
                before == *old(buf),
                total.len() == 7 + al + nb,
                total.subrange(2 + al as int, 2 + al + nb as int) == be_bytes(self.buttons as nat, nb),
                wrote_all(before, *buf, total.take(start + q - (4 - nb)), Ok(())),
            decreases 4 - q,
        {
            let b = bits[q];
            proof {
                assert(bits@.skip(4 - nb)[q - (4 - nb)] == b);
                assert(total.subrange(2 + al as int, 2 + al + nb as int)[q - (4 - nb)] == total[start + q - (4
                    - nb)]);
            }
            let ghost mid = *buf;
            let res = buf.write_u8(b);
            proof {
                reveal_with_fuel(be_bytes, 2);
                assert(total.subrange(start + q - (4 - nb), start + q - (4 - nb) + 1)
                    =~= be_bytes(b as nat, 1));
                lemma_wrote_all_next(
                    before,
                    mid,
                    *buf,
                    total,
                    (start + q - (4 - nb)) as nat,
                    1,
                    res,
                );
            }
            if res.is_err() {
                proof {
                    lemma_joystick_cuts(self@);
                    lemma_piece_failed(before, mid, *buf, total, joystick_cuts(self@), (start + q - (4 - nb)) as nat, 1, start + q - (4 - nb), res);
                }
                return res;
            }
            q = q + 1;
        }
        // pov count and povs
        let ghost pos = 2 + al + nb;
        let ghost mid = *buf;
        let res = buf.write_u8(2);
        proof {
            reveal_with_fuel(be_bytes, 2);
            assert(total.subrange(pos as int, pos as int + 1) =~= be_bytes(2, 1));
            lemma_wrote_all_next(before, mid, *buf, total, pos, 1, res);
        }
        if res.is_err() {
            proof {
                lemma_joystick_cuts(self@);
                lemma_piece_failed(before, mid, *buf, total, joystick_cuts(self@), pos, 1, pos as int, res);
            }
            return res;
        }
        let ghost mid = *buf;
        let res = buf.write_u16(self.povs[0].raw());
        proof {
            assert(total.subrange(pos as int + 1, pos as int + 3) =~= be_bytes(self@.povs[0] as nat, 2));
            lemma_wrote_all_next(before, mid, *buf, total, pos + 1, 2, res);
        }
        if res.is_err() {
            proof {
                lemma_joystick_cuts(self@);
                lemma_piece_failed(before, mid, *buf, total, joystick_cuts(self@), pos + 1, 2, (pos + 1) as int, res);
            }
            return res;
        }
        let ghost mid = *buf;
        let res = buf.write_u16(self.povs[1].raw());
        proof {
            assert(total.subrange(pos as int + 3, pos as int + 5) =~= be_bytes(self@.povs[1] as nat, 2));
            lemma_wrote_all_next(before, mid, *buf, total, pos + 3, 2, res);
            assert(total.take(pos as int + 5) =~= total);
            lemma_joystick_cuts(self@);
            if res is Err {
                lemma_piece_failed(before, mid, *buf, total, joystick_cuts(self@), pos + 3, 2, (pos + 2) as int, res);
            }
        }
        res
    }
}

/// Shifting a byte in below a value of at most three bytes.
proof fn lemma_shift_in(x: u32, b: u8)
    requires
        x < 0x100_0000,
    ensures
        (x << 8u32) | (b as u32) == x * 256 + b,
{
    assert(x < 0x100_0000 ==> (x << 8u32) | (b as u32) == x * 256 + b) by (bit_vector);
}

impl<'a> ReadFromBuf<'a> for Joystick {
    type Error = JoystickParseError;

    /// Reads a joystick in the layout of [`joystick_read`] into this one. The
    /// entries past the counts read keep what this joystick stored.
    #[verifier::loop_isolation(false)]
    fn read_into_from_buf(&mut self, buf: &mut BufferReader<'a>) -> (r: Result<(), Self::Error>)
        ensures
            final(buf).spec_buf() == old(buf).spec_buf(),
            final(buf).spec_buf_ref() == old(buf).spec_buf_ref(),
            ({
                let (res, end) = joystick_read(
                    old(buf).spec_buf(),
                    old(buf).spec_index(),
                    old(self)@,
                );
                &&& final(buf).spec_index() == end
                &&& match res {
                    Ok(j) => r is Ok && final(self)@ == j,
                    Err(e) => r == Err::<(), JoystickParseError>(e),
                }
            }),
    {
        let ghost d = buf.spec_buf();
        let ghost i0 = buf.spec_index();
        let ghost base = self@;
        proof {
            use_type_invariant(&*self);
            buf.lemma_len_bound();
        }
        self.clear_axis();
        let axes = match buf.read_short_u8_arr() {
            Ok(a) => a,
            Err(e) => {
                return Err(JoystickParseError::BufferReaderError(e));
            },
        };
        let ghost n = axes@.len();
        let ghost s = i0 + 1;
        let mut q: usize = 0;
        while q < axes.len()
            invariant
                q <= axes@.len(),
                q <= 10,
                self@.axis_len == q,
                self@.axis.len() == 10,
                forall|t: int| 0 <= t < q ==> self@.axis[t] == axes@[t] as i8,
                forall|t: int| q <= t < 10 ==> self@.axis[t] == base.axis[t],
                self@.povs == base.povs,
                self@.povs_len == base.povs_len,
                self@.buttons == base.buttons,
                self@.buttons_len == base.buttons_len,
            decreases axes@.len() - q,
        {
            proof {
                use_type_invariant(&*self);
            }
            match self.push_axis(axes[q] as i8) {
                Ok(()) => {},
                Err(_) => {
                    return Err(JoystickParseError::AxisLenOverflow(11));
                },
            }
            q = q + 1;
        }
        self.clear_buttons();
        let buttons_len = match buf.read_u8() {
            Ok(v) => v,
            Err(e) => {
                return Err(JoystickParseError::BufferReaderError(e));
            },
        };
        if buttons_len > 32 {
            return Err(JoystickParseError::ButtonLenOverflow(buttons_len));
        }
        let ghost k = s + n + 1;
        let nbytes: u8 = (buttons_len + 7) / 8;
        let mut q: u8 = 0;
        while q < nbytes
            invariant
                q <= nbytes,
                nbytes <= 4,
                nbytes == button_bytes(buttons_len as nat),
                buf.spec_buf() == d,
                buf.spec_buf_ref() == old(buf).spec_buf_ref(),
                buf.spec_index() == k + q,
                k + q <= d.len(),
                self@.buttons == be_value(d.subrange(k as int, k + q)),
                self@.axis_len == n,
                self@.axis.len() == 10,
                forall|t: int| 0 <= t < n ==> self@.axis[t] == axes@[t] as i8,
                forall|t: int| n <= t < 10 ==> self@.axis[t] == base.axis[t],
                self@.povs == base.povs,
                self@.povs_len == base.povs_len,
                self@.buttons_len == base.buttons_len,
            decreases nbytes - q,
        {
            let b = match buf.read_u8() {
                Ok(v) => v,
                Err(e) => {
                    return Err(JoystickParseError::BufferReaderError(e));
                },
            };
            proof {
                let sub = d.subrange(k as int, k + q + 1);
                assert(sub.drop_last() =~= d.subrange(k as int, k + q));
                lemma_be_value_bound(d.subrange(k as int, k + q));
                assert(pow256(q as nat) <= 0x100_0000) by {
                    reveal_with_fuel(pow256, 4);
                }
                lemma_shift_in(self.buttons, b);
                use_type_invariant(&*self);
            }
            self.buttons = (self.buttons << 8u32) | b as u32;
            q = q + 1;
        }
        proof {
            use_type_invariant(&*self);
        }
        self.buttons_len = buttons_len;
        self.clear_povs();
        let count = match buf.read_u8() {
            Ok(v) => v,
            Err(e) => {
                return Err(JoystickParseError::BufferReaderError(e));
            },
        };
        let ghost p = k + nbytes + 1;
        let mut q: u8 = 0;
        while q < count
            invariant
                q <= count,
                q <= 2,
                buf.spec_buf() == d,
                buf.spec_buf_ref() == old(buf).spec_buf_ref(),
                buf.spec_index() == p + 2 * q,
                p + 2 * q <= d.len(),
                self@.povs_len == q,
                self@.povs.len() == 2,
                forall|t: int|
                    0 <= t < q ==> self@.povs[t] == be_value(d.subrange(p + 2 * t, p + 2 * t + 2))
                        as u16,
                forall|t: int| q <= t < 2 ==> self@.povs[t] == base.povs[t],
                self@.buttons == be_value(d.subrange(k as int, k + nbytes)),
                self@.buttons_len == buttons_len,
                self@.axis_len == n,
                self@.axis.len() == 10,
                forall|t: int| 0 <= t < n ==> self@.axis[t] == axes@[t] as i8,
                forall|t: int| n <= t < 10 ==> self@.axis[t] == base.axis[t],
            decreases count - q,
        {
            let v = match buf.read_u16() {
                Ok(v) => v,
                Err(e) => {
                    return Err(JoystickParseError::BufferReaderError(e));
                },
            };
            match self.push_pov(NonNegU16::new(v)) {
                Ok(()) => {},
                Err(_) => {
                    return Err(JoystickParseError::PovLenOverflow(3));
                },
            }
            q = q + 1;
        }
        match buf.assert_empty() {
            Ok(()) => {},
            Err(e) => {
                return Err(JoystickParseError::BufferReaderError(e));
            },
        }
        proof {
            let (res, end) = joystick_read(d, i0, base);
            assert(res matches Ok(j) && self@ == j) by {
                let j = res->Ok_0;
                assert(self@.axis =~= j.axis);
                assert(self@.povs =~= j.povs);
            }
        }
        Ok(())
    }
}

impl<'a> CreateFromBuf<'a> for Joystick {
    /// Reads a joystick in the layout of [`joystick_read`]; the entries past
    /// the counts read are 0.
    fn create_from_buf(buf: &mut BufferReader<'a>) -> (r: Result<Self, Self::Error>)
        ensures
            final(buf).spec_buf() == old(buf).spec_buf(),
            final(buf).spec_buf_ref() == old(buf).spec_buf_ref(),
            ({
                let (res, end) = joystick_read(
                    old(buf).spec_buf(),
                    old(buf).spec_index(),
                    empty_joystick(),
                );
                &&& final(buf).spec_index() == end
                &&& match res {
                    Ok(j) => r matches Ok(joy) && joy@ == j,
                    Err(e) => r matches Err(e2) && e2 == e,
                }
            }),
    {
        let mut joy = Joystick::new();
        match joy.read_into_from_buf(buf) {
            Ok(()) => Ok(joy),
            Err(e) => Err(e),
        }
    }
}

/// The view of a joystick slot.
pub open spec fn slot_view(o: Option<Joystick>) -> Option<JoystickView> {
    match o {
        Some(j) => Some(j@),
        None => None,
    }
}

/// How many slots hold a joystick.
pub open spec fn count_present(s: Seq<Option<JoystickView>>) -> nat
    decreases s.len(),
{
    if s.len() == 0 {
        0
    } else {
        count_present(s.drop_last()) + if s.last() is Some {
            1nat
        } else {
            0nat
        }
    }
}

/// The six joystick slots of a driver station.
#[derive(Clone, Copy, Debug)]
pub struct Joysticks {
    data: [Option<Joystick>; 6],
}

impl View for Joysticks {
    type V = Seq<Option<JoystickView>>;

    closed spec fn view(&self) -> Seq<Option<JoystickView>> {
        self.data@.map_values(|o: Option<Joystick>| slot_view(o))
    }
}

/// One slot on the wire: its length, the tag 12, and the joystick, an empty
/// one for an empty slot.
pub open spec fn joystick_block(o: Option<JoystickView>) -> Seq<u8> {
    let w = joystick_wire(
        match o {
            Some(j) => j,
            None => empty_joystick(),
        },
    );
    seq![(1 + w.len()) as u8, 12u8] + w
}

/// The blocks of the first `k` slots.
pub open spec fn joysticks_wire(s: Seq<Option<JoystickView>>, k: nat) -> Seq<u8>
    decreases k,
{
    if k == 0 {
        Seq::empty()
    } else {
        joysticks_wire(s, (k - 1) as nat) + joystick_block(s[k - 1])
    }
}

/// The blocks of the first `k` slots start the blocks of the first `m`.
pub proof fn lemma_joysticks_wire_prefix(s: Seq<Option<JoystickView>>, k: nat, m: nat)
    requires
        k <= m,
    ensures
        joysticks_wire(s, k).len() <= joysticks_wire(s, m).len(),
        joysticks_wire(s, m).take(joysticks_wire(s, k).len() as int) == joysticks_wire(s, k),
    decreases m,
{
    if k < m {
        lemma_joysticks_wire_prefix(s, k, (m - 1) as nat);
        let a = joysticks_wire(s, (m - 1) as nat);
        assert((a + joystick_block(s[m - 1])).take(joysticks_wire(s, k).len() as int) =~= a.take(
            joysticks_wire(s, k).len() as int,
        ));
    } else {
        assert(joysticks_wire(s, m).take(joysticks_wire(s, m).len() as int) =~= joysticks_wire(
            s,
            m,
        ));
    }
}

impl Joysticks {
    pub proof fn lemma_len(&self)
        ensures
            self@.len() == 6,
    {
    }

    /// Puts a joystick in slot `index`, one of the 6.
    pub fn insert(&mut self, index: usize, joystick: Joystick)
        requires
            index < 6,
        ensures
            final(self)@ == old(self)@.update(index as int, Some(joystick@)),
    {
        self.data[index] = Some(joystick);
        proof {
            assert(self@ =~= old(self)@.update(index as int, Some(joystick@)));
        }
    }

    /// Takes the joystick out of slot `index`, if it is a slot and holds one.
    pub fn remove(&mut self, index: usize) -> (r: Option<Joystick>)
        ensures
            index < 6 ==> slot_view(r) == old(self)@[index as int] && final(self)@ == old(
                self,
            )@.update(index as int, None),
            index >= 6 ==> r is None && final(self)@ == old(self)@,
    {
        if index < 6 {
            let r = self.data[index];
            self.data[index] = None;
            proof {
                assert(self@ =~= old(self)@.update(index as int, None));
            }
            r
        } else {
            None
        }
    }

    /// How many slots hold a joystick.
    pub fn count(&self) -> (r: usize)
        ensures
            r == count_present(self@),
    {
        let mut n: usize = 0;
        let mut i: usize = 0;
        while i < 6
            invariant
                i <= 6,
                n <= i,
                n == count_present(self@.take(i as int)),
            decreases 6 - i,
        {
            proof {
                assert(self@.take(i + 1).drop_last() =~= self@.take(i as int));
            }
            if self.data[i].is_some() {
                n = n + 1;
            }
            i = i + 1;
        }
        proof {
            assert(self@.take(6) =~= self@);
        }
        n
    }

    /// The joystick in slot `index`, if it is a slot and holds one.
    pub fn get(&self, index: usize) -> (r: Option<&Joystick>)
        ensures
            r matches Some(j) ==> index < 6 && self@[index as int] == Some(j@),
            r is None ==> index >= 6 || self@[index as int] is None,
    {
        if index < 6 {
            match &self.data[index] {
                Some(j) => Some(j),
                None => None,
            }
        } else {
            None
        }
    }

    /// The joystick in slot `index`, to change in place, if it is a slot and
    /// holds one.
    pub fn get_mut(&mut self, index: usize) -> (r: Option<&mut Joystick>)
        ensures
            index < 6 && old(self)@[index as int] is Some ==> (r matches Some(j) && Some(j@)
                == old(self)@[index as int] && final(self)@ == old(self)@.update(
                index as int,
                Some(final(j)@),
            )),
            !(index < 6 && old(self)@[index as int] is Some) ==> r is None && final(self)@ == old(
                self,
            )@,
    {
        if index < 6 {
            match &mut self.data[index] {
                Some(j) => Some(j),
                None => None,
            }
        } else {
            None
        }
    }

    /// Slot `index` itself, to change in place, if it is a slot.
    pub fn get_o_mut(&mut self, index: usize) -> (r: Option<&mut Option<Joystick>>)
        ensures
            index < 6 ==> (r matches Some(o) && slot_view(*o) == old(self)@[index as int]
                && final(self)@ == old(self)@.update(index as int, slot_view(*final(o)))),
            index >= 6 ==> r is None && final(self)@ == old(self)@,
    {
        if index < 6 {
            Some(&mut self.data[index])
        } else {
            None
        }
    }

    /// Empties slot `i`, one of the 6.
    pub fn delete(&mut self, i: usize)
        requires
            i < 6,
        ensures
            final(self)@ == old(self)@.update(i as int, None),
    {
        self.data[i] = None;
        proof {
            assert(self@ =~= old(self)@.update(i as int, None));
        }
    }
}

impl Default for Joysticks {
    fn default() -> (r: Self)
        ensures
            r@ == Seq::new(6, |i: int| None::<JoystickView>),
    {
        let r = Joysticks { data: [None, None, None, None, None, None] };
        proof {
            assert(r@ =~= Seq::new(6, |i: int| None::<JoystickView>));
        }
        r
    }
}

/// `cuts` moved on by `s` bytes.
pub open spec fn offset_cuts(cuts: Seq<usize>, s: nat) -> Seq<usize> {
    cuts.map_values(|c: usize| (c + s) as usize)
}

/// The joystick a slot writes: its own, or an empty one.
pub open spec fn slot_joystick(o: Option<JoystickView>) -> JoystickView {
    match o {
        Some(j) => j,
        None => empty_joystick(),
    }
}

/// Where the fields of a [`joystick_block`] starting at `at` end: its length,
/// its tag, then those of the joystick ([`joystick_cuts`]).
pub open spec fn block_cuts(o: Option<JoystickView>, at: nat) -> Seq<usize> {
    seq![(at + 1) as usize, (at + 2) as usize] + offset_cuts(joystick_cuts(slot_joystick(o)), at + 2)
}

/// Where the fields of the blocks of the first `k` slots end.
pub open spec fn joysticks_cuts(s: Seq<Option<JoystickView>>, k: nat) -> Seq<usize>
    decreases k,
{
    if k == 0 {
        Seq::empty()
    } else {
        joysticks_cuts(s, (k - 1) as nat) + block_cuts(s[k - 1], joysticks_wire(s, (k - 1) as nat).len())
    }
}

/// Appends the bytes of `j` ([`joystick_wire`]) to `v`, noting where each of
/// its fields ends ([`joystick_cuts`]).
fn joystick_pieces(j: &Joystick, v: &mut Vec<u8>, cuts: &mut Vec<usize>)
    requires
        cuts_ok(old(cuts)@, old(v)@.len()),
        old(v)@.len() + 64 <= usize::MAX,
    ensures
        final(v)@ == old(v)@ + joystick_wire(j@),
        final(cuts)@ == old(cuts)@ + offset_cuts(joystick_cuts(j@), old(v)@.len()),
        cuts_ok(final(cuts)@, final(v)@.len()),
        final(cuts)@.len() > 0 && final(cuts)@.last() == final(v)@.len(),
{
    proof {
        use_type_invariant(j);
        j.lemma_bounds();
        lemma_wire_layout(j@);
        lemma_joystick_cuts(j@);
    }
    let ghost v0 = v@;
    let ghost c0 = cuts@;
    let ghost w = joystick_wire(j@);
    let mut tmp = [0u8; 32];
    let mut sw = SliceBufferWritter::new(&mut tmp);
    let _ = j.write_to_buf(&mut sw);
    let bytes = sw.curr_buf();
    let m: usize = bytes.len() - 4;
    let mut k: usize = 0;
    while k < m
        invariant
            bytes@ == w,
            w.len() == m + 4,
            k <= m,
            v@ == v0 + w.take(k as int),
            cuts@ == c0 + Seq::new(k as nat, |t: int| (v0.len() + t + 1) as usize),
            cuts_ok(cuts@, v@.len()),
            v0.len() + 64 <= usize::MAX,
        decreases m - k,
    {
        v.push(bytes[k]);
        cut(cuts, v);
        proof {
            assert(w.take(k + 1) =~= w.take(k as int).push(w[k as int]));
            assert(cuts@ =~= c0 + Seq::new((k + 1) as nat, |t: int| (v0.len() + t + 1) as usize));
        }
        k = k + 1;
    }
    v.push(bytes[m]);
    v.push(bytes[m + 1]);
    cut(cuts, v);
    v.push(bytes[m + 2]);
    v.push(bytes[m + 3]);
    cut(cuts, v);
    assert(cuts@.last() == v@.len());
    proof {
        assert(v@ =~= v0 + w);
        assert(cuts@ =~= c0 + offset_cuts(joystick_cuts(j@), v0.len()));
    }
}

impl WriteToBuff for Joysticks {
    type Error = BufferWritterError;

    /// Writes the six slots in order as [`joystick_block`]s, field by field
    /// ([`joysticks_cuts`]).
    fn write_to_buf<T: BufferWritter>(&self, buf: &mut T) -> (r: Result<(), Self::Error>)
        ensures
            wrote_pieces(
                *old(buf),
                *final(buf),
                joysticks_wire(self@, 6),
                joysticks_cuts(self@, 6),
                r,
            ),
    {
        let mut v: Vec<u8> = Vec::new();
        let mut cuts: Vec<usize> = Vec::new();
        proof {
            assert(joysticks_wire(self@, 0) =~= Seq::<u8>::empty());
        }
        let mut k: usize = 0;
        while k < 6
            invariant
                k <= 6,
                self@.len() == 6,
                v@ == joysticks_wire(self@, k as nat),
                cuts@ == joysticks_cuts(self@, k as nat),
                cuts_ok(cuts@, v@.len()),
                v@.len() <= 32 * k,
                k > 0 ==> cuts@.len() > 0 && cuts@.last() == v@.len(),
            decreases 6 - k,
        {
            let joy = match &self.data[k] {
                Some(j) => *j,
                None => Joystick::new(),
            };
            proof {
                use_type_invariant(&joy);
                joy.lemma_bounds();
                lemma_wire_layout(joy@);
            }
            let block_len: u8 = 8 + joy.axis_len() + (joy.buttons_len() + 7) / 8;
            let ghost at = v@.len();
            let ghost w = joystick_wire(joy@);
            proof {
                assert(joy@ == slot_joystick(self@[k as int]));
                assert(joystick_block(self@[k as int]) =~= seq![block_len, 12u8] + w);
            }
            v.push(block_len);
            cut(&mut cuts, &v);
            v.push(12);
            cut(&mut cuts, &v);
            joystick_pieces(&joy, &mut v, &mut cuts);
            proof {
                assert(v@ =~= joysticks_wire(self@, k as nat) + joystick_block(self@[k as int]));
                assert(cuts@ =~= joysticks_cuts(self@, k as nat) + block_cuts(self@[k as int], at));
            }
            k = k + 1;
        }
        proof {
            assert(cuts@.len() > 0 && cuts@.last() == v@.len());
        }
        write_in_pieces(buf, v.as_slice(), cuts.as_slice())
    }
}

} // verus!
