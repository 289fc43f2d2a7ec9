use vstd::prelude::*;
use vstd::utf8::*;

verus! {

/// The value of a byte sequence read as a big-endian unsigned integer.
pub open spec fn be_value(s: Seq<u8>) -> nat
    decreases s.len(),
{
    if s.len() == 0 {
        0
    } else {
        be_value(s.drop_last()) * 256 + s.last() as nat
    }
}

#[verifier::external_type_specification]
#[verifier::external_body]
pub struct ExUtf8Error(core::str::Utf8Error);

/// Calls `core::str::from_utf8`. Its documentation promises `Ok` exactly when the
/// bytes are valid UTF-8, and then the string whose bytes are the input; the
/// contract says so over vstd's `valid_utf8` and `decode_utf8`.
#[verifier::external_body]
fn str_from_utf8<'b>(v: &'b [u8]) -> (r: Result<&'b str, core::str::Utf8Error>)
    ensures
        match r {
            Ok(s) => valid_utf8(v@) && s@ == decode_utf8(v@),
            Err(_) => !valid_utf8(v@),
        },
{
    core::str::from_utf8(v)
}

/// A type that can be read out of a [`BufferReader`].
pub trait ReadFromBuff<'a>: Sized {
    type Error;

    fn read_from_buff(buf: &mut BufferReader<'a>) -> Result<Self, Self::Error>
        requires
            old(buf).headroom(),
    ;
}

/// A value that can be filled in from a [`BufferReader`].
pub trait ReadFromBuf<'a> {
    type Error;

    fn read_into_from_buf(&mut self, buf: &mut BufferReader<'a>) -> Result<(), Self::Error>
        requires
            old(buf).headroom(),
    ;
}

/// A value that can be made from what a [`BufferReader`] holds.
pub trait CreateFromBuf<'a>: ReadFromBuf<'a> + Sized {
    fn create_from_buf(buf: &mut BufferReader<'a>) -> Result<Self, Self::Error>
        requires
            old(buf).headroom(),
    ;
}

#[derive(Debug)]
pub enum BufferReaderError {
    BufferReadOverflow { actual_buffer_length: usize, tried_index: usize },
    ParseUft8Error(core::str::Utf8Error),
    /// The reader was expected to be exhausted but still holds `remaining` bytes.
    UnreadData { remaining: usize },
}

impl<'a> ReadFromBuff<'a> for &'a [u8] {
    type Error = BufferReaderError;

    fn read_from_buff(buf: &mut BufferReader<'a>) -> (r: Result<Self, Self::Error>)
        ensures
            r == Ok::<&'a [u8], BufferReaderError>(old(buf).spec_buf_ref()),
            *final(buf) == *old(buf),
    {
        Ok(buf.raw_buff())
    }
}

/// The first of a run of reads of the widths `ws`, starting at `p` in a buffer
/// of `n` bytes, that goes past the end: its position and width.
pub open spec fn reads_fail(n: nat, p: nat, ws: Seq<nat>) -> Option<(nat, nat)>
    decreases ws.len(),
{
    if ws.len() == 0 {
        None
    } else if p + ws[0] > n {
        Some((p, ws[0]))
    } else {
        reads_fail(n, p + ws[0], ws.skip(1))
    }
}

/// The total width of a run of reads.
pub open spec fn widths_sum(ws: Seq<nat>) -> nat
    decreases ws.len(),
{
    if ws.len() == 0 {
        0
    } else {
        ws[0] + widths_sum(ws.skip(1))
    }
}

/// A cursor over a borrowed byte buffer. Reads move the cursor forward even when
/// they fail, so a failed read leaves the cursor past the end of the buffer.
#[derive(Clone, Copy)]
pub struct BufferReader<'a> {
    buff: &'a [u8],
    index: usize,
}

/// The error a read of `amount` bytes at `index` reports on a buffer of `len` bytes.
pub open spec fn overflow_error(len: nat, index: nat, amount: nat) -> BufferReaderError {
    BufferReaderError::BufferReadOverflow {
        actual_buffer_length: len as usize,
        tried_index: (index + amount - 1) as usize,
    }
}

impl<'a> BufferReader<'a> {
    /// The whole buffer.
    pub closed spec fn spec_buf(&self) -> Seq<u8> {
        self.buff@
    }

    pub closed spec fn spec_buf_ref(&self) -> &'a [u8] {
        self.buff
    }

    /// The cursor: how many bytes have been consumed.
    pub closed spec fn spec_index(&self) -> nat {
        self.index as nat
    }

    /// Whether a read of `amount` bytes fits in what is left.
    pub open spec fn can_read(&self, amount: nat) -> bool {
        self.spec_index() + amount <= self.spec_buf().len()
    }

    /// The `amount` bytes a read would return.
    pub open spec fn next_bytes(&self, amount: nat) -> Seq<u8> {
        self.spec_buf().subrange(self.spec_index() as int, (self.spec_index() + amount) as int)
    }

    /// The state after the cursor moved by `amount`, the buffer unchanged.
    pub open spec fn advanced(&self, other: &Self, amount: nat) -> bool {
        &&& other.spec_buf() == self.spec_buf()
        &&& other.spec_buf_ref() == self.spec_buf_ref()
        &&& other.spec_index() == self.spec_index() + amount
    }

    /// Room for the cursor to move on: a read at most `0x2_0000` bytes past the
    /// cursor, or past the end of the buffer, stays below `usize::MAX`.
    pub open spec fn headroom(&self) -> bool {
        &&& self.spec_index() + 0x2_0000 <= usize::MAX
        &&& self.spec_buf().len() + 0x2_0000 <= usize::MAX
    }

    pub proof fn lemma_len_bound(&self)
        ensures
            self.spec_buf().len() <= usize::MAX,
            self.spec_index() <= usize::MAX,
    {
        assert(self.buff@.len() == vstd::slice::spec_slice_len(self.buff));
    }

    pub fn new(buff: &'a [u8]) -> (r: Self)
        ensures
            r.spec_buf() == buff@,
            r.spec_buf_ref() == buff,
            r.spec_index() == 0,
    {
        Self { buff, index: 0 }
    }

    pub fn raw_buff(&self) -> (r: &'a [u8])
        ensures
            r == self.spec_buf_ref(),
            r@ == self.spec_buf(),
    {
        self.buff
    }

    pub fn total_packet_size(&self) -> (r: usize)
        ensures
            r == self.spec_buf().len(),
    {
        self.buff.len()
    }

    pub fn remaining_packet_data(&self) -> (r: usize)
        requires
            self.spec_index() <= self.spec_buf().len(),
        ensures
            r == self.spec_buf().len() - self.spec_index(),
    {
        self.buff.len() - self.index
    }

    /// Reads a buffer of length `amount`, returning an error if the read goes
    /// past the end of the buffer. The cursor moves by `amount` either way.
    pub fn read_amount(&mut self, amount: usize) -> (r: Result<&'a [u8], BufferReaderError>)
        requires
            old(self).spec_index() + amount <= usize::MAX,
        ensures
            old(self).advanced(&*final(self), amount as nat),
            match r {
                Ok(s) => old(self).can_read(amount as nat) && s@ == old(self).next_bytes(
                    amount as nat,
                ),
                Err(e) => !old(self).can_read(amount as nat) && e == overflow_error(
                    old(self).spec_buf().len(),
                    old(self).spec_index(),
                    amount as nat,
                ),
            },
    {
        self.index = self.index + amount;
        if self.index > self.buff.len() {
            Err(
                BufferReaderError::BufferReadOverflow {
                    actual_buffer_length: self.buff.len(),
                    tried_index: self.index - 1,
                },
            )
        } else {
            let b: &'a [u8] = self.buff;
            Ok(&b[self.index - amount..self.index])
        }
    }

    /// Reads a buffer of length `amount` without moving the cursor.
    pub fn peek_amount(&mut self, amount: usize) -> (r: Result<&'a [u8], BufferReaderError>)
        requires
            old(self).spec_index() + amount <= usize::MAX,
        ensures
            *final(self) == *old(self),
            match r {
                Ok(s) => old(self).can_read(amount as nat) && s@ == old(self).next_bytes(
                    amount as nat,
                ),
                Err(e) => !old(self).can_read(amount as nat) && e == overflow_error(
                    old(self).spec_buf().len(),
                    old(self).spec_index(),
                    amount as nat,
                ),
            },
    {
        let tmp = self.read_amount(amount);
        self.index = self.index - amount;
        tmp
    }

    /// Reads exactly `AMOUNT` bytes.
    pub fn read_const_amount<const AMOUNT: usize>(&mut self) -> (r: Result<
        &'a [u8],
        BufferReaderError,
    >)
        requires
            old(self).spec_index() + AMOUNT <= usize::MAX,
        ensures
            old(self).advanced(&*final(self), AMOUNT as nat),
            match r {
                Ok(s) => old(self).can_read(AMOUNT as nat) && s@ == old(self).next_bytes(
                    AMOUNT as nat,
                ) && s@.len() == AMOUNT,
                Err(e) => !old(self).can_read(AMOUNT as nat) && e == overflow_error(
                    old(self).spec_buf().len(),
                    old(self).spec_index(),
                    AMOUNT as nat,
                ),
            },
    {
        self.read_amount(AMOUNT)
    }

    pub fn peek_u8(&mut self) -> (r: Result<u8, BufferReaderError>)
        requires
            old(self).spec_index() + 1 <= usize::MAX,
        ensures
            *final(self) == *old(self),
            match r {
                Ok(v) => old(self).can_read(1) && v == old(self).spec_buf()[old(
                    self,
                ).spec_index() as int],
                Err(e) => !old(self).can_read(1) && e == overflow_error(
                    old(self).spec_buf().len(),
                    old(self).spec_index(),
                    1,
                ),
            },
    {
        let buf = self.peek_amount(1)?;
        Ok(buf[0])
    }

    pub fn read_u8(&mut self) -> (r: Result<u8, BufferReaderError>)
        requires
            old(self).spec_index() + 1 <= usize::MAX,
        ensures
            old(self).advanced(&*final(self), 1),
            match r {
                Ok(v) => old(self).can_read(1) && v == old(self).spec_buf()[old(
                    self,
                ).spec_index() as int],
                Err(e) => !old(self).can_read(1) && e == overflow_error(
                    old(self).spec_buf().len(),
                    old(self).spec_index(),
                    1,
                ),
            },
    {
        let buf = self.read_amount(1)?;
        Ok(buf[0])
    }

    pub fn read_u16(&mut self) -> (r: Result<u16, BufferReaderError>)
        requires
            old(self).spec_index() + 2 <= usize::MAX,
        ensures
            old(self).advanced(&*final(self), 2),
            match r {
                Ok(v) => old(self).can_read(2) && v == be_value(old(self).next_bytes(2)),
                Err(e) => !old(self).can_read(2) && e == overflow_error(
                    old(self).spec_buf().len(),
                    old(self).spec_index(),
                    2,
                ),
            },
    {
        let buf = self.read_amount(2)?;
        proof {
            reveal_with_fuel(be_value, 3);
        }
        Ok(buf[0] as u16 * 256 + buf[1] as u16)
    }

    pub fn read_u24(&mut self) -> (r: Result<u32, BufferReaderError>)
        requires
            old(self).spec_index() + 3 <= usize::MAX,
        ensures
            old(self).advanced(&*final(self), 3),
            match r {
                Ok(v) => old(self).can_read(3) && v == be_value(old(self).next_bytes(3)),
                Err(e) => !old(self).can_read(3) && e == overflow_error(
                    old(self).spec_buf().len(),
                    old(self).spec_index(),
                    3,
                ),
            },
    {
        let buf = self.read_amount(3)?;
        proof {
            reveal_with_fuel(be_value, 4);
        }
        Ok(buf[0] as u32 * 0x1_0000 + buf[1] as u32 * 0x100 + buf[2] as u32)
    }

    pub fn read_u32(&mut self) -> (r: Result<u32, BufferReaderError>)
        requires
            old(self).spec_index() + 4 <= usize::MAX,
        ensures
            old(self).advanced(&*final(self), 4),
            match r {
                Ok(v) => old(self).can_read(4) && v == be_value(old(self).next_bytes(4)),
                Err(e) => !old(self).can_read(4) && e == overflow_error(
                    old(self).spec_buf().len(),
                    old(self).spec_index(),
                    4,
                ),
            },
    {
        let buf = self.read_amount(4)?;
        proof {
            reveal_with_fuel(be_value, 5);
        }
        Ok(buf[0] as u32 * 0x100_0000 + buf[1] as u32 * 0x1_0000 + buf[2] as u32 * 0x100
            + buf[3] as u32)
    }

    pub fn read_u64(&mut self) -> (r: Result<u64, BufferReaderError>)
        requires
            old(self).spec_index() + 8 <= usize::MAX,
        ensures
            old(self).advanced(&*final(self), 8),
            match r {
                Ok(v) => old(self).can_read(8) && v == be_value(old(self).next_bytes(8)),
                Err(e) => !old(self).can_read(8) && e == overflow_error(
                    old(self).spec_buf().len(),
                    old(self).spec_index(),
                    8,
                ),
            },
    {
        let buf = self.read_amount(8)?;
        proof {
            reveal_with_fuel(be_value, 9);
        }
        Ok(buf[0] as u64 * 0x100_0000_0000_0000 + buf[1] as u64 * 0x1_0000_0000_0000
            + buf[2] as u64 * 0x100_0000_0000 + buf[3] as u64 * 0x1_0000_0000 + buf[4] as u64
            * 0x100_0000 + buf[5] as u64 * 0x1_0000 + buf[6] as u64 * 0x100 + buf[7] as u64)
    }

    pub fn skip(&mut self, amount: usize)
        requires
            old(self).spec_index() + amount <= usize::MAX,
        ensures
            old(self).advanced(&*final(self), amount as nat),
    {
        self.index = self.index + amount;
    }

    /// Reads a one-byte length and then that many bytes, so the slice has a
    /// length in \[0, 255\]. Fails if the buffer is empty or not long enough for
    /// the length read.
    pub fn read_short_u8_arr(&mut self) -> (r: Result<&'a [u8], BufferReaderError>)
        requires
            old(self).spec_index() + 256 <= usize::MAX,
        ensures
            old(self).spec_buf() == final(self).spec_buf(),
            old(self).spec_buf_ref() == final(self).spec_buf_ref(),
            !old(self).can_read(1) ==> r == Err::<&'a [u8], BufferReaderError>(
                overflow_error(old(self).spec_buf().len(), old(self).spec_index(), 1),
            ) && final(self).spec_index() == old(self).spec_index() + 1,
            old(self).can_read(1) ==> ({
                let n = old(self).spec_buf()[old(self).spec_index() as int] as nat;
                let start = old(self).spec_index() + 1;
                &&& final(self).spec_index() == start + n
                &&& start + n <= old(self).spec_buf().len() ==> (r matches Ok(s) && s@
                    == old(self).spec_buf().subrange(start as int, (start + n) as int))
                &&& start + n > old(self).spec_buf().len() ==> r == Err::<
                    &'a [u8],
                    BufferReaderError,
                >(overflow_error(old(self).spec_buf().len(), start, n))
            }),
    {
        let len = self.read_u8()?;
        self.read_amount(len as usize)
    }

    /// Reads a string of length \[0, 255\] (in bytes, not chars) preceded by its
    /// one-byte length. Fails if the string is not valid UTF-8, or if the buffer
    /// is empty or not long enough for the length read.
    pub fn read_short_str(&mut self) -> (r: Result<&'a str, BufferReaderError>)
        requires
            old(self).spec_index() + 256 <= usize::MAX,
        ensures
            old(self).spec_buf() == final(self).spec_buf(),
            old(self).spec_buf_ref() == final(self).spec_buf_ref(),
            !old(self).can_read(1) ==> r == Err::<&'a str, BufferReaderError>(
                overflow_error(old(self).spec_buf().len(), old(self).spec_index(), 1),
            ) && final(self).spec_index() == old(self).spec_index() + 1,
            old(self).can_read(1) ==> ({
                let n = old(self).spec_buf()[old(self).spec_index() as int] as nat;
                let start = old(self).spec_index() + 1;
                let bytes = old(self).spec_buf().subrange(start as int, (start + n) as int);
                &&& final(self).spec_index() == start + n
                &&& start + n > old(self).spec_buf().len() ==> r == Err::<
                    &'a str,
                    BufferReaderError,
                >(overflow_error(old(self).spec_buf().len(), start, n))
                &&& start + n <= old(self).spec_buf().len() && valid_utf8(bytes) ==> (r matches Ok(
                    s,
                ) && s@ == decode_utf8(bytes))
                &&& start + n <= old(self).spec_buf().len() && !valid_utf8(bytes) ==> r matches Err(
                    BufferReaderError::ParseUft8Error(_),
                )
            }),
    {
        let bytes = self.read_short_u8_arr()?;
        match str_from_utf8(bytes) {
            Ok(s) => Ok(s),
            Err(e) => Err(BufferReaderError::ParseUft8Error(e)),
        }
    }

    /// Reads `length` bytes as a UTF-8 string.
    pub fn read_str(&mut self, length: usize) -> (r: Result<&'a str, BufferReaderError>)
        requires
            old(self).spec_index() + length <= usize::MAX,
        ensures
            old(self).advanced(&*final(self), length as nat),
            !old(self).can_read(length as nat) ==> r == Err::<&'a str, BufferReaderError>(
                overflow_error(old(self).spec_buf().len(), old(self).spec_index(), length as nat),
            ),
            old(self).can_read(length as nat) && valid_utf8(old(self).next_bytes(length as nat))
                ==> (r matches Ok(s) && s@ == decode_utf8(old(self).next_bytes(length as nat))),
            old(self).can_read(length as nat) && !valid_utf8(old(self).next_bytes(length as nat))
                ==> r matches Err(BufferReaderError::ParseUft8Error(_)),
    {
        let bytes = self.read_amount(length)?;
        match str_from_utf8(bytes) {
            Ok(s) => Ok(s),
            Err(e) => Err(BufferReaderError::ParseUft8Error(e)),
        }
    }

    /// Reads a two-byte length and returns a reader over the that many bytes
    /// that follow it.
    pub fn read_known_length_u16(&mut self) -> (r: Result<Self, BufferReaderError>)
        requires
            old(self).spec_index() + 2 + 0x1_0000 <= usize::MAX,
        ensures
            old(self).spec_buf() == final(self).spec_buf(),
            old(self).spec_buf_ref() == final(self).spec_buf_ref(),
            !old(self).can_read(2) ==> r == Err::<Self, BufferReaderError>(
                overflow_error(old(self).spec_buf().len(), old(self).spec_index(), 2),
            ) && final(self).spec_index() == old(self).spec_index() + 2,
            old(self).can_read(2) ==> ({
                let n = be_value(old(self).next_bytes(2));
                let start = old(self).spec_index() + 2;
                &&& final(self).spec_index() == start + n
                &&& start + n <= old(self).spec_buf().len() ==> (r matches Ok(sub) && sub.spec_buf()
                    == old(self).spec_buf().subrange(start as int, (start + n) as int)
                    && sub.spec_index() == 0)
                &&& start + n > old(self).spec_buf().len() ==> r == Err::<
                    Self,
                    BufferReaderError,
                >(overflow_error(old(self).spec_buf().len(), start, n))
            }),
    {
        let size = self.read_u16()? as usize;
        let buf = self.read_amount(size)?;
        Ok(Self::new(buf))
    }

    /// Reads a one-byte length and returns a reader over that many bytes that
    /// follow it.
    pub fn read_known_length_u8(&mut self) -> (r: Result<Self, BufferReaderError>)
        requires
            old(self).spec_index() + 256 <= usize::MAX,
        ensures
            old(self).spec_buf() == final(self).spec_buf(),
            old(self).spec_buf_ref() == final(self).spec_buf_ref(),
            !old(self).can_read(1) ==> r == Err::<Self, BufferReaderError>(
                overflow_error(old(self).spec_buf().len(), old(self).spec_index(), 1),
            ) && final(self).spec_index() == old(self).spec_index() + 1,
            old(self).can_read(1) ==> ({
                let n = old(self).spec_buf()[old(self).spec_index() as int] as nat;
                let start = old(self).spec_index() + 1;
                &&& final(self).spec_index() == start + n
                &&& start + n <= old(self).spec_buf().len() ==> (r matches Ok(sub) && sub.spec_buf()
                    == old(self).spec_buf().subrange(start as int, (start + n) as int)
                    && sub.spec_index() == 0)
                &&& start + n > old(self).spec_buf().len() ==> r == Err::<
                    Self,
                    BufferReaderError,
                >(overflow_error(old(self).spec_buf().len(), start, n))
            }),
    {
        let buf = self.read_short_u8_arr()?;
        Ok(Self::new(buf))
    }

    pub fn has_more(&self) -> (r: bool)
        requires
            self.spec_index() <= self.spec_buf().len(),
        ensures
            r == (self.spec_index() < self.spec_buf().len()),
    {
        self.remaining_packet_data() != 0
    }

    /// Fails when bytes are left to be read.
    pub fn assert_empty(&self) -> (r: Result<(), BufferReaderError>)
        requires
            self.spec_index() <= self.spec_buf().len(),
        ensures
            r is Ok <==> self.spec_index() == self.spec_buf().len(),
            r is Err ==> r == Err::<(), BufferReaderError>(
                BufferReaderError::UnreadData {
                    remaining: (self.spec_buf().len() - self.spec_index()) as usize,
                },
            ),
    {
        let remaining = self.remaining_packet_data();
        if remaining != 0 {
            Err(BufferReaderError::UnreadData { remaining })
        } else {
            Ok(())
        }
    }
}

} // verus!
