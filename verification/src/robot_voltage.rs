use vstd::prelude::*;

use crate::buffer_reader::{overflow_error, BufferReader, BufferReaderError, CreateFromBuf, ReadFromBuf};
use crate::buffer_writter::{
    be_bytes, lemma_wrote_all_empty, lemma_wrote_all_next, wrote_all, BufferWritter,
    BufferWritterError, WriteToBuff,
};

verus! {

/// A battery voltage as its whole volts and its fraction in 255ths.
#[derive(Debug, Default, Clone, Copy, Hash, PartialEq, Eq, Structural)]
pub struct RobotVoltage {
    pub int: u8,
    pub dec: u8,
}

/// What reading a voltage from `d` at `i` gives: the whole volts, then the
/// fraction; or the error of the first read past the end, and where the
/// cursor ends.
pub open spec fn voltage_read(d: Seq<u8>, i: nat) -> (Result<RobotVoltage, BufferReaderError>, nat) {
    if i + 1 > d.len() {
        (Err(overflow_error(d.len(), i, 1)), i + 1)
    } else if i + 2 > d.len() {
        (Err(overflow_error(d.len(), i + 1, 1)), i + 2)
    } else {
        (Ok(RobotVoltage { int: d[i as int], dec: d[i as int + 1] }), i + 2)
    }
}

impl<'a> ReadFromBuf<'a> for RobotVoltage {
    type Error = BufferReaderError;

    fn read_into_from_buf(&mut self, buf: &mut BufferReader<'a>) -> (r: Result<(), Self::Error>)
        ensures
            final(buf).spec_buf() == old(buf).spec_buf(),
            final(buf).spec_buf_ref() == old(buf).spec_buf_ref(),
            ({
                let (res, end) = voltage_read(old(buf).spec_buf(), old(buf).spec_index());
                &&& final(buf).spec_index() == end
                &&& match res {
                    Ok(v) => r is Ok && *final(self) == v,
                    Err(e) => r == Err::<(), BufferReaderError>(e) && final(self).dec == old(
                        self,
                    ).dec && final(self).int == (if old(buf).can_read(1) {
                        old(buf).spec_buf()[old(buf).spec_index() as int]
                    } else {
                        old(self).int
                    }),
                }
            }),
    {
        self.int = match buf.read_u8() {
            Ok(v) => v,
            Err(e) => {
                return Err(e);
            },
        };
        self.dec = match buf.read_u8() {
            Ok(v) => v,
            Err(e) => {
                return Err(e);
            },
        };
        Ok(())
    }
}

impl<'a> CreateFromBuf<'a> for RobotVoltage {
    fn create_from_buf(buf: &mut BufferReader<'a>) -> (r: Result<Self, Self::Error>)
        ensures
            final(buf).spec_buf() == old(buf).spec_buf(),
            final(buf).spec_buf_ref() == old(buf).spec_buf_ref(),
            ({
                let (res, end) = voltage_read(old(buf).spec_buf(), old(buf).spec_index());
                &&& final(buf).spec_index() == end
                &&& r == res
            }),
    {
        let whole = match buf.read_u8() {
            Ok(v) => v,
            Err(e) => {
                return Err(e);
            },
        };
        let dec = match buf.read_u8() {
            Ok(v) => v,
            Err(e) => {
                return Err(e);
            },
        };
        Ok(RobotVoltage { int: whole, dec })
    }
}

impl WriteToBuff for RobotVoltage {
    type Error = BufferWritterError;

    /// Writes the fraction byte first and then the whole volts: the reverse of
    /// the order the reads take.
    fn write_to_buf<T: BufferWritter>(&self, buf: &mut T) -> (r: Result<(), Self::Error>)
        ensures
            wrote_all(*old(buf), *final(buf), seq![self.dec, self.int], r),
    {
        let ghost total = seq![self.dec, self.int];
        let ghost before = *buf;
        proof {
            assert(total.take(0) =~= Seq::<u8>::empty());
            lemma_wrote_all_empty(before);
            reveal_with_fuel(be_bytes, 2);
        }
        let ghost mid = *buf;
        let res = buf.write_u8(self.dec);
        proof {
            assert(total.subrange(0, 1) =~= be_bytes(self.dec as nat, 1));
            lemma_wrote_all_next(before, mid, *buf, total, 0, 1, res);
        }
        if res.is_err() {
            return res;
        }
        let ghost mid = *buf;
        let res = buf.write_u8(self.int);
        proof {
            assert(total.subrange(1, 2) =~= be_bytes(self.int as nat, 1));
            lemma_wrote_all_next(before, mid, *buf, total, 1, 1, res);
            assert(total.take(2) =~= total);
        }
        res
    }
}

} // verus!
