use vstd::prelude::*;

use crate::buffer_reader::be_value;
use vstd::string::StringSliceAdditionalSpecFns;

verus! {

/// The `n` low bytes of `v`, most significant first.
pub open spec fn be_bytes(v: nat, n: nat) -> Seq<u8>
    decreases n,
{
    if n == 0 {
        Seq::empty()
    } else {
        be_bytes(v / 256, (n - 1) as nat).push((v % 256) as u8)
    }
}

/// A type that can be written into a [`BufferWritter`].
pub trait WriteToBuff {
    type Error;

    fn write_to_buf<T: BufferWritter>(&self, buf: &mut T) -> Result<(), Self::Error>;
}

#[derive(Debug)]
pub enum BufferWritterError {
    BufferTooSmall,
    FailedToGrowBuffer,
    SizeValueOverflow,
    InvalidData(&'static str),
}

/// What a write of `bytes` does to a writer: it succeeds exactly when the bytes
/// fit in the room left, appends them and uses up that much room; otherwise it
/// reports the writer's error for that size and the written bytes stay as they
/// were.
pub open spec fn wrote<W: BufferWritter>(
    before: W,
    after: W,
    bytes: Seq<u8>,
    r: Result<(), BufferWritterError>,
) -> bool {
    if bytes.len() <= before.spec_room() {
        &&& r is Ok
        &&& after.spec_written() == before.spec_written() + bytes
        &&& after.spec_room() == before.spec_room() - bytes.len()
        &&& forall|n: nat| #[trigger]
            after.spec_full_error(n) == before.spec_full_error(n + bytes.len())
    } else {
        &&& r == Err::<(), BufferWritterError>(before.spec_full_error(bytes.len()))
        &&& after.spec_written() == before.spec_written()
    }
}

/// What a reservation of `size` bytes does: like [`wrote`], but the reserved bytes
/// keep whatever the writer held there.
pub open spec fn reserved<W: BufferWritter>(
    before: W,
    after: W,
    size: nat,
    r: Result<(), BufferWritterError>,
) -> bool {
    if size <= before.spec_room() {
        &&& r is Ok
        &&& after.spec_written().len() == before.spec_written().len() + size
        &&& after.spec_written().subrange(0, before.spec_written().len() as int)
            == before.spec_written()
        &&& after.spec_room() == before.spec_room() - size
        &&& forall|n: nat| #[trigger] after.spec_full_error(n) == before.spec_full_error(n + size)
    } else {
        &&& r == Err::<(), BufferWritterError>(before.spec_full_error(size))
        &&& after.spec_written() == before.spec_written()
    }
}

/// What a run of writes of the bytes `total` does when it stops at the first
/// write that fails: all of `total` is appended when it fits in the room left;
/// otherwise only a proper prefix `total.take(p)` was appended, and the error
/// is the writer's error for a write that would have ended at `q`, past the
/// room, where the failing write ended in `total`.
pub open spec fn wrote_all<W: BufferWritter>(
    before: W,
    after: W,
    total: Seq<u8>,
    r: Result<(), BufferWritterError>,
) -> bool {
    if total.len() <= before.spec_room() {
        &&& r is Ok
        &&& after.spec_written() == before.spec_written() + total
        &&& after.spec_room() == before.spec_room() - total.len()
        &&& forall|n: nat| #[trigger]
            after.spec_full_error(n) == before.spec_full_error(n + total.len())
    } else {
        &&& r is Err
        &&& exists|p: int, q: nat|
            #![trigger total.take(p), before.spec_full_error(q)]
            0 <= p < q <= total.len() && q > before.spec_room() && after.spec_written()
                == before.spec_written() + total.take(p) && r == Err::<(), BufferWritterError>(
                before.spec_full_error(q),
            )
    }
}

/// The next write of a run that writes `total`: when the bytes from `pos` on
/// fit, the run has written `pos + n` bytes of `total`; when they do not, the
/// run failed for all of `total`.
pub proof fn lemma_wrote_all_next<W: BufferWritter>(
    before: W,
    mid: W,
    after: W,
    total: Seq<u8>,
    pos: nat,
    n: nat,
    r: Result<(), BufferWritterError>,
)
    requires
        pos + n <= total.len(),
        wrote_all(before, mid, total.take(pos as int), Ok(())),
        wrote(mid, after, total.subrange(pos as int, (pos + n) as int), r),
    ensures
        r is Ok ==> wrote_all(before, after, total.take((pos + n) as int), Ok(())),
        r is Err ==> wrote_all(before, after, total, r),
{
    let b = total.subrange(pos as int, (pos + n) as int);
    lemma_wrote_all_one(mid, after, b, r);
    lemma_wrote_all_seq(before, mid, after, total.take(pos as int), b, r);
    assert(total.take(pos as int) + b =~= total.take((pos + n) as int));
    if r is Err {
        lemma_wrote_all_stop(
            before,
            after,
            total.take((pos + n) as int),
            total.skip((pos + n) as int),
            r,
        );
        assert(total.take((pos + n) as int) + total.skip((pos + n) as int) =~= total);
    }
}

/// Writes one piece of a run that writes `total`, the piece being the bytes
/// of `total` from `pos` on.
pub(crate) fn write_piece<T: BufferWritter>(
    buf: &mut T,
    bytes: &[u8],
    Ghost(before): Ghost<T>,
    Ghost(total): Ghost<Seq<u8>>,
    Ghost(pos): Ghost<nat>,
) -> (r: Result<(), BufferWritterError>)
    requires
        pos + bytes@.len() <= total.len(),
        bytes@ == total.subrange(pos as int, (pos + bytes@.len()) as int),
        wrote_all(before, *old(buf), total.take(pos as int), Ok(())),
    ensures
        r is Ok ==> wrote_all(before, *final(buf), total.take((pos + bytes@.len()) as int), Ok(())),
        r is Err ==> wrote_all(before, *final(buf), total, r),
        r is Err ==> final(buf).spec_written() == old(buf).spec_written() && pos + bytes@.len()
            > before.spec_room(),
{
    let ghost mid = *buf;
    let r = buf.write_buf(bytes);
    proof {
        lemma_wrote_all_next(before, mid, *buf, total, pos, bytes@.len(), r);
    }
    r
}

/// Where the pieces of a run of writes end in the bytes they write: in order,
/// none past `n`.
pub open spec fn cuts_ok(cuts: Seq<usize>, n: nat) -> bool {
    &&& forall|i: int, j: int| 0 <= i < j < cuts.len() ==> cuts[i] <= cuts[j]
    &&& forall|i: int| 0 <= i < cuts.len() ==> cuts[i] <= n
}

/// Where the last of the pieces ending at `cuts` that fit in `room` ends: 0
/// when none does.
pub open spec fn fitted_cut(cuts: Seq<usize>, room: nat) -> nat
    decreases cuts.len(),
{
    if cuts.len() == 0 {
        0
    } else if cuts.last() <= room {
        cuts.last() as nat
    } else {
        fitted_cut(cuts.drop_last(), room)
    }
}

/// A run of writes of `total`, one for each piece ending at a cut: as
/// [`wrote_all`], and when `total` does not fit, the pieces that fit in the
/// room left stay written and nothing of the first that does not.
pub open spec fn wrote_pieces<W: BufferWritter>(
    before: W,
    after: W,
    total: Seq<u8>,
    cuts: Seq<usize>,
    r: Result<(), BufferWritterError>,
) -> bool {
    &&& wrote_all(before, after, total, r)
    &&& total.len() > before.spec_room() ==> after.spec_written() == before.spec_written()
        + total.take(fitted_cut(cuts, before.spec_room()) as int)
}

/// With the cuts in order, the piece ending at `cuts[k]` the first past the
/// room, the pieces that fit end where the one before it ends.
proof fn lemma_fitted_cut(cuts: Seq<usize>, n: nat, room: nat, k: int)
    requires
        cuts_ok(cuts, n),
        0 <= k < cuts.len(),
        cuts[k] > room,
        k > 0 ==> cuts[k - 1] <= room,
    ensures
        fitted_cut(cuts, room) == (if k == 0 {
            0
        } else {
            cuts[k - 1] as nat
        }),
    decreases cuts.len(),
{
    let l = cuts.drop_last();
    assert(cuts.last() >= cuts[k]);
    assert(fitted_cut(cuts, room) == fitted_cut(l, room));
    if k < cuts.len() - 1 {
        assert(cuts_ok(l, n));
        assert(l[k] == cuts[k]);
        assert(k > 0 ==> l[k - 1] == cuts[k - 1]);
        lemma_fitted_cut(l, n, room, k);
    } else if k > 0 {
        assert(l.len() > 0 && l.last() == cuts[k - 1]);
        assert(fitted_cut(l, room) == l.last() as nat);
    } else {
        assert(l.len() == 0);
    }
}

/// A write of the piece from `pos` to the cut at index `k` that fails ends a
/// run of writes of `total` in pieces: what was written before it stays.
pub proof fn lemma_piece_failed<W: BufferWritter>(
    before: W,
    mid: W,
    after: W,
    total: Seq<u8>,
    cuts: Seq<usize>,
    pos: nat,
    n: nat,
    k: int,
    r: Result<(), BufferWritterError>,
)
    requires
        pos + n <= total.len(),
        wrote_all(before, mid, total.take(pos as int), Ok(())),
        wrote(mid, after, total.subrange(pos as int, (pos + n) as int), r),
        r is Err,
        cuts_ok(cuts, total.len()),
        0 <= k < cuts.len(),
        cuts[k] == pos + n,
        k > 0 ==> cuts[k - 1] == pos,
        k == 0 ==> pos == 0,
    ensures
        wrote_pieces(before, after, total, cuts, r),
{
    lemma_wrote_all_next(before, mid, after, total, pos, n, r);
    assert(total.take(pos as int).len() == pos);
    lemma_fitted_cut(cuts, total.len(), before.spec_room(), k);
}

/// Writes `bytes` as a run of writes, one for each piece that ends at a cut,
/// stopping at the first that does not fit. The last cut is the end of the
/// bytes.
pub(crate) fn write_in_pieces<T: BufferWritter>(buf: &mut T, bytes: &[u8], cuts: &[usize]) -> (r:
    Result<(), BufferWritterError>)
    requires
        cuts_ok(cuts@, bytes@.len()),
        cuts@.len() > 0 ==> cuts@.last() == bytes@.len(),
        cuts@.len() == 0 ==> bytes@.len() == 0,
    ensures
        wrote_pieces(*old(buf), *final(buf), bytes@, cuts@, r),
{
    let ghost before = *buf;
    proof {
        lemma_wrote_all_empty(before);
        assert(bytes@.take(0) =~= Seq::<u8>::empty());
    }
    let mut prev: usize = 0;
    let mut k: usize = 0;
    while k < cuts.len()
        invariant
            k <= cuts@.len(),
            cuts_ok(cuts@, bytes@.len()),
            cuts@.len() > 0 ==> cuts@.last() == bytes@.len(),
            cuts@.len() == 0 ==> bytes@.len() == 0,
            prev <= bytes@.len(),
            k > 0 ==> prev == cuts@[k - 1],
            k == 0 ==> prev == 0,
            forall|i: int| k <= i < cuts@.len() ==> prev <= #[trigger] cuts@[i],
            wrote_all(before, *buf, bytes@.take(prev as int), Ok(())),
            before == *old(buf),
        decreases cuts@.len() - k,
    {
        let end = cuts[k];
        let piece = vstd::slice::slice_subrange(bytes, prev, end);
        let ghost mid = *buf;
        match write_piece(buf, piece, Ghost(before), Ghost(bytes@), Ghost(prev as nat)) {
            Ok(()) => {},
            Err(e) => {
                proof {
                    assert(bytes@.take(prev as int).len() <= before.spec_room());
                    lemma_fitted_cut(cuts@, bytes@.len(), before.spec_room(), k as int);
                }
                return Err(e);
            },
        }
        prev = end;
        k = k + 1;
    }
    proof {
        assert(bytes@.take(prev as int) =~= bytes@);
    }
    Ok(())
}

/// Appends `b` to `v`.
pub(crate) fn push_all(v: &mut Vec<u8>, b: &[u8])
    ensures
        final(v)@ == old(v)@ + b@,
{
    let mut k: usize = 0;
    while k < b.len()
        invariant
            k <= b@.len(),
            v@ == old(v)@ + b@.take(k as int),
        decreases b@.len() - k,
    {
        v.push(b[k]);
        k = k + 1;
    }
    proof {
        assert(b@.take(b@.len() as int) =~= b@);
    }
}

/// Notes the end of a piece: the bytes written so far.
pub(crate) fn cut(cuts: &mut Vec<usize>, v: &Vec<u8>)
    requires
        cuts_ok(old(cuts)@, v@.len()),
    ensures
        cuts_ok(final(cuts)@, v@.len()),
        final(cuts)@ == old(cuts)@.push(v.len()),
{
    cuts.push(v.len());
}

/// A single write is a run of writes.
pub proof fn lemma_wrote_all_one<W: BufferWritter>(
    before: W,
    after: W,
    bytes: Seq<u8>,
    r: Result<(), BufferWritterError>,
)
    requires
        wrote(before, after, bytes, r),
    ensures
        wrote_all(before, after, bytes, r),
{
    if bytes.len() > before.spec_room() {
        assert(bytes.take(0) =~= Seq::<u8>::empty());
        assert(after.spec_written() == before.spec_written() + bytes.take(0));
        assert(r == Err::<(), BufferWritterError>(before.spec_full_error(bytes.len())));
    }
}

/// Nothing written is a run of writes of nothing.
pub proof fn lemma_wrote_all_empty<W: BufferWritter>(w: W)
    ensures
        wrote_all(w, w, Seq::empty(), Ok(())),
{
    assert(w.spec_written() + Seq::<u8>::empty() =~= w.spec_written());
    assert forall|n: nat| #[trigger] w.spec_full_error(n) == w.spec_full_error(
        n + Seq::<u8>::empty().len(),
    ) by {}
}

/// A run of writes that succeeded followed by another run is one run.
pub proof fn lemma_wrote_all_seq<W: BufferWritter>(
    before: W,
    mid: W,
    after: W,
    a: Seq<u8>,
    b: Seq<u8>,
    r: Result<(), BufferWritterError>,
)
    requires
        wrote_all(before, mid, a, Ok(())),
        wrote_all(mid, after, b, r),
    ensures
        wrote_all(before, after, a + b, r),
{
    if a.len() <= before.spec_room() {
        if b.len() <= mid.spec_room() {
            assert(mid.spec_written() + b == before.spec_written() + (a + b));
            assert forall|n: nat| #[trigger]
                after.spec_full_error(n) == before.spec_full_error(n + (a + b).len()) by {
                assert(mid.spec_full_error(n + b.len()) == before.spec_full_error(
                    n + b.len() + a.len(),
                ));
            }
        } else {
            let (p, q) = choose|p: int, q: nat|
                #![trigger b.take(p), mid.spec_full_error(q)]
                0 <= p < q <= b.len() && q > mid.spec_room() && after.spec_written()
                    == mid.spec_written() + b.take(p) && r == Err::<(), BufferWritterError>(
                    mid.spec_full_error(q),
                );
            assert((a + b).take(a.len() + p) =~= a + b.take(p));
            assert(after.spec_written() == before.spec_written() + (a + b).take(a.len() + p));
            assert(mid.spec_full_error(q) == before.spec_full_error(q + a.len()));
            assert(r == Err::<(), BufferWritterError>(before.spec_full_error((a.len() + q) as nat)));
        }
    }
}

/// A run of writes that failed stays failed whatever would have followed.
pub proof fn lemma_wrote_all_stop<W: BufferWritter>(
    before: W,
    after: W,
    a: Seq<u8>,
    b: Seq<u8>,
    r: Result<(), BufferWritterError>,
)
    requires
        wrote_all(before, after, a, r),
        r is Err,
    ensures
        wrote_all(before, after, a + b, r),
{
    let (p, q) = choose|p: int, q: nat|
        #![trigger a.take(p), before.spec_full_error(q)]
        0 <= p < q <= a.len() && q > before.spec_room() && after.spec_written()
            == before.spec_written() + a.take(p) && r == Err::<(), BufferWritterError>(
            before.spec_full_error(q),
        );
    assert((a + b).take(p) =~= a.take(p));
    assert(after.spec_written() == before.spec_written() + (a + b).take(p));
    assert(r == Err::<(), BufferWritterError>(before.spec_full_error(q)));
}

/// Something bytes can be appended to: a slice with a cursor, or a guard that
/// records how much was written through it.
pub trait BufferWritter: Sized {
    /// The bytes written so far.
    spec fn spec_written(&self) -> Seq<u8>;

    /// How many more bytes can be written.
    spec fn spec_room(&self) -> nat;

    /// The error a write of `n` bytes reports when it does not fit.
    spec fn spec_full_error(&self, n: nat) -> BufferWritterError;

    /// How many bytes were written through this writer: every successful
    /// write adds its size.
    spec fn spec_count(&self) -> nat;

    /// Where the writer's own framing lies in what it holds (for a size guard,
    /// where its length goes and how wide it is); no write moves it.
    spec fn spec_frame(&self) -> (nat, nat);

    fn reset(&mut self)
        ensures
            final(self).spec_frame() == old(self).spec_frame(),
            final(self).spec_written() == Seq::<u8>::empty(),
    ;

    fn curr_buf(&self) -> (r: &[u8])
        ensures
            r@ == self.spec_written(),
    ;

    /// Overwrites one byte already written.
    fn curr_buf_set(&mut self, index: usize, value: u8)
        requires
            index < old(self).spec_written().len(),
        ensures
            final(self).spec_frame() == old(self).spec_frame(),
            final(self).spec_written() == old(self).spec_written().update(index as int, value),
            final(self).spec_room() == old(self).spec_room(),
            final(self).spec_count() == old(self).spec_count(),
            forall|n: nat| #[trigger]
                final(self).spec_full_error(n) == old(self).spec_full_error(n),
    ;

    /// Reserves `size` bytes at the end of what was written.
    fn write(&mut self, size: usize) -> (r: Result<(), BufferWritterError>)
        ensures
            final(self).spec_frame() == old(self).spec_frame(),
            if size <= old(self).spec_room() {
                &&& r is Ok
                &&& final(self).spec_written().len() == old(self).spec_written().len() + size
                &&& final(self).spec_written().subrange(0, old(self).spec_written().len() as int)
                    == old(self).spec_written()
                &&& final(self).spec_room() == old(self).spec_room() - size
                &&& final(self).spec_count() == old(self).spec_count() + size
                &&& forall|n: nat| #[trigger]
                    final(self).spec_full_error(n) == old(self).spec_full_error(n + size as nat)
            } else {
                &&& r == Err::<(), BufferWritterError>(old(self).spec_full_error(size as nat))
                &&& final(self).spec_written() == old(self).spec_written()
            },
    ;

    fn curr_buf_len(&self) -> (r: usize)
        ensures
            r == self.spec_written().len(),
    {
        self.curr_buf().len()
    }

    fn write_buf(&mut self, data: &[u8]) -> (r: Result<(), BufferWritterError>)
        ensures
            final(self).spec_frame() == old(self).spec_frame(),
            if (data@).len() <= old(self).spec_room() {
                &&& r is Ok
                &&& final(self).spec_written() == old(self).spec_written() + (data@)
                &&& final(self).spec_room() == old(self).spec_room() - (data@).len()
                &&& final(self).spec_count() == old(self).spec_count() + (data@).len()
                &&& forall|n: nat| #[trigger]
                    final(self).spec_full_error(n) == old(self).spec_full_error(n + (data@).len())
            } else {
                &&& r == Err::<(), BufferWritterError>(old(self).spec_full_error((data@).len()))
                &&& final(self).spec_written() == old(self).spec_written()
            },
    {
        let start = self.curr_buf_len();
        let ghost before = *self;
        self.write(data.len())?;
        let total = self.curr_buf_len();
        let mut i: usize = 0;
        while i < data.len()
            invariant
                i <= data@.len(),
                start == before.spec_written().len(),
                total == start + data@.len(),
                data@.len() <= before.spec_room(),
                self.spec_written().len() == start + data@.len(),
                self.spec_written().subrange(0, start as int) == before.spec_written(),
                forall|k: int| 0 <= k < i ==> self.spec_written()[start + k] == data@[k],
                self.spec_room() == before.spec_room() - data@.len(),
                self.spec_count() == before.spec_count() + data@.len(),
                self.spec_frame() == before.spec_frame(),
                forall|n: nat| #[trigger]
                    self.spec_full_error(n) == before.spec_full_error(n + data@.len()),
            decreases data@.len() - i,
        {
            let ghost prev = *self;
            self.curr_buf_set(start + i, data[i]);
            proof {
                assert forall|n: nat| #[trigger]
                    self.spec_full_error(n) == before.spec_full_error(n + data@.len()) by {
                    assert(prev.spec_full_error(n) == before.spec_full_error(n + data@.len()));
                }
                assert(self.spec_written().subrange(0, start as int) =~= before.spec_written());
            }
            i += 1;
        }
        proof {
            assert(self.spec_written() =~= before.spec_written() + data@);
        }
        Ok(())
    }

    fn write_u8(&mut self, data: u8) -> (r: Result<(), BufferWritterError>)
        ensures
            final(self).spec_frame() == old(self).spec_frame(),
            if (be_bytes(data as nat,1)).len() <= old(self).spec_room() {
                &&& r is Ok
                &&& final(self).spec_written() == old(self).spec_written() + (be_bytes(data as nat,1))
                &&& final(self).spec_room() == old(self).spec_room() - (be_bytes(data as nat,1)).len()
                &&& final(self).spec_count() == old(self).spec_count() + (be_bytes(data as nat,1)).len()
                &&& forall|n: nat| #[trigger]
                    final(self).spec_full_error(n) == old(self).spec_full_error(n + (be_bytes(data as nat,1)).len())
            } else {
                &&& r == Err::<(), BufferWritterError>(old(self).spec_full_error((be_bytes(data as nat,1)).len()))
                &&& final(self).spec_written() == old(self).spec_written()
            },
    {
        let buf = [data];
        proof {
            reveal_with_fuel(be_bytes, 2);
            assert(buf@ =~= be_bytes(data as nat, 1));
        }
        self.write_buf(buf.as_slice())
    }

    fn write_u16(&mut self, data: u16) -> (r: Result<(), BufferWritterError>)
        ensures
            final(self).spec_frame() == old(self).spec_frame(),
            if (be_bytes(data as nat,2)).len() <= old(self).spec_room() {
                &&& r is Ok
                &&& final(self).spec_written() == old(self).spec_written() + (be_bytes(data as nat,2))
                &&& final(self).spec_room() == old(self).spec_room() - (be_bytes(data as nat,2)).len()
                &&& final(self).spec_count() == old(self).spec_count() + (be_bytes(data as nat,2)).len()
                &&& forall|n: nat| #[trigger]
                    final(self).spec_full_error(n) == old(self).spec_full_error(n + (be_bytes(data as nat,2)).len())
            } else {
                &&& r == Err::<(), BufferWritterError>(old(self).spec_full_error((be_bytes(data as nat,2)).len()))
                &&& final(self).spec_written() == old(self).spec_written()
            },
    {
        let buf = [(data / 0x100) as u8, (data % 0x100) as u8];
        proof {
            reveal_with_fuel(be_bytes, 3);
            assert(buf@ =~= be_bytes(data as nat, 2));
        }
        self.write_buf(buf.as_slice())
    }

    fn write_u32(&mut self, data: u32) -> (r: Result<(), BufferWritterError>)
        ensures
            final(self).spec_frame() == old(self).spec_frame(),
            if (be_bytes(data as nat,4)).len() <= old(self).spec_room() {
                &&& r is Ok
                &&& final(self).spec_written() == old(self).spec_written() + (be_bytes(data as nat,4))
                &&& final(self).spec_room() == old(self).spec_room() - (be_bytes(data as nat,4)).len()
                &&& final(self).spec_count() == old(self).spec_count() + (be_bytes(data as nat,4)).len()
                &&& forall|n: nat| #[trigger]
                    final(self).spec_full_error(n) == old(self).spec_full_error(n + (be_bytes(data as nat,4)).len())
            } else {
                &&& r == Err::<(), BufferWritterError>(old(self).spec_full_error((be_bytes(data as nat,4)).len()))
                &&& final(self).spec_written() == old(self).spec_written()
            },
    {
        let buf = be4(data);
        self.write_buf(buf.as_slice())
    }

    fn write_u64(&mut self, data: u64) -> (r: Result<(), BufferWritterError>)
        ensures
            final(self).spec_frame() == old(self).spec_frame(),
            if (be_bytes(data as nat,8)).len() <= old(self).spec_room() {
                &&& r is Ok
                &&& final(self).spec_written() == old(self).spec_written() + (be_bytes(data as nat,8))
                &&& final(self).spec_room() == old(self).spec_room() - (be_bytes(data as nat,8)).len()
                &&& final(self).spec_count() == old(self).spec_count() + (be_bytes(data as nat,8)).len()
                &&& forall|n: nat| #[trigger]
                    final(self).spec_full_error(n) == old(self).spec_full_error(n + (be_bytes(data as nat,8)).len())
            } else {
                &&& r == Err::<(), BufferWritterError>(old(self).spec_full_error((be_bytes(data as nat,8)).len()))
                &&& final(self).spec_written() == old(self).spec_written()
            },
    {
        let hi = be4((data / 0x1_0000_0000) as u32);
        let lo = be4((data % 0x1_0000_0000) as u32);
        let buf = [hi[0], hi[1], hi[2], hi[3], lo[0], lo[1], lo[2], lo[3]];
        proof {
            lemma_be_bytes_split(data as nat, 4, 4);
            assert(pow256(4) == 0x1_0000_0000) by {
                reveal_with_fuel(pow256, 5);
            }
            assert(buf@ =~= be_bytes(data as nat, 8));
        }
        self.write_buf(buf.as_slice())
    }

    fn write_i8(&mut self, data: i8) -> (r: Result<(), BufferWritterError>)
        ensures
            final(self).spec_frame() == old(self).spec_frame(),
            if (be_bytes(data as u8 as nat,1)).len() <= old(self).spec_room() {
                &&& r is Ok
                &&& final(self).spec_written() == old(self).spec_written() + (be_bytes(data as u8 as nat,1))
                &&& final(self).spec_room() == old(self).spec_room() - (be_bytes(data as u8 as nat,1)).len()
                &&& final(self).spec_count() == old(self).spec_count() + (be_bytes(data as u8 as nat,1)).len()
                &&& forall|n: nat| #[trigger]
                    final(self).spec_full_error(n) == old(self).spec_full_error(n + (be_bytes(data as u8 as nat,1)).len())
            } else {
                &&& r == Err::<(), BufferWritterError>(old(self).spec_full_error((be_bytes(data as u8 as nat,1)).len()))
                &&& final(self).spec_written() == old(self).spec_written()
            },
    {
        self.write_u8(data as u8)
    }

    fn write_i16(&mut self, data: i16) -> (r: Result<(), BufferWritterError>)
        ensures
            final(self).spec_frame() == old(self).spec_frame(),
            if (be_bytes(data as u16 as nat,2)).len() <= old(self).spec_room() {
                &&& r is Ok
                &&& final(self).spec_written() == old(self).spec_written() + (be_bytes(data as u16 as nat,2))
                &&& final(self).spec_room() == old(self).spec_room() - (be_bytes(data as u16 as nat,2)).len()
                &&& final(self).spec_count() == old(self).spec_count() + (be_bytes(data as u16 as nat,2)).len()
                &&& forall|n: nat| #[trigger]
                    final(self).spec_full_error(n) == old(self).spec_full_error(n + (be_bytes(data as u16 as nat,2)).len())
            } else {
                &&& r == Err::<(), BufferWritterError>(old(self).spec_full_error((be_bytes(data as u16 as nat,2)).len()))
                &&& final(self).spec_written() == old(self).spec_written()
            },
    {
        self.write_u16(data as u16)
    }

    fn write_i32(&mut self, data: i32) -> (r: Result<(), BufferWritterError>)
        ensures
            final(self).spec_frame() == old(self).spec_frame(),
            if (be_bytes(data as u32 as nat,4)).len() <= old(self).spec_room() {
                &&& r is Ok
                &&& final(self).spec_written() == old(self).spec_written() + (be_bytes(data as u32 as nat,4))
                &&& final(self).spec_room() == old(self).spec_room() - (be_bytes(data as u32 as nat,4)).len()
                &&& final(self).spec_count() == old(self).spec_count() + (be_bytes(data as u32 as nat,4)).len()
                &&& forall|n: nat| #[trigger]
                    final(self).spec_full_error(n) == old(self).spec_full_error(n + (be_bytes(data as u32 as nat,4)).len())
            } else {
                &&& r == Err::<(), BufferWritterError>(old(self).spec_full_error((be_bytes(data as u32 as nat,4)).len()))
                &&& final(self).spec_written() == old(self).spec_written()
            },
    {
        self.write_u32(data as u32)
    }

    /// Writes a string preceded by its length in one byte; strings longer than
    /// 255 bytes are refused.
    fn write_short_str(&mut self, data: &str) -> (r: Result<(), BufferWritterError>)
        ensures
            final(self).spec_frame() == old(self).spec_frame(),
            data.spec_bytes().len() > 255 ==> r == Err::<(), BufferWritterError>(
                BufferWritterError::SizeValueOverflow,
            ) && final(self).spec_written() == old(self).spec_written(),
            data.spec_bytes().len() <= 255 && old(self).spec_room() < 1 ==> r == Err::<
                (),
                BufferWritterError,
            >(old(self).spec_full_error(1)) && final(self).spec_written() == old(
                self,
            ).spec_written(),
            data.spec_bytes().len() <= 255 && 1 <= old(self).spec_room() < 1
                + data.spec_bytes().len() ==> r == Err::<(), BufferWritterError>(
                old(self).spec_full_error(1 + data.spec_bytes().len()),
            ) && final(self).spec_written() == old(self).spec_written() + be_bytes(
                data.spec_bytes().len(),
                1,
            ),
            data.spec_bytes().len() <= 255 && 1 + data.spec_bytes().len() <= old(
                self,
            ).spec_room() ==> {
                &&& r is Ok
                &&& final(self).spec_written() == old(self).spec_written() + be_bytes(
                    data.spec_bytes().len(),
                    1,
                ) + data.spec_bytes()
                &&& final(self).spec_room() == old(self).spec_room() - 1 - data.spec_bytes().len()
                &&& final(self).spec_count() == old(self).spec_count() + 1 + data.spec_bytes().len()
                &&& forall|n: nat| #[trigger]
                    final(self).spec_full_error(n) == old(self).spec_full_error(
                        n + 1 + data.spec_bytes().len(),
                    )
            },
    {
        let bytes = data.as_bytes();
        let len = bytes.len();
        if len > 255 {
            Err(BufferWritterError::SizeValueOverflow)
        } else {
            let ghost before = *self;
            proof {
                lemma_be_bytes_len(len as nat, 1);
            }
            let r1 = self.write_u8(len as u8);
            let ghost mid = *self;
            if r1.is_err() {
                return r1;
            }
            let r2 = self.write_buf(bytes);
            proof {
                let blen = data.spec_bytes().len();
                assert(mid.spec_full_error(blen) == before.spec_full_error(blen + 1));
                if blen <= mid.spec_room() {
                    assert forall|n: nat| #[trigger]
                        self.spec_full_error(n) == before.spec_full_error(n + 1 + blen) by {
                        assert(mid.spec_full_error(n + blen) == before.spec_full_error(
                            n + blen + 1,
                        ));
                    }
                    assert(self.spec_written() =~= before.spec_written() + be_bytes(
                        len as nat,
                        1,
                    ) + data.spec_bytes());
                }
            }
            r2
        }
    }
}

impl WriteToBuff for &[u8] {
    type Error = BufferWritterError;

    fn write_to_buf<T: BufferWritter>(&self, buf: &mut T) -> (r: Result<(), Self::Error>)
        ensures
            wrote(*old(buf), *final(buf), self@, r),
    {
        buf.write_buf(self)
    }
}

impl<const SIZE: usize> WriteToBuff for [u8; SIZE] {
    type Error = BufferWritterError;

    fn write_to_buf<T: BufferWritter>(&self, buf: &mut T) -> (r: Result<(), Self::Error>)
        ensures
            wrote(*old(buf), *final(buf), self@, r),
    {
        buf.write_buf(self.as_slice())
    }
}

/// The width of a recorded length.
#[derive(Clone, Copy, Debug, PartialEq, Eq)]
pub enum RecordedSize {
    U8,
    U16,
    U32,
}

impl RecordedSize {
    pub open spec fn spec_max_allowed(&self) -> nat {
        match self {
            RecordedSize::U8 => 0xFF,
            RecordedSize::U16 => 0xFFFF,
            RecordedSize::U32 => 0xFFFF_FFFF,
        }
    }

    pub open spec fn spec_bytes(&self) -> nat {
        match self {
            RecordedSize::U8 => 1,
            RecordedSize::U16 => 2,
            RecordedSize::U32 => 4,
        }
    }

    fn max_allowed(&self) -> (r: usize)
        ensures
            r == self.spec_max_allowed(),
    {
        match self {
            RecordedSize::U8 => 0xFF,
            RecordedSize::U16 => 0xFFFF,
            RecordedSize::U32 => 0xFFFF_FFFF,
        }
    }

    fn bytes(&self) -> (r: usize)
        ensures
            r == self.spec_bytes(),
    {
        match self {
            RecordedSize::U8 => 1,
            RecordedSize::U16 => 2,
            RecordedSize::U32 => 4,
        }
    }
}

/// A writer that reserves room for a length in front of what is written through
/// it, refuses writes that would make that length too large for its width, and
/// fills the length in when [`BufferWritterSizeGuard::finish`] is called.
///
/// The length is filled in by `finish` alone, not when the guard goes out of
/// scope: a guard dropped without `finish` leaves the reserved bytes as they
/// were when reserved (zero in a fresh buffer). Callers end every guard with
/// `finish`.
pub struct BufferWritterSizeGuard<'a, T: BufferWritter> {
    pub inner: &'a mut T,
    pub recorded_size_start: usize,
    pub written: usize,
    pub recorded_size: RecordedSize,
}

impl<'a, T: BufferWritter> BufferWritterSizeGuard<'a, T> {
    /// Where in the inner writer the length is recorded.
    pub open spec fn size_start(&self) -> nat {
        self.spec_frame().0
    }

    /// How many bytes the length takes.
    pub open spec fn size_width(&self) -> nat {
        self.spec_frame().1
    }

    /// The largest length the guard accepts.
    pub open spec fn size_limit(&self) -> nat {
        self.recorded_size.spec_max_allowed()
    }

    /// The inner writer as it is now.
    pub open spec fn inner_now(&self) -> T {
        *self.inner
    }

    /// What is written through the guard is what its inner writer holds; the
    /// room left is the smaller of the inner writer's room and what the length
    /// can still record.
    pub proof fn lemma_guard_inner(&self)
        ensures
            self.spec_written() == self.inner_now().spec_written(),
            self.spec_room() == if self.written_through() <= self.size_limit() && (self.size_limit()
                - self.written_through()) as nat <= self.inner_now().spec_room() {
                (self.size_limit() - self.written_through()) as nat
            } else if self.written_through() > self.size_limit() {
                0
            } else {
                self.inner_now().spec_room()
            },
    {
    }

    /// How many bytes were written through the guard: the length
    /// [`Self::finish`] records.
    pub open spec fn written_through(&self) -> nat {
        self.spec_count()
    }

    /// The guard as created over `w`, before anything was written through it.
    pub open spec fn fresh(&self, w: T, width: nat, limit: nat) -> bool {
        &&& self.size_start() == w.spec_written().len()
        &&& self.size_width() == width
        &&& self.size_limit() == limit
        &&& self.written_through() == 0
        &&& self.inner_now().spec_written().len() == w.spec_written().len() + width
        &&& self.inner_now().spec_written().subrange(0, w.spec_written().len() as int)
            == w.spec_written()
        &&& self.spec_written() == self.inner_now().spec_written()
        &&& self.inner_now().spec_room() == w.spec_room() - width
        &&& self.spec_room() == if limit < w.spec_room() - width {
            limit
        } else {
            (w.spec_room() - width) as nat
        }
        &&& forall|n: nat| #[trigger]
            self.inner_now().spec_full_error(n) == w.spec_full_error(n + width)
    }

    /// Starts a guard whose length is one byte; fails, as the reservation does,
    /// when the writer has no room for that byte.
    pub fn new_u8(writter: &'a mut T) -> (r: Result<Self, BufferWritterError>)
        ensures
            old(writter).spec_room() >= 1 ==> (r matches Ok(g) && g.fresh(*old(writter), 1, 0xFF)
                && *final(g.inner) == *final(writter)),
            old(writter).spec_room() < 1 ==> (r == Err::<Self, BufferWritterError>(
                old(writter).spec_full_error(1),
            ) && final(writter).spec_written() == old(writter).spec_written()),
    {
        Self::new(writter, RecordedSize::U8)
    }

    /// Starts a guard whose length is two bytes; fails, as the reservation
    /// does, when the writer has no room for them.
    pub fn new_u16(writter: &'a mut T) -> (r: Result<Self, BufferWritterError>)
        ensures
            old(writter).spec_room() >= 2 ==> (r matches Ok(g) && g.fresh(*old(writter), 2, 0xFFFF)
                && *final(g.inner) == *final(writter)),
            old(writter).spec_room() < 2 ==> (r == Err::<Self, BufferWritterError>(
                old(writter).spec_full_error(2),
            ) && final(writter).spec_written() == old(writter).spec_written()),
    {
        Self::new(writter, RecordedSize::U16)
    }

    /// Starts a guard whose length is four bytes; fails, as the reservation
    /// does, when the writer has no room for them.
    pub fn new_u32(writter: &'a mut T) -> (r: Result<Self, BufferWritterError>)
        ensures
            old(writter).spec_room() >= 4 ==> (r matches Ok(g) && g.fresh(
                *old(writter),
                4,
                0xFFFF_FFFF,
            ) && *final(g.inner) == *final(writter)),
            old(writter).spec_room() < 4 ==> (r == Err::<Self, BufferWritterError>(
                old(writter).spec_full_error(4),
            ) && final(writter).spec_written() == old(writter).spec_written()),
    {
        Self::new(writter, RecordedSize::U32)
    }

    fn new(writter: &'a mut T, recorded_size: RecordedSize) -> (r: Result<
        Self,
        BufferWritterError,
    >)
        ensures
            old(writter).spec_room() >= recorded_size.spec_bytes() ==> (r matches Ok(g) && g.fresh(
                *old(writter),
                recorded_size.spec_bytes(),
                recorded_size.spec_max_allowed(),
            ) && *final(g.inner) == *final(writter)),
            old(writter).spec_room() < recorded_size.spec_bytes() ==> (r == Err::<
                Self,
                BufferWritterError,
            >(old(writter).spec_full_error(recorded_size.spec_bytes()))
                && final(writter).spec_written() == old(writter).spec_written()),
    {
        let start = writter.curr_buf_len();
        match writter.write(recorded_size.bytes()) {
            Ok(()) => Ok(Self { recorded_size_start: start, inner: writter, written: 0, recorded_size }),
            Err(e) => Err(e),
        }
    }

    /// Writes the number of bytes written through the guard, big-endian, into
    /// the room reserved for it.
    pub fn finish(self)
        requires
            self.size_start() + self.size_width() <= self.inner_now().spec_written().len(),
        ensures
            final(self.inner).spec_written() == self.inner_now().spec_written().take(
                self.size_start() as int,
            ) + be_bytes(self.written_through(), self.size_width()) + self.inner_now().spec_written().skip(
                (self.size_start() + self.size_width()) as int,
            ),
            final(self.inner).spec_room() == self.inner_now().spec_room(),
    {
        let width = self.recorded_size.bytes();
        let start = self.recorded_size_start;
        let mut value = self.written;
        let ghost total = self.written_through();
        let inner = self.inner;
        let ghost w0 = inner.spec_written();
        let ghost room0 = inner.spec_room();
        let _total_len = inner.curr_buf_len();
        proof {
            lemma_be_bytes_len(total, width as nat);
            assert(pow256(0) == 1);
            assert(total / 1 == total);
        }
        let mut i = width;
        while i > 0
            invariant
                i <= width,
                width <= 4,
                start + width <= w0.len(),
                w0.len() == _total_len,
                be_bytes(total, width as nat).len() == width,
                inner.spec_written().len() == w0.len(),
                inner.spec_room() == room0,
                value as nat == total / pow256((width - i) as nat),
                forall|k: int|
                    0 <= k < w0.len() && !(start + i <= k < start + width)
                        ==> #[trigger] inner.spec_written()[k] == w0[k],
                forall|k: int|
                    start + i <= k < start + width ==> #[trigger] inner.spec_written()[k]
                        == be_bytes(total, width as nat)[k - start],
            decreases i,
        {
            let byte = (value % 0x100) as u8;
            inner.curr_buf_set(start + i - 1, byte);
            proof {
                lemma_be_bytes_index(total, width as nat, (i - 1) as nat);
                lemma_pow256_step((width - i) as nat);
                vstd::arithmetic::div_mod::lemma_div_denominator(
                    total as int,
                    pow256((width - i) as nat) as int,
                    256,
                );
            }
            value = value / 0x100;
            i = i - 1;
        }
        proof {
            lemma_be_bytes_len(total, width as nat);
            assert(inner.spec_written() =~= w0.take(start as int) + be_bytes(total, width as nat)
                + w0.skip((start + width) as int));
        }
    }
}

/// The two bytes of `v`, most significant first.
pub(crate) fn be2(v: u16) -> (r: [u8; 2])
    ensures
        r@ == be_bytes(v as nat, 2),
{
    let r = [(v / 0x100) as u8, (v % 0x100) as u8];
    proof {
        reveal_with_fuel(be_bytes, 3);
        assert(r@ =~= be_bytes(v as nat, 2));
    }
    r
}

/// The eight bytes of `v`, most significant first.
pub(crate) fn be8(v: u64) -> (r: [u8; 8])
    ensures
        r@ == be_bytes(v as nat, 8),
{
    let hi = be4((v / 0x1_0000_0000) as u32);
    let lo = be4((v % 0x1_0000_0000) as u32);
    let r = [hi[0], hi[1], hi[2], hi[3], lo[0], lo[1], lo[2], lo[3]];
    proof {
        lemma_be_bytes_split(v as nat, 4, 4);
        assert(pow256(4) == 0x1_0000_0000) by {
            reveal_with_fuel(pow256, 5);
        }
        assert(r@ =~= be_bytes(v as nat, 8));
    }
    r
}

/// The four bytes of `v`, most significant first.
pub(crate) fn be4(v: u32) -> (r: [u8; 4])
    ensures
        r@ == be_bytes(v as nat, 4),
{
    let r = [
        (v / 0x100_0000) as u8,
        (v / 0x1_0000 % 0x100) as u8,
        (v / 0x100 % 0x100) as u8,
        (v % 0x100) as u8,
    ];
    proof {
        reveal_with_fuel(be_bytes, 5);
        assert(r@ =~= be_bytes(v as nat, 4));
    }
    r
}

/// Writing `v` in `n + m` bytes is writing its high part in `n` bytes and then
/// its low part in `m` bytes.
pub proof fn lemma_be_bytes_split(v: nat, n: nat, m: nat)
    ensures
        be_bytes(v, n + m) == be_bytes(v / pow256(m), n) + be_bytes(v % pow256(m), m),
    decreases m,
{
    if m == 0 {
        assert(pow256(0) == 1);
        assert(be_bytes(v, n + m) =~= be_bytes(v / pow256(m), n) + be_bytes(
            v % pow256(m),
            m,
        ));
    } else {
        lemma_be_bytes_split(v / 256, n, (m - 1) as nat);
        lemma_pow256_step((m - 1) as nat);
        let p = pow256((m - 1) as nat);
        vstd::arithmetic::div_mod::lemma_div_denominator(v as int, 256, p as int);
        assert(v / pow256(m) == v / 256 / p) by {
            vstd::arithmetic::mul::lemma_mul_is_commutative(256, p as int);
        }
        // the low part: (v % (256 p)) / 256 == (v / 256) % p and its last digit is v % 256
        vstd::arithmetic::div_mod::lemma_breakdown(v as int, 256, p as int);
        let low = v % pow256(m);
        assert(low / 256 == (v / 256) % p && low % 256 == v % 256) by {
            vstd::arithmetic::div_mod::lemma_mod_mod(v as int, 256, p as int);
            vstd::arithmetic::div_mod::lemma_mod_breakdown(v as int, 256, p as int);
            vstd::arithmetic::mul::lemma_mul_is_commutative(256, p as int);
            assert(low == 256 * ((v / 256) % p) + v % 256);
            vstd::arithmetic::div_mod::lemma_fundamental_div_mod_converse(
                low as int,
                256,
                ((v / 256) % p) as int,
                (v % 256) as int,
            );
        }
        assert(be_bytes(v, n + m) =~= be_bytes(v / pow256(m), n) + be_bytes(low, m));
    }
}

/// 256 to the power `n`.
pub open spec fn pow256(n: nat) -> nat
    decreases n,
{
    if n == 0 {
        1
    } else {
        256 * pow256((n - 1) as nat)
    }
}

pub proof fn lemma_pow256_step(n: nat)
    ensures
        pow256(n + 1) == pow256(n) * 256,
        pow256(n) > 0,
    decreases n,
{
    if n > 0 {
        lemma_pow256_step((n - 1) as nat);
    }
}

/// Byte `k` of `be_bytes(v, n)` (counted from the most significant) holds the
/// digit of `v` in base 256 at position `n - 1 - k`.
pub proof fn lemma_be_bytes_index(v: nat, n: nat, k: nat)
    requires
        k < n,
    ensures
        be_bytes(v, n).len() == n,
        be_bytes(v, n)[k as int] == ((v / pow256((n - 1 - k) as nat)) % 256) as u8,
    decreases n,
{
    lemma_be_bytes_len(v, n);
    lemma_be_bytes_len(v / 256, (n - 1) as nat);
    if k == n - 1 {
        assert(pow256(0) == 1);
        assert(v / 1 == v);
    } else {
        lemma_be_bytes_index(v / 256, (n - 1) as nat, k);
        lemma_pow256_step((n - 2 - k) as nat);
        lemma_be_bytes_len(v / 256, (n - 1) as nat);
        vstd::arithmetic::div_mod::lemma_div_denominator(
            v as int,
            256,
            pow256((n - 2 - k) as nat) as int,
        );
        assert(pow256((n - 1 - k) as nat) == 256 * pow256((n - 2 - k) as nat));
        assert(be_bytes(v, n)[k as int] == be_bytes(v / 256, (n - 1) as nat)[k as int]);
    }
}

pub proof fn lemma_be_bytes_len(v: nat, n: nat)
    ensures
        be_bytes(v, n).len() == n,
    decreases n,
{
    if n > 0 {
        lemma_be_bytes_len(v / 256, (n - 1) as nat);
    }
}

/// Reading back `n` bytes written for `v` gives `v` modulo `256^n`.
pub proof fn lemma_be_value_of_bytes(v: nat, n: nat)
    ensures
        be_value(be_bytes(v, n)) == v % pow256(n),
    decreases n,
{
    if n == 0 {
        assert(be_bytes(v, n) =~= Seq::<u8>::empty());
    } else {
        lemma_be_value_of_bytes(v / 256, (n - 1) as nat);
        let s = be_bytes(v, n);
        assert(s.drop_last() =~= be_bytes(v / 256, (n - 1) as nat));
        lemma_pow256_step((n - 1) as nat);
        vstd::arithmetic::div_mod::lemma_breakdown(v as int, 256, pow256((n - 1) as nat) as int);
        assert(pow256(n) == 256 * pow256((n - 1) as nat));
    }
}

/// A value read from `s.len()` bytes is below `256^s.len()`.
pub proof fn lemma_be_value_bound(s: Seq<u8>)
    ensures
        be_value(s) < pow256(s.len()),
    decreases s.len(),
{
    if s.len() > 0 {
        lemma_be_value_bound(s.drop_last());
        lemma_pow256_step((s.len() - 1) as nat);
    }
}

impl<'a, T: BufferWritter> BufferWritter for BufferWritterSizeGuard<'a, T> {
    closed spec fn spec_written(&self) -> Seq<u8> {
        self.inner.spec_written()
    }

    closed spec fn spec_room(&self) -> nat {
        let left = if self.written <= self.recorded_size.spec_max_allowed() {
            (self.recorded_size.spec_max_allowed() - self.written) as nat
        } else {
            0
        };
        if left < self.inner.spec_room() {
            left
        } else {
            self.inner.spec_room()
        }
    }

    closed spec fn spec_count(&self) -> nat {
        self.written as nat
    }

    closed spec fn spec_frame(&self) -> (nat, nat) {
        (self.recorded_size_start as nat, self.recorded_size.spec_bytes())
    }

    closed spec fn spec_full_error(&self, n: nat) -> BufferWritterError {
        if self.written + n > self.recorded_size.spec_max_allowed() {
            BufferWritterError::SizeValueOverflow
        } else {
            self.inner.spec_full_error(n)
        }
    }

    fn reset(&mut self) {
        self.inner.reset()
    }

    fn curr_buf(&self) -> (r: &[u8]) {
        self.inner.curr_buf()
    }

    fn curr_buf_set(&mut self, index: usize, value: u8) {
        self.inner.curr_buf_set(index, value)
    }

    /// A write that would take the count past what the length records is
    /// refused and not counted; any other is counted, even when the inner
    /// writer then has no room for it.
    fn write(&mut self, size: usize) -> (r: Result<(), BufferWritterError>)
        ensures
            size > 0 && old(self).written + size > old(self).size_limit() ==> (r == Err::<
                (),
                BufferWritterError,
            >(BufferWritterError::SizeValueOverflow) && final(self).written == old(self).written),
            !(size > 0 && old(self).written + size > old(self).size_limit()) ==> final(self).written
                == old(self).written + size,
    {
        let max = self.recorded_size.max_allowed();
        if size > 0 && (self.written > max || size > max - self.written) {
            Err(BufferWritterError::SizeValueOverflow)
        } else {
            let ghost before = *self;
            self.written = self.written + size;
            let r = self.inner.write(size);
            proof {
                if r is Ok {
                    assert forall|n: nat| #[trigger]
                        self.spec_full_error(n) == before.spec_full_error(n + size as nat) by {
                        assert(self.inner.spec_full_error(n) == before.inner.spec_full_error(
                            n + size as nat,
                        ));
                    }
                }
            }
            r
        }
    }
}

/// A writer into a borrowed slice, with a cursor at the end of what was written.
pub struct SliceBufferWritter<'a> {
    buff: &'a mut [u8],
    index: usize,
}

impl<'a> SliceBufferWritter<'a> {
    #[verifier::type_invariant]
    spec fn inv(&self) -> bool {
        self.index <= self.buff@.len()
    }

    /// The whole underlying slice, written or not.
    pub closed spec fn spec_slice(&self) -> Seq<u8> {
        self.buff@
    }

    pub fn new(buff: &'a mut [u8]) -> (r: Self)
        ensures
            r.spec_written() == Seq::<u8>::empty(),
            r.spec_room() == old(buff)@.len(),
            r.spec_slice() == old(buff)@,
            forall|n: nat| #[trigger] r.spec_full_error(n) == BufferWritterError::BufferTooSmall,
    {
        Self { buff, index: 0 }
    }
}

impl<'a> BufferWritter for SliceBufferWritter<'a> {
    closed spec fn spec_written(&self) -> Seq<u8> {
        self.buff@.subrange(0, self.index as int)
    }

    closed spec fn spec_room(&self) -> nat {
        (self.buff@.len() - self.index) as nat
    }

    closed spec fn spec_full_error(&self, n: nat) -> BufferWritterError {
        BufferWritterError::BufferTooSmall
    }

    closed spec fn spec_count(&self) -> nat {
        self.index as nat
    }

    closed spec fn spec_frame(&self) -> (nat, nat) {
        (0, 0)
    }

    fn reset(&mut self)
        ensures
            final(self).spec_room() == old(self).spec_slice().len(),
            final(self).spec_slice() == old(self).spec_slice(),
    {
        self.index = 0;
    }

    fn curr_buf(&self) -> (r: &[u8]) {
        proof {
            use_type_invariant(self);
        }
        &self.buff[0..self.index]
    }

    fn curr_buf_set(&mut self, index: usize, value: u8) {
        proof {
            use_type_invariant(&*self);
        }
        self.buff[index] = value;
        proof {
            assert(self.spec_written() =~= old(self).spec_written().update(index as int, value));
        }
    }

    fn write(&mut self, size: usize) -> (r: Result<(), BufferWritterError>) {
        proof {
            use_type_invariant(&*self);
        }
        if size > self.buff.len() - self.index {
            Err(BufferWritterError::BufferTooSmall)
        } else {
            self.index = self.index + size;
            proof {
                assert(self.spec_written().subrange(0, old(self).spec_written().len() as int)
                    =~= old(self).spec_written());
            }
            Ok(())
        }
    }
}

/// The bytes of the writes among the first `i` that succeeded, in order.
pub open spec fn accepted_writes(
    bytes: Seq<Seq<u8>>,
    rs: Seq<Result<(), BufferWritterError>>,
    i: nat,
) -> Seq<u8>
    decreases i,
{
    if i == 0 {
        Seq::empty()
    } else {
        let prev = accepted_writes(bytes, rs, (i - 1) as nat);
        if rs[i - 1] is Ok {
            prev + bytes[i - 1]
        } else {
            prev
        }
    }
}

/// Over a slice, a run of writes (`ws[i]` to `ws[i + 1]` writing `bytes[i]`
/// with outcome `rs[i]`) keeps exactly the writes that fit in what is left of
/// the slice, in order: a write succeeds if and only if it fits after the ones
/// before it, and one that does not fit fails with `BufferTooSmall` and leaves
/// the written bytes as they were. Each state is a writer over one slice:
/// what is written and the room left make up the slice.
#[verifier::rlimit(40)]
pub proof fn law_slice_writes(
    ws: Seq<SliceBufferWritter>,
    bytes: Seq<Seq<u8>>,
    rs: Seq<Result<(), BufferWritterError>>,
)
    requires
        ws.len() == bytes.len() + 1,
        rs.len() == bytes.len(),
        forall|i: int| 0 <= i < bytes.len() ==> #[trigger] wrote(ws[i], ws[i + 1], bytes[i], rs[i]),
        forall|i: int|
            0 <= i < ws.len() ==> #[trigger] ws[i].spec_room() + ws[i].spec_written().len()
                == ws[0].spec_slice().len() && ws[i].spec_slice().len() == ws[0].spec_slice().len(),
    ensures
        forall|i: int|
            0 <= i < ws.len() ==> {
                &&& #[trigger] ws[i].spec_written() == ws[0].spec_written() + accepted_writes(bytes, rs, i as nat)
                &&& ws[i].spec_room() + accepted_writes(bytes, rs, i as nat).len() == ws[0].spec_room()
            },
        forall|i: int|
            0 <= i < bytes.len() ==> {
                &&& (#[trigger] rs[i] is Ok <==> accepted_writes(bytes, rs, i as nat).len() + bytes[i].len()
                    <= ws[0].spec_room())
                &&& (rs[i] is Err ==> rs[i] == Err::<(), BufferWritterError>(BufferWritterError::BufferTooSmall))
            },
    decreases bytes.len(),
{
    if bytes.len() == 0 {
        assert(ws[0].spec_written() + Seq::<u8>::empty() =~= ws[0].spec_written());
    } else {
        let n = (bytes.len() - 1) as int;
        assert forall|i: int| 0 <= i < ws.drop_last().len() implies #[trigger] ws.drop_last()[i].spec_room()
            + ws.drop_last()[i].spec_written().len() == ws.drop_last()[0].spec_slice().len()
            && ws.drop_last()[i].spec_slice().len() == ws.drop_last()[0].spec_slice().len() by {
            assert(ws.drop_last()[i] == ws[i]);
        }
        assert forall|i: int| 0 <= i < bytes.drop_last().len() implies #[trigger] wrote(
            ws.drop_last()[i],
            ws.drop_last()[i + 1],
            bytes.drop_last()[i],
            rs.drop_last()[i],
        ) by {
            assert(ws.drop_last()[i] == ws[i]);
            assert(ws.drop_last()[i + 1] == ws[i + 1]);
            assert(wrote(ws[i], ws[i + 1], bytes[i], rs[i]));
        }
        law_slice_writes(ws.drop_last(), bytes.drop_last(), rs.drop_last());
        assert forall|i: int| 0 <= i <= n implies #[trigger] accepted_writes(bytes.drop_last(), rs.drop_last(), i as nat)
            == accepted_writes(bytes, rs, i as nat) by {
            lemma_accepted_prefix(bytes, rs, i as nat);
        }
        assert(ws.drop_last()[n] == ws[n]);
        assert(wrote(ws[n], ws[n + 1], bytes[n], rs[n]));
        let acc = accepted_writes(bytes, rs, n as nat);
        assert(ws[n].spec_written() == ws[0].spec_written() + acc);
        if rs[n] is Ok {
            assert(ws[n + 1].spec_written() =~= ws[0].spec_written() + accepted_writes(bytes, rs, (n + 1) as nat));
        } else {
            assert(accepted_writes(bytes, rs, (n + 1) as nat) == acc);
            assert(ws[n + 1].spec_room() + ws[n + 1].spec_written().len() == ws[0].spec_slice().len());
            assert(ws[n].spec_room() + ws[n].spec_written().len() == ws[0].spec_slice().len());
        }
        assert forall|i: int| 0 <= i < ws.len() implies {
            &&& #[trigger] ws[i].spec_written() == ws[0].spec_written() + accepted_writes(bytes, rs, i as nat)
            &&& ws[i].spec_room() + accepted_writes(bytes, rs, i as nat).len() == ws[0].spec_room()
        } by {
            if i <= n {
                assert(ws.drop_last()[i] == ws[i]);
            }
        }
        assert forall|i: int| 0 <= i < bytes.len() implies {
            &&& (#[trigger] rs[i] is Ok <==> accepted_writes(bytes, rs, i as nat).len() + bytes[i].len()
                <= ws[0].spec_room())
            &&& (rs[i] is Err ==> rs[i] == Err::<(), BufferWritterError>(BufferWritterError::BufferTooSmall))
        } by {
            if i < n {
                assert(rs.drop_last()[i] == rs[i]);
                assert(bytes.drop_last()[i] == bytes[i]);
            }
        }
    }
}

/// The accepted writes among the first `i` do not depend on the writes after.
proof fn lemma_accepted_prefix(bytes: Seq<Seq<u8>>, rs: Seq<Result<(), BufferWritterError>>, i: nat)
    requires
        bytes.len() > 0,
        rs.len() == bytes.len(),
        i < bytes.len(),
    ensures
        accepted_writes(bytes.drop_last(), rs.drop_last(), i) == accepted_writes(bytes, rs, i),
    decreases i,
{
    if i > 0 {
        lemma_accepted_prefix(bytes, rs, (i - 1) as nat);
    }
}

} // verus!
