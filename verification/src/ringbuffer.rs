use vstd::prelude::*;

use crate::buffer_reader::be_value;
use crate::buffer_writter::{be_bytes, lemma_be_bytes_len, lemma_be_value_of_bytes, pow256};

verus! {

/// Whether `n` is a power of two.
pub open spec fn is_pow2(n: nat) -> bool
    decreases n,
{
    if n == 1 {
        true
    } else if n < 2 || n % 2 != 0 {
        false
    } else {
        is_pow2(n / 2)
    }
}

/// The largest power of two a `usize` holds.
pub open spec fn half() -> nat {
    (usize::MAX as nat + 1) / 2
}

/// The smallest power of two at least `x`, searching up from `p`.
pub open spec fn npot_from(p: nat, x: nat) -> nat
    decreases (if p >= x { 0 } else { x - p }),
{
    if p == 0 || p >= x {
        p
    } else {
        npot_from(2 * p, x)
    }
}

/// The smallest power of two at least `x` (one for zero).
pub open spec fn spec_npot(x: nat) -> nat {
    npot_from(1, x)
}

/// How many of the oldest bytes must go so that `amount` more fit under `max`.
pub open spec fn spec_drop(len: nat, amount: nat, max: nat) -> nat {
    if len + amount > max {
        (len + amount - max) as nat
    } else {
        0
    }
}

pub proof fn lemma_pow2_double(a: nat, b: nat)
    requires
        is_pow2(a),
        is_pow2(b),
        a < b,
    ensures
        2 * a <= b,
    decreases b,
{
    if a == 1 {
        assert(b >= 2);
    } else {
        assert(b != 1);
        lemma_pow2_double(a / 2, b / 2);
    }
}

pub proof fn lemma_pow2_times2(a: nat)
    requires
        is_pow2(a),
    ensures
        is_pow2(2 * a),
{
    assert((2 * a) / 2 == a);
}

pub proof fn lemma_half_pow2()
    ensures
        is_pow2(half()),
        2 * half() == usize::MAX as nat + 1,
{
    if usize::MAX == 0xffff_ffff {
        assert(is_pow2(0x8000_0000)) by {
            reveal_with_fuel(is_pow2, 33);
        }
    } else {
        assert(usize::MAX == 0xffff_ffff_ffff_ffff);
        assert(is_pow2(0x8000_0000_0000_0000)) by {
            reveal_with_fuel(is_pow2, 65);
        }
    }
}

pub proof fn lemma_npot_from(p: nat, x: nat)
    requires
        is_pow2(p),
        p < 2 * x || p == 1,
    ensures
        is_pow2(npot_from(p, x)),
        npot_from(p, x) >= x,
        npot_from(p, x) >= p,
        npot_from(p, x) == 1 || npot_from(p, x) < 2 * x,
    decreases (if p >= x { 0 } else { x - p }),
{
    if p < x {
        lemma_pow2_times2(p);
        lemma_npot_from(2 * p, x);
    }
}

pub proof fn lemma_npot(x: nat)
    ensures
        is_pow2(spec_npot(x)),
        spec_npot(x) >= x,
        spec_npot(x) >= 1,
        spec_npot(x) == 1 || spec_npot(x) < 2 * x,
{
    lemma_npot_from(1, x);
}

/// The smallest power of two is the value itself for a power of two.
pub proof fn lemma_npot_of_pow2(x: nat)
    requires
        is_pow2(x),
    ensures
        spec_npot(x) == x,
{
    lemma_npot(x);
    if spec_npot(x) != x {
        lemma_pow2_double(x, spec_npot(x));
    }
}

proof fn lemma_mod_once(x: int, m: int)
    requires
        0 < m <= x < 2 * m,
    ensures
        x % m == x - m,
{
    vstd::arithmetic::div_mod::lemma_small_mod((x - m) as nat, m as nat);
    vstd::arithmetic::div_mod::lemma_mod_add_multiples_vanish(x - m, m);
}

proof fn lemma_mod_shift(a: int, i: int, m: int)
    requires
        0 <= a,
        0 <= i,
        0 < m,
    ensures
        ((a % m) + i) % m == (a + i) % m,
{
    vstd::arithmetic::div_mod::lemma_add_mod_noop(a, i, m);
    vstd::arithmetic::div_mod::lemma_mod_twice(a, m);
    vstd::arithmetic::div_mod::lemma_add_mod_noop(a % m, i, m);
}

/// The bytes of all the parts, in order.
pub open spec fn parts_bytes(parts: Seq<&[u8]>) -> Seq<u8>
    decreases parts.len(),
{
    if parts.len() == 0 {
        Seq::empty()
    } else {
        parts_bytes(parts.drop_last()) + parts.last()@
    }
}

/// Every part holds at least one byte.
pub open spec fn parts_nonempty(parts: Seq<&[u8]>) -> bool {
    forall|i: int| 0 <= i < parts.len() ==> (#[trigger] parts[i])@.len() > 0
}

proof fn lemma_parts_bytes_take(parts: Seq<&[u8]>, i: int)
    requires
        0 <= i < parts.len(),
    ensures
        parts_bytes(parts.take(i + 1)) == parts_bytes(parts.take(i)) + parts[i]@,
{
    assert(parts.take(i + 1).drop_last() =~= parts.take(i));
}

proof fn lemma_parts_bytes_len_mono(parts: Seq<&[u8]>, i: int)
    requires
        0 <= i <= parts.len(),
    ensures
        parts_bytes(parts.take(i)).len() <= parts_bytes(parts).len(),
    decreases parts.len() - i,
{
    if i < parts.len() {
        lemma_parts_bytes_take(parts, i);
        lemma_parts_bytes_len_mono(parts, i + 1);
    } else {
        assert(parts.take(i) =~= parts);
    }
}

proof fn lemma_mod_neg(x: int, m: int)
    requires
        0 < m,
        -m <= x < 0,
    ensures
        x % m == x + m,
{
    vstd::arithmetic::div_mod::lemma_small_mod((x + m) as nat, m as nat);
    vstd::arithmetic::div_mod::lemma_mod_add_multiples_vanish(x, m);
}

/// Two positions of a storage of `c` bytes at the same offset from `s` are the
/// same position.
proof fn lemma_offset_unique(a: int, b: int, s: int, c: int)
    requires
        0 <= a < c,
        0 <= b < c,
        a != b,
    ensures
        (a - s) % c != (b - s) % c,
{
    vstd::arithmetic::div_mod::lemma_mod_equivalence(a - s, b - s, c);
    if a > b {
        vstd::arithmetic::div_mod::lemma_small_mod((a - b) as nat, c as nat);
    } else {
        lemma_mod_neg(a - b, c);
    }
}

/// The smallest power of two at least `x`.
fn next_power_of_two(x: usize) -> (r: usize)
    requires
        x <= half(),
    ensures
        r == spec_npot(x as nat),
        r <= half(),
{
    proof {
        lemma_npot(x as nat);
        lemma_half_pow2();
    }
    let mut p: usize = 1;
    while p < x
        invariant
            is_pow2(p as nat),
            p as nat <= half(),
            x <= half(),
            npot_from(p as nat, x as nat) == spec_npot(x as nat),
            p < 2 * x || p == 1,
            is_pow2(half()),
        decreases (if p >= x { 0 } else { x - p }),
    {
        proof {
            lemma_pow2_double(p as nat, half());
        }
        p = p * 2;
        proof {
            lemma_pow2_times2((p / 2) as nat);
        }
    }
    p
}

#[derive(Debug, Clone, Copy, PartialEq, Eq, PartialOrd, Ord, Default, Hash)]
pub struct ExceededMaximumCapacity;

/// A byte queue stored in a power-of-two sized buffer that grows up to a
/// maximum capacity; once the maximum is reached, the oldest bytes are dropped
/// to make room.
pub struct RingBuffer {
    head: usize,
    tail: usize,
    len: usize,
    max_capacity: usize,
    data: Vec<u8>,
}

impl RingBuffer {
    /// The buffer's invariant: the storage is empty or a power of two no larger
    /// than the maximum, and the head, tail and length lie inside it.
    pub closed spec fn wf(&self) -> bool {
        &&& self.data@.len() == 0 ==> self.head == 0 && self.tail == 0 && self.len == 0
        &&& self.data@.len() > 0 ==> self.head < self.data@.len() && self.tail
            < self.data@.len() && is_pow2(self.data@.len())
        &&& self.len <= self.data@.len()
        &&& self.data@.len() <= self.max_capacity
        &&& self.data@.len() <= half()
        &&& is_pow2(self.max_capacity as nat) || self.max_capacity == usize::MAX
            || self.max_capacity == 0
    }

    pub closed spec fn spec_head(&self) -> nat {
        self.head as nat
    }

    pub closed spec fn spec_tail(&self) -> nat {
        self.tail as nat
    }

    pub closed spec fn spec_len(&self) -> nat {
        self.len as nat
    }

    pub closed spec fn spec_max(&self) -> nat {
        self.max_capacity as nat
    }

    /// The whole backing storage.
    pub closed spec fn spec_data(&self) -> Seq<u8> {
        self.data@
    }

    pub open spec fn spec_capacity(&self) -> nat {
        self.spec_data().len()
    }

    /// The queued bytes, oldest first: `len` bytes from the head, wrapping
    /// around the end of the storage.
    pub open spec fn contents(&self) -> Seq<u8> {
        Seq::new(
            self.spec_len(),
            |i: int| self.spec_data()[(self.spec_head() + i) % (self.spec_capacity() as int)],
        )
    }

    /// Whether the write position sits right after the queued bytes, so that the
    /// next write extends them.
    pub open spec fn synced(&self) -> bool {
        self.spec_capacity() == 0 || self.spec_tail() == (self.spec_head() + self.spec_len())
            % self.spec_capacity()
    }

    /// The capacity the storage is grown to so that `amount` more bytes fit.
    pub open spec fn grow_target(&self, amount: nat) -> nat {
        if spec_npot(amount + self.spec_capacity()) >= self.spec_max() {
            self.spec_max()
        } else {
            spec_npot(amount + self.spec_capacity())
        }
    }

    /// Making room for `amount` bytes grows a non-empty storage while nothing is
    /// queued; the grown storage then puts the write position at the old
    /// capacity, away from the head.
    pub open spec fn resize_breaks_sync(&self, amount: nat) -> bool {
        &&& self.spec_capacity() > 0
        &&& self.grow_target(amount) != self.spec_capacity()
        &&& (self.spec_len() == 0 || amount == self.spec_max())
    }

    /// The state a successful call of `resize_or_erase(amount)` leaves.
    pub open spec fn made_room(&self, after: &Self, amount: nat) -> bool {
        &&& after.spec_max() == self.spec_max()
        &&& after.spec_capacity() == self.grow_target(amount)
        &&& after.spec_len() == self.spec_len() - spec_drop(
            self.spec_len(),
            amount,
            self.spec_max(),
        )
        &&& after.spec_len() + amount <= after.spec_capacity()
        &&& self.synced() ==> after.contents() == self.contents().skip(
            spec_drop(self.spec_len(), amount, self.spec_max()) as int,
        )
        &&& self.synced() && !self.resize_breaks_sync(amount) ==> after.synced()
    }

    /// The storage never exceeds the maximum capacity.
    pub proof fn lemma_capacity_bound(&self)
        requires
            self.wf(),
        ensures
            self.spec_capacity() <= self.spec_max(),
            self.spec_capacity() <= half(),
    {
    }

    pub fn new() -> (r: Self)
        ensures
            r.contents() == Seq::<u8>::empty(),
            r.spec_capacity() == 0,
            r.spec_max() == usize::MAX,
            r.synced(),
            r.wf(),
    {
        Self { head: 0, tail: 0, len: 0, max_capacity: usize::MAX, data: Vec::new() }
    }

    /// A buffer that never grows past `max` bytes, which must be a power of two.
    pub fn with_maximum_capacity(max: usize) -> (r: Self)
        requires
            is_pow2(max as nat),
        ensures
            r.contents() == Seq::<u8>::empty(),
            r.spec_capacity() == 0,
            r.spec_max() == max,
            r.synced(),
            r.wf(),
    {
        Self { head: 0, tail: 0, len: 0, max_capacity: max, data: Vec::new() }
    }

    fn wrap_in_buffer(&self, val: usize) -> (r: usize)
        requires
            self.spec_capacity() > 0,
        ensures
            r == val as nat % self.spec_capacity(),
    {
        val % self.data.len()
    }

    pub fn current_capacity(&self) -> (r: usize)
        ensures
            r == self.spec_capacity(),
    {
        self.data.len()
    }

    pub fn max_capacity(&self) -> (r: usize)
        ensures
            r == self.spec_max(),
    {
        self.max_capacity
    }

    pub fn len(&self) -> (r: usize)
        ensures
            r == self.contents().len(),
    {
        self.len
    }

    pub fn is_empty(&self) -> (r: bool)
        ensures
            r == (self.contents().len() == 0),
    {
        self.len == 0
    }

    /// The queued bytes, oldest first.
    pub fn contents_vec(&self) -> (r: Vec<u8>)
        requires
            self.wf(),
        ensures
            r@ == self.contents(),
    {
        let mut v: Vec<u8> = Vec::new();
        let mut i: usize = 0;
        while i < self.len
            invariant
                i <= self.len,
                self.len <= self.data@.len(),
                self.data@.len() > 0 ==> self.head < self.data@.len(),
                self.data@.len() <= half(),
                v@.len() == i,
                forall|k: int| 0 <= k < i ==> v@[k] == self.contents()[k],
            decreases self.len - i,
        {
            let pos = (self.head + i) % self.data.len();
            v.push(self.data[pos]);
            i += 1;
        }
        proof {
            assert(v@ =~= self.contents());
        }
        v
    }

    /// Drops `min_erase` of the oldest bytes.
    fn erase(&mut self, min_erase: usize)
        requires
            old(self).wf(),
            min_erase <= old(self).spec_len(),
            old(self).spec_capacity() > 0,
        ensures
            final(self).wf(),
            final(self).spec_data() == old(self).spec_data(),
            final(self).spec_max() == old(self).spec_max(),
            final(self).spec_len() == old(self).spec_len() - min_erase,
            final(self).contents() == old(self).contents().skip(min_erase as int),
            old(self).synced() ==> final(self).synced(),
            final(self).spec_len() == 0 ==> final(self).spec_head() == 0 && final(self).spec_tail()
                == 0,
            final(self).spec_len() > 0 ==> final(self).spec_tail() == old(self).spec_tail(),
    {
        self.len = self.len - min_erase;
        self.head = self.head + min_erase;
        self.head = self.wrap_in_buffer(self.head);
        if self.is_empty() {
            self.head = 0;
            self.tail = 0;
        }
        proof {
            let cap = self.data@.len() as int;
            let h0 = old(self).head as int;
            let m = min_erase as int;
            if self.len > 0 {
                assert forall|i: int| 0 <= i < self.len implies #[trigger] self.contents()[i]
                    == old(self).contents().skip(m)[i] by {
                    lemma_mod_shift(h0 + m, i, cap);
                    assert(h0 + m + i == h0 + (m + i));
                }
                if old(self).synced() {
                    lemma_mod_shift(h0 + m, self.len as int, cap);
                    assert(h0 + m + self.len == h0 + old(self).len);
                    assert(self.head == (h0 + m) % cap);
                    assert((self.head + self.len) % cap == (h0 + old(self).len) % cap);
                }
            }
            assert(self.contents() =~= old(self).contents().skip(m));
        }
    }

    /// Same as [`RingBuffer::erase`].
    #[allow(dead_code)]
    fn erase_tracked(&mut self, min_erase: usize)
        requires
            old(self).wf(),
            min_erase <= old(self).spec_len(),
            old(self).spec_capacity() > 0,
        ensures
            final(self).wf(),
            final(self).spec_data() == old(self).spec_data(),
            final(self).spec_max() == old(self).spec_max(),
            final(self).spec_len() == old(self).spec_len() - min_erase,
            final(self).contents() == old(self).contents().skip(min_erase as int),
            old(self).synced() ==> final(self).synced(),
    {
        self.erase(min_erase)
    }

    /// Drops `amount` of the oldest bytes by moving the head forward; unlike
    /// [`RingBuffer::erase`] an emptied buffer keeps its positions.
    pub fn take(&mut self, amount: usize)
        requires
            old(self).wf(),
            amount <= old(self).spec_len(),
            old(self).spec_capacity() > 0,
        ensures
            final(self).wf(),
            final(self).spec_data() == old(self).spec_data(),
            final(self).spec_max() == old(self).spec_max(),
            final(self).spec_len() == old(self).spec_len() - amount,
            final(self).contents() == old(self).contents().skip(amount as int),
            final(self).spec_tail() == old(self).spec_tail(),
            old(self).synced() ==> final(self).synced(),
    {
        self.len = self.len - amount;
        self.head = self.wrap_in_buffer(self.head + amount);
        self.tail = self.wrap_in_buffer(self.tail);
        proof {
            let cap = self.data@.len() as int;
            let h0 = old(self).head as int;
            let m = amount as int;
            assert(self.tail == old(self).tail) by {
                vstd::arithmetic::div_mod::lemma_small_mod(old(self).tail as nat, cap as nat);
            }
            assert forall|i: int| 0 <= i < self.len implies #[trigger] self.contents()[i]
                == old(self).contents().skip(m)[i] by {
                lemma_mod_shift(h0 + m, i, cap);
                assert(h0 + m + i == h0 + (m + i));
            }
            if old(self).synced() {
                lemma_mod_shift(h0 + m, self.len as int, cap);
                assert(h0 + m + self.len == h0 + old(self).len);
                assert(self.head == (h0 + m) % cap);
                assert((self.head + self.len) % cap == (h0 + old(self).len) % cap);
            }
            assert(self.contents() =~= old(self).contents().skip(m));
        }
    }

    /// Makes room for `amount` more bytes: grows the storage to the next power
    /// of two that holds them, or to the maximum capacity, dropping the oldest
    /// bytes that do not fit under the maximum.
    fn resize_or_erase(&mut self, amount: usize) -> (r: Result<(), ExceededMaximumCapacity>)
        requires
            old(self).wf(),
            old(self).spec_capacity() + amount <= half(),
            !(old(self).spec_capacity() == 0 && amount == old(self).spec_max()),
        ensures
            r is Err <==> spec_npot(amount as nat + old(self).spec_capacity()) >= old(self).spec_max()
                && old(self).spec_max() < amount,
            r is Err ==> *final(self) == *old(self),
            r is Ok ==> old(self).made_room(&*final(self), amount as nat),
            final(self).wf(),
    {
        proof {
            lemma_npot((amount + self.data@.len()) as nat);
            lemma_half_pow2();
        }
        let ghost before = *self;
        let old_capacity = self.current_capacity();
        let mut preposed_capacity = next_power_of_two(amount + old_capacity);

        if preposed_capacity >= self.max_capacity {
            preposed_capacity = self.max_capacity;
            if preposed_capacity < amount {
                return Err(ExceededMaximumCapacity);
            }
            if amount >= preposed_capacity - self.len {
                let min_erase = amount - (preposed_capacity - self.len);
                self.erase(min_erase);
            }
        }
        let ghost erased = *self;
        proof {
            assert(erased.spec_len() == before.spec_len() - spec_drop(
                before.spec_len(),
                amount as nat,
                before.spec_max(),
            ));
            assert(erased.spec_capacity() == before.spec_capacity());
        }

        if old_capacity != preposed_capacity {
            proof {
                // the new capacity is a power of two at least twice the old one
                if self.max_capacity != usize::MAX && preposed_capacity == self.max_capacity {
                    assert(is_pow2(self.max_capacity as nat));
                } else {
                    assert(preposed_capacity as nat == spec_npot(
                        (amount + old_capacity) as nat,
                    ));
                }
                assert(is_pow2(preposed_capacity as nat));
                if old_capacity > 0 {
                    lemma_pow2_double(old_capacity as nat, preposed_capacity as nat);
                }
            }
            self.data.resize(preposed_capacity, 0);
            if self.tail <= self.head {
                let tail = self.tail;
                let ghost resized = self.data@;
                let mut j: usize = 0;
                while j < tail
                    invariant
                        j <= tail,
                        tail <= old_capacity,
                        old_capacity + tail <= self.data@.len(),
                        self.data@.len() <= half(),
                        self.data@.len() == resized.len(),
                        self.tail == tail,
                        self.head == erased.head,
                        self.len == erased.len,
                        self.max_capacity == erased.max_capacity,
                        tail <= self.head,
                        forall|k: int|
                            0 <= k < self.data@.len() && !(old_capacity <= k < old_capacity + j)
                                ==> #[trigger] self.data@[k] == resized[k],
                        forall|k: int|
                            old_capacity <= k < old_capacity + j ==> #[trigger] self.data@[k]
                                == resized[k - old_capacity],
                    decreases tail - j,
                {
                    let b = self.data[j];
                    self.data.set(old_capacity + j, b);
                    j += 1;
                }
                self.tail = self.tail + old_capacity;
            }
            proof {
                self.lemma_grow_contents(erased, old_capacity as nat);
            }
        } else {
            proof {
                if erased.spec_len() + amount > erased.spec_capacity() {
                    // no growth only happens when the capacity is already the target
                    lemma_npot_of_pow2(old_capacity as nat);
                }
            }
        }
        proof {
            let after = *self;
            let drop = spec_drop(before.spec_len(), amount as nat, before.spec_max());
            assert(after.spec_max() == before.spec_max());
            assert(after.spec_capacity() == before.grow_target(amount as nat));
            assert(after.spec_len() == before.spec_len() - drop);
            assert(after.spec_len() + amount <= after.spec_capacity());
            assert(before.synced() ==> after.contents() == before.contents().skip(drop as int));
            assert(before.synced() && !before.resize_breaks_sync(amount as nat) ==> after.synced());
            assert(after.wf());
        }
        Ok(())
    }

    /// Puts `data` at the write position, wrapping around the storage, and
    /// counts it as queued. There must be room for it.
    fn write_at_tail(&mut self, data: &[u8])
        requires
            old(self).wf(),
            old(self).spec_capacity() > 0,
            old(self).spec_len() + data@.len() <= old(self).spec_capacity(),
        ensures
            final(self).wf(),
            final(self).spec_max() == old(self).spec_max(),
            final(self).spec_capacity() == old(self).spec_capacity(),
            final(self).spec_len() == old(self).spec_len() + data@.len(),
            old(self).synced() ==> final(self).synced() && final(self).contents()
                == old(self).contents() + data@,
    {
        let ghost before = *self;
        let cap = self.data.len();
        let n = data.len();
        self.len = self.len + n;
        let start = self.tail;
        self.tail = self.wrap_in_buffer(self.tail + n);
        let mut i: usize = 0;
        while i < n
            invariant
                i <= n,
                n == data@.len(),
                cap == self.data@.len(),
                cap == before.data@.len(),
                0 < cap <= half(),
                start < cap,
                n <= cap,
                self.head == before.head,
                self.len == before.len + n,
                self.tail == (start + n) % (cap as int),
                self.max_capacity == before.max_capacity,
                forall|p: int|
                    0 <= p < cap ==> ((p - start) % (cap as int) < i ==> #[trigger] self.data@[p]
                        == data@[(p - start) % (cap as int)]) && ((p - start) % (cap as int) >= i
                        ==> self.data@[p] == before.data@[p]),
            decreases n - i,
        {
            let pos = (start + i) % cap;
            proof {
                assert((pos - start) % (cap as int) == i) by {
                    if start + i < cap {
                        vstd::arithmetic::div_mod::lemma_small_mod((start + i) as nat, cap as nat);
                        vstd::arithmetic::div_mod::lemma_small_mod(i as nat, cap as nat);
                    } else {
                        lemma_mod_once((start + i) as int, cap as int);
                        lemma_mod_neg(i - cap, cap as int);
                    }
                }
            }
            let ghost prev = self.data@;
            self.data.set(pos, data[i]);
            proof {
                assert forall|p: int| 0 <= p < cap implies ((p - start) % (cap as int) < i + 1
                    ==> #[trigger] self.data@[p] == data@[(p - start) % (cap as int)]) && ((p
                    - start) % (cap as int) >= i + 1 ==> self.data@[p] == before.data@[p]) by {
                    if p != pos {
                        lemma_offset_unique(p, pos as int, start as int, cap as int);
                        assert(self.data@[p] == prev[p]);
                    }
                }
            }
            i += 1;
        }
        proof {
            let c = cap as int;
            let h = before.head as int;
            let l0 = before.len as int;
            if before.synced() {
                assert(start == (h + l0) % c);
                assert forall|k: int| 0 <= k < self.len implies #[trigger] self.contents()[k] == (
                before.contents() + data@)[k] by {
                    let p = (h + k) % c;
                    vstd::arithmetic::div_mod::lemma_sub_mod_noop(h + k, h + l0, c);
                    vstd::arithmetic::div_mod::lemma_mod_twice(p - start, c);
                    assert((p - start) % c == (k - l0) % c);
                    if k < l0 {
                        lemma_mod_neg(k - l0, c);
                    } else {
                        vstd::arithmetic::div_mod::lemma_small_mod((k - l0) as nat, c as nat);
                    }
                }
                assert(self.contents() =~= before.contents() + data@);
                lemma_mod_shift(h + l0, n as int, c);
            }
        }
    }

    /// Appends `data`, growing the storage or dropping the oldest bytes when it
    /// does not fit. Fails, changing nothing, when `data` is longer than the
    /// maximum capacity.
    pub fn write(&mut self, data: &[u8]) -> (r: Result<(), ExceededMaximumCapacity>)
        requires
            old(self).wf(),
            data@.len() > 0,
            old(self).spec_capacity() < old(self).spec_len() + data@.len() ==> old(
                self,
            ).spec_capacity() + data@.len() <= half(),
            !(old(self).spec_capacity() == 0 && data@.len() == old(self).spec_max()),
        ensures
            final(self).wf(),
            r is Err <==> data@.len() > old(self).spec_max(),
            r is Err ==> *final(self) == *old(self),
            r is Ok ==> ({
                let n = data@.len();
                let drop = spec_drop(old(self).spec_len(), n, old(self).spec_max());
                let resized = old(self).spec_capacity() < old(self).spec_len() + n;
                &&& final(self).spec_max() == old(self).spec_max()
                &&& final(self).spec_len() == old(self).spec_len() - drop + n
                &&& final(self).spec_capacity() == if resized {
                    old(self).grow_target(n)
                } else {
                    old(self).spec_capacity()
                }
                &&& old(self).synced() && !(resized && old(self).resize_breaks_sync(n)) ==> {
                    &&& final(self).contents() == old(self).contents().skip(drop as int) + data@
                    &&& final(self).synced()
                }
            }),
    {
        let ghost before = *self;
        if self.current_capacity() < self.len + data.len() {
            self.resize_or_erase(data.len())?;
        }
        proof {
            lemma_npot(data@.len() + before.spec_capacity());
        }
        self.write_at_tail(data);
        Ok(())
    }

    /// Appends `data` preceded by its length in two bytes, big-endian, making
    /// room for both as [`RingBuffer::write`] does. Fails, changing nothing,
    /// when `data` is longer than `u16::MAX` or the framed bytes are longer than
    /// the maximum capacity.
    pub fn write_tracked(&mut self, data: &[u8]) -> (r: Result<(), ExceededMaximumCapacity>)
        requires
            old(self).wf(),
            data@.len() > 0,
            old(self).spec_capacity() + data@.len() + 2 <= half(),
            !(old(self).spec_capacity() == 0 && data@.len() + 2 == old(self).spec_max()),
        ensures
            final(self).wf(),
            r is Err <==> data@.len() > 0xFFFF || data@.len() + 2 > old(self).spec_max(),
            r is Err ==> *final(self) == *old(self),
            r is Ok ==> ({
                let n = data@.len() + 2;
                let drop = spec_drop(old(self).spec_len(), n, old(self).spec_max());
                &&& final(self).spec_max() == old(self).spec_max()
                &&& final(self).spec_len() == old(self).spec_len() - drop + n
                &&& final(self).spec_capacity() == old(self).grow_target(n)
                &&& old(self).synced() && !old(self).resize_breaks_sync(n) ==> {
                    &&& final(self).contents() == old(self).contents().skip(drop as int)
                        + be_bytes(data@.len(), 2) + data@
                    &&& final(self).synced()
                }
            }),
    {
        let size = data.len();
        let total_size = size + 2;
        if size > 0xFFFF {
            return Err(ExceededMaximumCapacity);
        }
        self.resize_or_erase(total_size)?;
        let header = [(size / 0x100) as u8, (size % 0x100) as u8];
        proof {
            reveal_with_fuel(be_bytes, 3);
            assert(header@ =~= be_bytes(size as nat, 2));
        }
        self.write_at_tail(header.as_slice());
        self.write_at_tail(data);
        proof {
            assert(be_bytes(size as nat, 2) + data@ == be_bytes(size as nat, 2) + data@);
        }
        Ok(())
    }

    /// Appends the concatenation of `combied`, making room for it as
    /// [`RingBuffer::write`] does.
    pub fn write_combined(&mut self, combied: &[&[u8]]) -> (r: Result<
        (),
        ExceededMaximumCapacity,
    >)
        requires
            old(self).wf(),
            parts_nonempty(combied@),
            old(self).spec_capacity() + parts_bytes(combied@).len() <= half(),
            !(old(self).spec_capacity() == 0 && parts_bytes(combied@).len() == old(
                self,
            ).spec_max()),
        ensures
            final(self).wf(),
            r is Err <==> spec_npot(parts_bytes(combied@).len() + old(self).spec_capacity()) >= old(
                self,
            ).spec_max() && old(self).spec_max() < parts_bytes(combied@).len(),
            r is Err ==> *final(self) == *old(self),
            r is Ok ==> ({
                let n = parts_bytes(combied@).len();
                let drop = spec_drop(old(self).spec_len(), n, old(self).spec_max());
                &&& final(self).spec_max() == old(self).spec_max()
                &&& final(self).spec_len() == old(self).spec_len() - drop + n
                &&& final(self).spec_capacity() == old(self).grow_target(n)
                &&& old(self).synced() && !old(self).resize_breaks_sync(n) ==> {
                    &&& final(self).contents() == old(self).contents().skip(drop as int)
                        + parts_bytes(combied@)
                    &&& final(self).synced()
                }
            }),
    {
        let total_size = self.sum_lengths(combied);
        self.resize_or_erase(total_size)?;
        self.write_parts(combied);
        Ok(())
    }

    /// Appends the concatenation of `combied` preceded by its length in two
    /// bytes, big-endian, as [`RingBuffer::write_tracked`] does for one slice.
    pub fn write_combined_tracked(&mut self, combied: &[&[u8]]) -> (r: Result<
        (),
        ExceededMaximumCapacity,
    >)
        requires
            old(self).wf(),
            parts_nonempty(combied@),
            old(self).spec_capacity() + parts_bytes(combied@).len() + 2 <= half(),
            !(old(self).spec_capacity() == 0 && parts_bytes(combied@).len() + 2 == old(
                self,
            ).spec_max()),
        ensures
            final(self).wf(),
            r is Err <==> parts_bytes(combied@).len() > 0xFFFF || parts_bytes(combied@).len() + 2
                > old(self).spec_max(),
            r is Err ==> *final(self) == *old(self),
            r is Ok ==> ({
                let n = parts_bytes(combied@).len() + 2;
                let drop = spec_drop(old(self).spec_len(), n, old(self).spec_max());
                &&& final(self).spec_max() == old(self).spec_max()
                &&& final(self).spec_len() == old(self).spec_len() - drop + n
                &&& final(self).spec_capacity() == old(self).grow_target(n)
                &&& old(self).synced() && !old(self).resize_breaks_sync(n) ==> {
                    &&& final(self).contents() == old(self).contents().skip(drop as int)
                        + be_bytes(parts_bytes(combied@).len(), 2) + parts_bytes(combied@)
                    &&& final(self).synced()
                }
            }),
    {
        let size = self.sum_lengths(combied);
        let total_size = size + 2;
        if size > 0xFFFF {
            return Err(ExceededMaximumCapacity);
        }
        self.resize_or_erase(total_size)?;
        let header = [(size / 0x100) as u8, (size % 0x100) as u8];
        proof {
            reveal_with_fuel(be_bytes, 3);
            assert(header@ =~= be_bytes(size as nat, 2));
        }
        self.write_at_tail(header.as_slice());
        let ghost mid = *self;
        self.write_parts(combied);
        proof {
            assert(self.contents() == mid.contents() + parts_bytes(combied@)
                || !mid.synced());
        }
        Ok(())
    }

    /// The total length of the parts.
    fn sum_lengths(&self, combied: &[&[u8]]) -> (r: usize)
        requires
            parts_bytes(combied@).len() <= half(),
        ensures
            r == parts_bytes(combied@).len(),
    {
        let mut total: usize = 0;
        let mut i: usize = 0;
        while i < combied.len()
            invariant
                i <= combied@.len(),
                total == parts_bytes(combied@.take(i as int)).len(),
                parts_bytes(combied@).len() <= half(),
            decreases combied@.len() - i,
        {
            proof {
                lemma_parts_bytes_take(combied@, i as int);
                lemma_parts_bytes_len_mono(combied@, i + 1);
            }
            total = total + combied[i].len();
            i += 1;
        }
        proof {
            assert(combied@.take(i as int) =~= combied@);
        }
        total
    }

    /// Writes each part at the write position; there must be room for all.
    fn write_parts(&mut self, combied: &[&[u8]])
        requires
            old(self).wf(),
            old(self).spec_capacity() > 0 || parts_bytes(combied@).len() == 0,
            old(self).spec_len() + parts_bytes(combied@).len() <= old(self).spec_capacity(),
        ensures
            final(self).wf(),
            final(self).spec_max() == old(self).spec_max(),
            final(self).spec_capacity() == old(self).spec_capacity(),
            final(self).spec_len() == old(self).spec_len() + parts_bytes(combied@).len(),
            old(self).synced() ==> final(self).synced() && final(self).contents()
                == old(self).contents() + parts_bytes(combied@),
    {
        let ghost before = *self;
        let mut i: usize = 0;
        proof {
            assert(combied@.take(0) =~= Seq::<&[u8]>::empty());
            assert(before.contents() + parts_bytes(combied@.take(0)) =~= before.contents());
        }
        while i < combied.len()
            invariant
                i <= combied@.len(),
                self.wf(),
                before.spec_capacity() > 0 || parts_bytes(combied@).len() == 0,
                before.spec_len() + parts_bytes(combied@).len() <= before.spec_capacity(),
                self.spec_max() == before.spec_max(),
                self.spec_capacity() == before.spec_capacity(),
                self.spec_len() == before.spec_len() + parts_bytes(combied@.take(i as int)).len(),
                before.synced() ==> self.synced() && self.contents() == before.contents()
                    + parts_bytes(combied@.take(i as int)),
            decreases combied@.len() - i,
        {
            proof {
                lemma_parts_bytes_take(combied@, i as int);
                lemma_parts_bytes_len_mono(combied@, i + 1);
            }
            let part = combied[i];
            if part.len() > 0 {
                self.write_at_tail(part);
            } else {
                proof {
                    assert(part@ =~= Seq::<u8>::empty());
                }
            }
            proof {
                assert(parts_bytes(combied@.take(i + 1)) == parts_bytes(combied@.take(i as int))
                    + part@);
                assert(before.contents() + parts_bytes(combied@.take(i + 1)) =~= before.contents()
                    + parts_bytes(combied@.take(i as int)) + part@);
            }
            i += 1;
        }
        proof {
            assert(combied@.take(i as int) =~= combied@);
        }
    }

    /// Takes the oldest frame, a two-byte big-endian length and that many bytes,
    /// copying it into `buf` and dropping it from the queue; returns the frame's
    /// size with its length bytes, or 0 when fewer than two bytes are queued.
    /// The frame must be queued whole and must either lie in one piece of the
    /// storage and fit in `buf`, or fill the whole storage with `buf` exactly as
    /// long.
    pub fn take_tracked(&mut self, buf: &mut [u8]) -> (r: Result<usize, ()>)
        requires
            old(self).wf(),
            old(self).spec_len() >= 2 ==> ({
                let l = be_value(old(self).contents().take(2));
                &&& l + 2 <= old(self).spec_len()
                &&& (old(self).spec_head() + l + 2 < old(self).spec_capacity() && l + 2 <= old(
                    buf,
                )@.len()) || (l + 2 == old(self).spec_capacity() && old(buf)@.len() == old(
                    self,
                ).spec_capacity())
            }),
        ensures
            final(self).wf(),
            old(self).spec_len() < 2 ==> r == Ok::<usize, ()>(0) && *final(self) == *old(self)
                && final(buf)@ == old(buf)@,
            old(self).spec_len() >= 2 ==> ({
                let l = be_value(old(self).contents().take(2));
                &&& r == Ok::<usize, ()>((l + 2) as usize)
                &&& final(buf)@ == old(self).contents().take(l + 2 as int) + old(buf)@.skip(l + 2 as int)
                &&& final(self).contents() == old(self).contents().skip(l + 2 as int)
                &&& final(self).spec_capacity() == old(self).spec_capacity()
                &&& final(self).spec_max() == old(self).spec_max()
                &&& old(self).synced() ==> final(self).synced()
            }),
    {
        if self.len() < 2 {
            return Ok(0);
        }
        let ghost before = *self;
        let ghost c = self.data@.len() as int;
        let ghost h = self.head as int;
        let b0 = self.data[self.head];
        let b1 = self.data[self.wrap_in_buffer(self.head + 1)];
        let len = b0 as usize * 0x100 + b1 as usize;
        proof {
            vstd::arithmetic::div_mod::lemma_small_mod(h as nat, c as nat);
            reveal_with_fuel(be_value, 3);
            assert(before.contents().take(2) =~= seq![b0, b1]);
        }
        let start = self.wrap_in_buffer(self.head);
        let end = self.wrap_in_buffer(self.head + 2 + len);
        let frame = len + 2;
        let ghost buf0 = buf@;
        if end <= start {
            proof {
                if h + frame < c {
                    vstd::arithmetic::div_mod::lemma_small_mod((h + frame) as nat, c as nat);
                }
                lemma_mod_once(h + frame, c);
            }
            let v = self.current_capacity() - end;
            let mut i: usize = 0;
            while i < v
                invariant
                    i <= v,
                    v == c - start,
                    start == h,
                    end == h,
                    frame == c,
                    c == self.data@.len(),
                    buf@.len() == c,
                    before.len == c,
                    self.len == before.len,
                    self.head == before.head,
                    h == before.head,
                    c == before.data@.len(),
                    self.data@ == before.data@,
                    forall|k: int| 0 <= k < i ==> buf@[k] == before.contents()[k],
                decreases v - i,
            {
                let ghost bprev = buf@;
                buf[i] = self.data[start + i];
                proof {
                    vstd::arithmetic::div_mod::lemma_small_mod((h + i) as nat, c as nat);
                    assert(0 <= i < before.spec_len());
                    assert(before.spec_capacity() as int == c);
                    assert(before.spec_head() as int == h);
                    assert(before.contents()[i as int] == before.spec_data()[(before.spec_head() + i) % (before.spec_capacity() as int)]);
                    assert(buf@[i as int] == before.contents()[i as int]);
                    assert forall|k: int| 0 <= k < i + 1 implies buf@[k] == before.contents()[k] by {
                        if k < i {
                            assert(buf@[k] == bprev[k]);
                        }
                    }
                }
                i += 1;
            }
            let mut j: usize = 0;
            while j < end
                invariant
                    j <= end,
                    v == c - start,
                    start == h,
                    end == h,
                    frame == c,
                    c == self.data@.len(),
                    buf@.len() == c,
                    before.len == c,
                    self.len == before.len,
                    self.head == before.head,
                    h == before.head,
                    c == before.data@.len(),
                    self.data@ == before.data@,
                    forall|k: int| 0 <= k < v + j ==> buf@[k] == before.contents()[k],
                decreases end - j,
            {
                let ghost bprev = buf@;
                buf[v + j] = self.data[j];
                proof {
                    lemma_mod_once(h + v + j, c);
                    assert(before.contents()[v + j] == before.data@[(h + v + j) % c]);
                    assert forall|k: int| 0 <= k < v + j + 1 implies buf@[k] == before.contents()[k] by {
                        if k < v + j {
                            assert(buf@[k] == bprev[k]);
                        }
                    }
                }
                j += 1;
            }
            proof {
                assert(buf@ =~= before.contents().take(frame as int) + buf0.skip(frame as int));
            }
        } else {
            proof {
                if h + frame >= c {
                    lemma_mod_once(h + frame, c);
                    assert(false);
                }
                vstd::arithmetic::div_mod::lemma_small_mod((h + frame) as nat, c as nat);
            }
            let mut i: usize = 0;
            while i < frame
                invariant
                    i <= frame,
                    start == h,
                    end == h + frame,
                    end < c,
                    c == self.data@.len(),
                    buf@.len() == buf0.len(),
                    frame <= buf0.len(),
                    frame <= before.len,
                    self.len == before.len,
                    self.head == before.head,
                    h == before.head,
                    c == before.data@.len(),
                    self.data@ == before.data@,
                    forall|k: int| 0 <= k < i ==> buf@[k] == before.contents()[k],
                    forall|k: int| frame <= k < buf0.len() ==> buf@[k] == buf0[k],
                decreases frame - i,
            {
                let ghost bprev = buf@;
                buf[i] = self.data[start + i];
                proof {
                    vstd::arithmetic::div_mod::lemma_small_mod((h + i) as nat, c as nat);
                    assert(0 <= i < before.spec_len());
                    assert(before.spec_capacity() as int == c);
                    assert(before.spec_head() as int == h);
                    assert(before.contents()[i as int] == before.spec_data()[(before.spec_head() + i) % (before.spec_capacity() as int)]);
                    assert(buf@[i as int] == before.contents()[i as int]);
                    assert forall|k: int| 0 <= k < i + 1 implies buf@[k] == before.contents()[k] by {
                        if k < i {
                            assert(buf@[k] == bprev[k]);
                        }
                    }
                }
                i += 1;
            }
            proof {
                assert(buf@ =~= before.contents().take(frame as int) + buf0.skip(frame as int));
            }
        }
        self.erase(frame);
        Ok(frame)
    }

    /// Empties the buffer and releases its storage.
    pub fn clear(&mut self)
        requires
            old(self).wf(),
        ensures
            final(self).wf(),
            final(self).contents() == Seq::<u8>::empty(),
            final(self).spec_capacity() == 0,
            final(self).spec_max() == old(self).spec_max(),
            final(self).synced(),
    {
        self.data.clear();
        self.len = 0;
        self.head = 0;
        self.tail = 0;
        proof {
            assert(self.contents() =~= Seq::<u8>::empty());
        }
    }
}

impl Default for RingBuffer {
    /// A buffer whose maximum capacity is zero: every write to it fails.
    fn default() -> (r: Self)
        ensures
            r.wf(),
            r.contents() == Seq::<u8>::empty(),
            r.spec_capacity() == 0,
            r.spec_max() == 0,
            r.synced(),
    {
        Self { head: 0, tail: 0, len: 0, max_capacity: 0, data: Vec::new() }
    }
}

impl RingBuffer {
    /// Growing the storage keeps the queued bytes of a synced buffer, and keeps it
    /// synced unless it was empty.
    proof fn lemma_grow_contents(&self, before: Self, old_cap: nat)
        requires
            before.wf(),
            old_cap == before.spec_capacity(),
            old_cap < self.spec_capacity(),
            old_cap > 0 ==> 2 * old_cap <= self.spec_capacity(),
            self.spec_head() == before.spec_head(),
            self.spec_len() == before.spec_len(),
            forall|k: int| 0 <= k < old_cap ==> #[trigger] self.spec_data()[k] == before.spec_data()[k],
            before.spec_tail() <= before.spec_head() ==> self.spec_tail() == before.spec_tail()
                + old_cap && forall|k: int|
                old_cap <= k < old_cap + before.spec_tail() ==> #[trigger] self.spec_data()[k]
                    == before.spec_data()[k - old_cap],
            before.spec_tail() > before.spec_head() ==> self.spec_tail() == before.spec_tail(),
        ensures
            before.synced() ==> self.contents() == before.contents(),
            before.synced() && (old_cap == 0 || before.spec_len() > 0) ==> self.synced(),
    {
        if old_cap == 0 {
            assert(self.contents() =~= before.contents());
            return ;
        }
        let cap = self.spec_capacity() as int;
        let oc = old_cap as int;
        let h = before.spec_head() as int;
        let len = before.spec_len() as int;
        let t = before.spec_tail() as int;
        if before.synced() {
            if h + len >= oc {
                if len > 0 {
                    lemma_mod_once(h + len, oc);
                    assert(t == h + len - oc);
                }
            } else {
                vstd::arithmetic::div_mod::lemma_small_mod((h + len) as nat, oc as nat);
            }
            assert forall|i: int| 0 <= i < len implies #[trigger] self.contents()[i]
                == before.contents()[i] by {
                vstd::arithmetic::div_mod::lemma_small_mod((h + i) as nat, cap as nat);
                if h + i < oc {
                    vstd::arithmetic::div_mod::lemma_small_mod((h + i) as nat, oc as nat);
                } else {
                    lemma_mod_once(h + i, oc);
                }
            }
            assert(self.contents() =~= before.contents());
            if len > 0 {
                vstd::arithmetic::div_mod::lemma_small_mod((h + len) as nat, cap as nat);
            }
        }
    }
}


/// A record queued with its length in front comes out whole and first: the
/// length read from the front of the queue names the record, taking the frame
/// gives the length and the record back, and what was queued after it stays.
pub proof fn law_frame_roundtrip(data: Seq<u8>, rest: Seq<u8>)
    requires
        data.len() <= 0xFFFF,
    ensures
        ({
            let q = be_bytes(data.len(), 2) + data + rest;
            &&& be_value(q.take(2)) == data.len()
            &&& q.take(data.len() + 2 as int) == be_bytes(data.len(), 2) + data
            &&& q.skip(data.len() + 2 as int) == rest
        }),
{
    let h = be_bytes(data.len(), 2);
    let q = h + data + rest;
    lemma_be_bytes_len(data.len(), 2);
    assert(q.take(2) =~= h);
    lemma_be_value_of_bytes(data.len(), 2);
    assert(pow256(2) == 65536) by {
        reveal_with_fuel(pow256, 3);
    }
    assert(q.take(data.len() + 2 as int) =~= h + data);
    assert(q.skip(data.len() + 2 as int) =~= rest);
}

} // verus!
