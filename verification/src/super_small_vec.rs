use vstd::prelude::*;

verus! {

/// A list of at most `MAX` values, `MAX` at most 256, whose length fits a byte.
pub struct SuperSmallVec<T, const MAX: usize> {
    data: Vec<T>,
}

/// A list was too long for a [`SuperSmallVec`].
#[derive(Debug, Clone, Copy, PartialEq, Eq, Structural)]
pub struct ExceededMaximunSize;

impl<T, const MAX: usize> View for SuperSmallVec<T, MAX> {
    type V = Seq<T>;

    closed spec fn view(&self) -> Seq<T> {
        self.data@
    }
}

impl<T, const MAX: usize> SuperSmallVec<T, MAX> {
    /// An empty list. A bound above 256 is not accepted.
    pub fn new() -> (r: Self)
        requires
            MAX <= 256,
        ensures
            r@ == Seq::<T>::empty(),
    {
        SuperSmallVec { data: Vec::new() }
    }

    /// Appends a value; the list must have room for it, below `MAX` and below
    /// 255 values.
    pub fn push(&mut self, data: T)
        requires
            old(self)@.len() < MAX,
            old(self)@.len() < 255,
        ensures
            final(self)@ == old(self)@.push(data),
    {
        self.data.push(data);
    }

    /// Takes the last value off. A list of a single value keeps it: only a
    /// list of two or more gives one up.
    pub fn pop(&mut self) -> (r: Option<T>)
        ensures
            old(self)@.len() > 1 ==> r == Some(old(self)@.last()) && final(self)@ == old(
                self,
            )@.drop_last(),
            old(self)@.len() <= 1 ==> r is None && final(self)@ == old(self)@,
    {
        if self.data.len() > 1 {
            self.data.pop()
        } else {
            None
        }
    }

    pub fn len(&self) -> (r: usize)
        ensures
            r == self@.len(),
    {
        self.data.len()
    }

    /// The values, in order.
    pub fn as_slice(&self) -> (r: &[T])
        ensures
            r@ == self@,
    {
        self.data.as_slice()
    }

    /// The values as a `Vec`, in order.
    pub fn into_vec(self) -> (r: Vec<T>)
        ensures
            r@ == self@,
    {
        self.data
    }

    /// Converts a `Vec` of at most `MAX` values. The values are taken out of it
    /// but not kept: the list that comes back is empty.
    pub fn try_from_vec(value: Vec<T>) -> (r: Result<Self, ExceededMaximunSize>)
        requires
            MAX <= 256,
        ensures
            value@.len() > MAX ==> r == Err::<Self, ExceededMaximunSize>(ExceededMaximunSize),
            value@.len() <= MAX ==> (r matches Ok(v) && v@ == Seq::<T>::empty()),
    {
        if value.len() > MAX {
            Err(ExceededMaximunSize)
        } else {
            Ok(SuperSmallVec::new())
        }
    }
}

} // verus!
