use vstd::prelude::*;

verus! {

/// A cell holding one value that the single hart of the kernel may access
/// exclusively. Exclusivity is enforced by the borrow of the cell itself.
pub struct UPSafeCell<T> {
    inner: T,
}

impl<T> UPSafeCell<T> {
    /// The value held by the cell.
    pub closed spec fn value(&self) -> T {
        self.inner
    }

    /// Wraps `value` in a cell.
    pub fn new(value: T) -> (cell: Self)
        ensures
            cell.value() == value,
    {
        UPSafeCell { inner: value }
    }

    /// Grants exclusive access to the value; writes through the returned
    /// reference become the cell's new value.
    pub fn exclusive_access(&mut self) -> (r: &mut T)
        ensures
            *r == old(self).value(),
            final(self).value() == *final(r),
    {
        &mut self.inner
    }
}

} // verus!
