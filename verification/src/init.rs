//! One-shot initialization: a cell that is written exactly once at
//! startup and only hands out its value after that write.
//!
//! Shared state such as the frame buffer and the channel is
//! constructed once and passed to the tasks at spawn time; this cell
//! makes the one-time construction explicit and refuses both a second
//! initialization and any access before the first.

use vstd::prelude::*;

verus! {

/// A cell initialized at most once.
pub struct InitCell<T> {
    inner: Option<T>,
}

impl<T> InitCell<T> {
    /// The stored value, if the cell has been initialized.
    pub closed spec fn value(&self) -> Option<T> {
        self.inner
    }

    /// An empty, uninitialized cell.
    pub fn new() -> (r: InitCell<T>)
        ensures
            r.value() is None,
    {
        InitCell { inner: None }
    }

    /// Whether the cell has been initialized.
    pub fn is_initialized(&self) -> (r: bool)
        ensures
            r == (self.value() is Some),
    {
        self.inner.is_some()
    }

    /// Store the value, exactly once: a first call succeeds, any
    /// later call refuses and returns the offered value untouched.
    pub fn init(&mut self, value: T) -> (r: Result<(), T>)
        ensures
            old(self).value() is None ==> (r is Ok && final(self).value() == Some(value)),
            old(self).value() is Some ==> (r == Err::<(), T>(value) && final(self).value() == old(
                self,
            ).value()),
    {
        if self.inner.is_none() {
            self.inner = Some(value);
            Ok(())
        } else {
            Err(value)
        }
    }

    /// Surrender the stored value, e.g. to the task that owns it from
    /// then on; nothing comes out of a cell that was never
    /// initialized.
    pub fn into_inner(self) -> (r: Option<T>)
        ensures
            r == self.value(),
    {
        self.inner
    }

    /// Borrow the stored value; nothing comes out of a cell that was
    /// never initialized.
    pub fn get(&self) -> (r: Option<&T>)
        ensures
            match r {
                Some(v) => self.value() == Some(*v),
                None => self.value() is None,
            },
    {
        self.inner.as_ref()
    }
}

} // verus!
