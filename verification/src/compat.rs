//! A shell for values handed across the async runtime boundary.
//!
//! Work that suspends — page and profile fetches — runs outside this crate
//! on an async runtime whose futures must be polled and dropped inside the
//! runtime's context.  The poll adapter doing that lives with the runtime;
//! what is kept here is the shell it projects into: a slot that is filled
//! once at construction and emptied once, so a value is never consumed
//! twice.

use vstd::prelude::*;

verus! {

/// A slot filled at construction and emptied at most once.
pub struct Compat<T> {
    inner: Option<T>,
}

impl<T> Compat<T> {
    /// What the shell currently holds.
    pub closed spec fn value(self) -> Option<T> {
        self.inner
    }

    /// Wraps `t` in a fresh shell.
    pub fn new(t: T) -> (c: Compat<T>)
        ensures
            c.value() == Some(t),
    {
        Compat { inner: Some(t) }
    }

    /// Empties the shell, handing the value out exactly once.
    pub fn take(&mut self) -> (t: Option<T>)
        ensures
            t == old(self).value(),
            final(self).value() is None,
    {
        self.inner.take()
    }

    /// Whether the shell still holds its value.
    pub fn is_engaged(&self) -> (b: bool)
        ensures
            b == (self.value() is Some),
    {
        self.inner.is_some()
    }
}

} // verus!
