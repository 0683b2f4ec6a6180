//! A handle on the port that a projector emulation runs over.

use vstd::prelude::*;

verus! {

/// Borrows the port that the emulation reads requests from and writes
/// replies to.
pub struct Epsonlib<'a, T: 'a> {
    port: &'a mut T,
}

impl<'a, T: 'a> Epsonlib<'a, T> {
    /// Wraps `port`.
    pub fn new(port: &'a mut T) -> (e: Epsonlib<'a, T>)
        ensures
            *e.port() == *old(port),
    {
        Epsonlib { port }
    }

    /// The port, as it is now.
    pub closed spec fn port(&self) -> &T {
        &*self.port
    }

    /// The port, for the loop that drives it.
    pub fn port_mut(&mut self) -> (p: &mut T)
        ensures
            *p == *old(self).port(),
    {
        &mut *self.port
    }
}

} // verus!
