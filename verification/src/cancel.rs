//! Stopping a run on the interrupt of the user.
//!
//! A run is stopped once and stays stopped. Stopping does not end the jobs
//! that are running: it keeps new ones from being started.

use vstd::prelude::*;

verus! {

/// Whether a run goes on.
#[derive(Debug)]
pub struct Cancellation {
    running: bool,
}

impl Cancellation {
    /// Whether the run goes on.
    pub closed spec fn spec_is_running(&self) -> bool {
        self.running
    }

    /// A run that goes on.
    pub fn new() -> (c: Cancellation)
        ensures
            c.spec_is_running(),
    {
        Cancellation { running: true }
    }

    /// Whether the run goes on.
    #[verifier::when_used_as_spec(spec_is_running)]
    pub fn is_running(&self) -> (r: bool)
        ensures
            r == self.spec_is_running(),
    {
        self.running
    }

    /// Takes note of an interrupt. The run is stopped from now on. The
    /// answer says whether this interrupt stopped it, which only the first
    /// interrupt does.
    pub fn interrupt(&mut self) -> (first: bool)
        ensures
            !final(self).spec_is_running(),
            first == old(self).spec_is_running(),
    {
        let first = self.running;
        self.running = false;
        first
    }
}

} // verus!
