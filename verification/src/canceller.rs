//! The cooperative cancellation flag that every worker polls.

use vstd::prelude::*;

verus! {

/// A flag that is clear at first and, once set, stays set.
#[derive(Debug)]
pub struct Canceller {
    is_cancel: bool,
}

impl Canceller {
    /// Whether cancellation has been asked for.
    pub closed spec fn spec_is_cancel(&self) -> bool {
        self.is_cancel
    }

    pub fn new() -> (res: Canceller)
        ensures
            !res.spec_is_cancel(),
    {
        Canceller { is_cancel: false }
    }

    pub fn is_cancel(&self) -> (res: bool)
        ensures
            res == self.spec_is_cancel(),
    {
        self.is_cancel
    }

    /// Asks every worker to stop before its next job.
    pub fn cancel(&mut self)
        ensures
            final(self).spec_is_cancel(),
    {
        self.is_cancel = true;
    }
}

} // verus!
