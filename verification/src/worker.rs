//! What the worker pools of all stages share: the size of a pool and the
//! list from which its workers take their jobs.

use vstd::prelude::*;
use crate::canceller::Canceller;
use crate::episode::{views, Episode, EpisodeView};

verus! {

/// The number of workers to start: the configured maximum, but never more
/// than there are jobs.
pub open spec fn spec_pool_size(thread_max: nat, job_count: nat) -> nat {
    if thread_max <= job_count {
        thread_max
    } else {
        job_count
    }
}

pub fn pool_size(thread_max: usize, job_count: usize) -> (res: usize)
    ensures
        res == spec_pool_size(thread_max as nat, job_count as nat),
{
    if thread_max <= job_count {
        thread_max
    } else {
        job_count
    }
}

/// The jobs of one stage that no worker has taken yet.
#[derive(Debug)]
pub struct JobList {
    jobs: Vec<Episode>,
}

impl JobList {
    /// The jobs not yet taken; the last one is taken next.
    pub closed spec fn pending(&self) -> Seq<EpisodeView> {
        views(self.jobs@)
    }

    pub fn new(jobs: Vec<Episode>) -> (res: JobList)
        ensures
            res.pending() == views(jobs@),
    {
        JobList { jobs }
    }

    pub fn len(&self) -> (res: usize)
        ensures
            res == self.pending().len(),
    {
        self.jobs.len()
    }

    /// The job that a worker takes up next, if it is to go on: none once
    /// cancellation is observed, whatever is still pending, and none when the
    /// list is drained. A job in hand is not taken back.
    pub fn next(&mut self, canceller: &Canceller) -> (res: Option<Episode>)
        ensures
            canceller.spec_is_cancel() || old(self).pending().len() == 0 ==> {
                &&& res is None
                &&& final(self).pending() == old(self).pending()
            },
            !canceller.spec_is_cancel() && old(self).pending().len() > 0 ==> {
                &&& res is Some
                &&& res.unwrap()@ == old(self).pending().last()
                &&& final(self).pending() == old(self).pending().drop_last()
            },
    {
        if canceller.is_cancel() {
            return None;
        }
        let job = self.jobs.pop();
        job
    }
}

} // verus!
