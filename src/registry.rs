//! The module registry's decisions: when a worker event changes the set of
//! registered modules, and what the cancellation cascade writes.

use vstd::prelude::*;
use crate::types::{JobInfo, JobOutcome, JobResult, ModuleId, ModuleInfo, ResultView};

verus! {

/// Whether a registration adds its module to the registered set, given the
/// worker count just after the increment: only the first worker does.
pub fn registration_adds_module(workers: i64) -> (r: bool)
    ensures
        r == (workers == 1),
{
    workers == 1
}

/// What a shutdown event leads to.
#[derive(Debug, Clone, Copy, PartialEq, Eq, Structural)]
pub enum ShutdownAction {
    /// Other workers of the module are still alive.
    KeepRunning,
    /// The last worker is gone: deregister the module and run the cascade.
    /// `negative` is set where the count fell below zero, which only a
    /// shutdown without a matching registration causes.
    ShutDown { negative: bool },
}

/// The action for a shutdown event, given the worker count just after the
/// decrement.
pub fn shutdown_action(remaining: i64) -> (r: ShutdownAction)
    ensures
        remaining > 0 ==> r == ShutdownAction::KeepRunning,
        remaining <= 0 ==> r == (ShutdownAction::ShutDown { negative: remaining < 0 }),
{
    if remaining > 0 {
        ShutdownAction::KeepRunning
    } else {
        ShutdownAction::ShutDown { negative: remaining < 0 }
    }
}

/// The result recorded for a job whose module shut down before running it.
pub open spec fn cancelled_view(job_id: i32) -> ResultView {
    (job_id, JobOutcome::Cancelled, Seq::empty())
}

/// The cancellation record of `job`.
pub fn cancelled_result(job: &JobInfo) -> (r: JobResult)
    ensures
        r@ == cancelled_view(job.job_id),
{
    JobResult { job_id: job.job_id, outcome: JobOutcome::Cancelled, points: Vec::new() }
}

/// The cancellation records of a drained work queue, one per job, in order.
pub fn cancelled_results(jobs: &Vec<JobInfo>) -> (r: Vec<JobResult>)
    ensures
        r@.len() == jobs@.len(),
        forall|i: int| 0 <= i < jobs@.len() ==> r@[i]@ == cancelled_view(#[trigger] jobs@[i].job_id),
{
    let mut out: Vec<JobResult> = Vec::new();
    let mut i: usize = 0;
    while i < jobs.len()
        invariant
            i <= jobs@.len(),
            out@.len() == i,
            forall|j: int| 0 <= j < i ==> out@[j]@ == cancelled_view(#[trigger] jobs@[j].job_id),
        decreases jobs@.len() - i,
    {
        out.push(cancelled_result(&jobs[i]));
        i = i + 1;
    }
    out
}

/// The modules among store entries, in order; `None` stands for an entry
/// that could not be read and is skipped.
pub open spec fn readable_modules(entries: Seq<Option<ModuleInfo>>) -> Seq<ModuleId>
    decreases entries.len(),
{
    if entries.len() == 0 {
        Seq::empty()
    } else {
        readable_modules(entries.drop_last()) + match entries.last() {
            Some(m) => seq![m@],
            None => Seq::empty(),
        }
    }
}

/// The identities of a list of modules.
pub open spec fn module_ids(v: Seq<ModuleInfo>) -> Seq<ModuleId> {
    v.map_values(|m: ModuleInfo| m@)
}

/// The registered modules, from the entries of the registered-module set as
/// read from the store; entries that could not be read are skipped.
pub fn get_registered_modules(entries: &Vec<Option<ModuleInfo>>) -> (r: Vec<ModuleInfo>)
    ensures
        module_ids(r@) == readable_modules(entries@),
{
    let mut out: Vec<ModuleInfo> = Vec::new();
    let mut i: usize = 0;
    while i < entries.len()
        invariant
            i <= entries@.len(),
            module_ids(out@) == readable_modules(entries@.take(i as int)),
        decreases entries@.len() - i,
    {
        proof {
            assert(entries@.take(i + 1).drop_last() =~= entries@.take(i as int));
        }
        match &entries[i] {
            Some(m) => {
                let ghost before = out@;
                out.push(m.duplicate());
                assert(module_ids(out@) =~= module_ids(before) + seq![m@]);
            },
            None => {},
        }
        i = i + 1;
    }
    assert(entries@.take(entries@.len() as int) =~= entries@);
    out
}

} // verus!
