//! Readings of a tokio runtime that only this module can make: each is a value of a type
//! whose field is private here, so that a value of it is always one that was read, and by
//! the reading its type names.

use tokio::runtime::RuntimeMetrics;
use vstd::prelude::*;

verus! {

/// A reading of the number of worker threads of a runtime.
pub struct WorkerCount {
    value: usize,
}

impl View for WorkerCount {
    type V = usize;

    closed spec fn view(&self) -> usize {
        self.value
    }
}

impl WorkerCount {
    /// The number that was read.
    pub fn value(&self) -> (r: usize)
        ensures
            r == self@,
    {
        self.value
    }
}

/// A reading of the number of live tasks of a runtime.
pub struct AliveTaskCount {
    value: usize,
}

impl View for AliveTaskCount {
    type V = usize;

    closed spec fn view(&self) -> usize {
        self.value
    }
}

impl AliveTaskCount {
    /// The number that was read.
    pub fn value(&self) -> (r: usize)
        ensures
            r == self@,
    {
        self.value
    }
}

/// A reading of the number of tasks in the global queue of a runtime.
pub struct GlobalQueueDepth {
    value: usize,
}

impl View for GlobalQueueDepth {
    type V = usize;

    closed spec fn view(&self) -> usize {
        self.value
    }
}

impl GlobalQueueDepth {
    /// The number that was read.
    pub fn value(&self) -> (r: usize)
        ensures
            r == self@,
    {
        self.value
    }
}

/// The number of worker threads of the runtime, by `RuntimeMetrics::num_workers`; nothing
/// is claimed of the value read. The runtime it was read from is handed back with it.
#[verifier::external_body]
pub(crate) fn runtime_num_workers(rt: &RuntimeMetrics) -> (r: (WorkerCount, &RuntimeMetrics))
    ensures
        *r.1 == *rt,
{
    (WorkerCount { value: rt.num_workers() }, rt)
}

/// The number of live tasks of the runtime, by `RuntimeMetrics::num_alive_tasks`, a reading
/// that changes as tasks come and go; nothing is claimed of the value read. The runtime it
/// was read from is handed back with it.
#[verifier::external_body]
pub(crate) fn runtime_num_alive_tasks(rt: &RuntimeMetrics) -> (r: (AliveTaskCount, &RuntimeMetrics))
    ensures
        *r.1 == *rt,
{
    (AliveTaskCount { value: rt.num_alive_tasks() }, rt)
}

/// The number of tasks in the runtime's global queue, by
/// `RuntimeMetrics::global_queue_depth`, a reading that changes as tasks are scheduled;
/// nothing is claimed of the value read. The runtime it was read from is handed back with
/// it.
#[verifier::external_body]
pub(crate) fn runtime_global_queue_depth(rt: &RuntimeMetrics) -> (r: (GlobalQueueDepth, &RuntimeMetrics))
    ensures
        *r.1 == *rt,
{
    (GlobalQueueDepth { value: rt.global_queue_depth() }, rt)
}

} // verus!
