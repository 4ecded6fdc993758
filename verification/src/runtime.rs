//! What a runtime for scripts has to offer, and the limits that a script
//! runs under.

use crate::lifecycle::{EngineTask, Step};
use vstd::prelude::*;

verus! {

/// Execution limits placed on scripts running in a runtime.
///
/// Not every runtime supports every limit: some support one, some none.
#[derive(Clone, Copy, PartialEq, Eq, Structural, Debug)]
pub struct Limits {
    /// The size, in bytes, allowed for heap allocations. The runtime may
    /// allocate slightly more than this for its own book-keeping.
    pub heap: Option<usize>,
    /// The time, in nanoseconds, that a script may run before it is killed.
    /// The time that the runtime needs to start may or may not count.
    pub time: Option<u64>,
}

impl Limits {
    /// No limit on memory and none on time.
    pub open spec fn none() -> Limits {
        Limits { heap: None, time: None }
    }
}

impl Default for Limits {
    fn default() -> (limits: Self)
        ensures
            limits == Limits::none(),
    {
        Limits { heap: None, time: None }
    }
}

/// A runtime that executes a query.
///
/// A runtime does not run a script by itself: the engine lives on a thread
/// of the caller's. The runtime says under which limits a script runs and
/// hands out the task whose steps the caller takes.
pub trait QueryRuntime {
    /// The limits that scripts run under in this runtime.
    spec fn limits(&self) -> Limits;

    /// Attempts to set the limits for each script in the runtime. Since not
    /// every runtime supports every limit, the result says what the limits
    /// were actually set to.
    fn set_limits(&mut self, limits: &Limits) -> (set: &Limits)
        ensures
            *set == final(self).limits(),
    ;

    /// Begins the execution of `script`: gives the task that runs the
    /// script under this runtime's limits and has taken no step yet.
    fn execute(&self, script: String) -> (task: EngineTask)
        ensures
            task.limits() == self.limits(),
            task.script() == script@,
            task.due() == Some(Step::GenerateKey),
            task.failure() is None,
    ;
}

/// The runtime for JavaScript. The engine itself is made anew for every
/// request, as the first step of the request's task.
pub struct JSQueryRuntime {
    pub limits: Limits,
}

impl JSQueryRuntime {
    /// A runtime without limits.
    pub fn new() -> (runtime: Self)
        ensures
            runtime.limits == Limits::none(),
    {
        Self { limits: Limits::default() }
    }
}

impl QueryRuntime for JSQueryRuntime {
    open spec fn limits(&self) -> Limits {
        self.limits
    }

    /// This runtime supports both limits, so the result is what was asked
    /// for.
    fn set_limits(&mut self, limits: &Limits) -> (set: &Limits)
        ensures
            final(self).limits == *limits,
            *set == *limits,
    {
        self.limits.heap = limits.heap;
        self.limits.time = limits.time;
        &self.limits
    }

    fn execute(&self, script: String) -> (task: EngineTask) {
        EngineTask::new(self.limits, script)
    }
}

} // verus!
