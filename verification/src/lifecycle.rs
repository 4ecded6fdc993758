//! The life of one engine task, as the list of steps that the host takes
//! for a request and the rule that says which step comes next.
//!
//! The steps themselves are the caller's work: making the engine, running
//! scripts, arming a timer. The task says what to do next and is told how
//! it went. A step that fails ends the work on the script, but never the
//! task: the results buffer is closed as the last step of every task.

use crate::error::QueryError;
use crate::runtime::Limits;
use vstd::prelude::*;

verus! {

/// One step of an engine task.
#[derive(Clone, Copy, PartialEq, Eq, Structural, Debug)]
pub enum Step {
    /// Draw the key under which this request's cursors are sealed.
    GenerateKey,
    /// Make the engine, with the limit on its heap if there is one.
    CreateEngine,
    /// Register the host's operations with the engine.
    RegisterOps,
    /// Tell the engine that no more operations will be registered.
    FinaliseOps,
    /// Run the built-in script that gives user scripts their interface.
    RunGlue,
    /// Arm the timer that terminates the engine when the time is up.
    ArmTimer,
    /// Run the user's script.
    RunScript,
    /// Drive the engine's event loop until nothing is left to do.
    RunEventLoop,
    /// Close the results buffer.
    CloseResults,
}

/// What the caller is asked to do: a step, with what the step needs of the
/// limits.
#[derive(Clone, Copy, PartialEq, Eq, Structural, Debug)]
pub enum Action {
    GenerateKey,
    CreateEngine { heap: Option<usize> },
    RegisterOps,
    FinaliseOps,
    RunGlue,
    ArmTimer { nanos: u64 },
    RunScript,
    RunEventLoop,
    CloseResults,
}

/// The action for `step` under `limits`.
pub open spec fn action_for(step: Step, limits: Limits) -> Action {
    match step {
        Step::GenerateKey => Action::GenerateKey,
        Step::CreateEngine => Action::CreateEngine { heap: limits.heap },
        Step::RegisterOps => Action::RegisterOps,
        Step::FinaliseOps => Action::FinaliseOps,
        Step::RunGlue => Action::RunGlue,
        Step::ArmTimer => Action::ArmTimer {
            nanos: match limits.time {
                Some(nanos) => nanos,
                None => 0,
            },
        },
        Step::RunScript => Action::RunScript,
        Step::RunEventLoop => Action::RunEventLoop,
        Step::CloseResults => Action::CloseResults,
    }
}

/// The place of a step in the order of the steps.
pub open spec fn rank(step: Step) -> int {
    match step {
        Step::GenerateKey => 0,
        Step::CreateEngine => 1,
        Step::RegisterOps => 2,
        Step::FinaliseOps => 3,
        Step::RunGlue => 4,
        Step::ArmTimer => 5,
        Step::RunScript => 6,
        Step::RunEventLoop => 7,
        Step::CloseResults => 8,
    }
}

/// The step that follows `step` when `step` went well. The timer is armed
/// only where a limit on time is set.
pub open spec fn follows(step: Step, limits: Limits) -> Step {
    match step {
        Step::GenerateKey => Step::CreateEngine,
        Step::CreateEngine => Step::RegisterOps,
        Step::RegisterOps => Step::FinaliseOps,
        Step::FinaliseOps => Step::RunGlue,
        Step::RunGlue => if limits.time is Some {
            Step::ArmTimer
        } else {
            Step::RunScript
        },
        Step::ArmTimer => Step::RunScript,
        Step::RunScript => Step::RunEventLoop,
        Step::RunEventLoop => Step::CloseResults,
        Step::CloseResults => Step::CloseResults,
    }
}

/// The step that comes after `step`: none after the closing of the results
/// buffer, the closing after a step that failed, and the following step
/// after one that went well.
pub open spec fn after(step: Step, limits: Limits, went_well: bool) -> Option<Step> {
    if step == Step::CloseResults {
        None
    } else if went_well {
        Some(follows(step, limits))
    } else {
        Some(Step::CloseResults)
    }
}

/// The steps that a task takes from `step` on, where `goes_well` says of
/// each step whether it goes well.
pub open spec fn steps_from(step: Step, limits: Limits, goes_well: spec_fn(Step) -> bool) -> Seq<
    Step,
>
    decreases 8 - rank(step),
{
    match after(step, limits, goes_well(step)) {
        None => seq![step],
        Some(next) => seq![step] + steps_from(next, limits, goes_well),
    }
}

/// All steps of a task.
pub open spec fn steps(limits: Limits, goes_well: spec_fn(Step) -> bool) -> Seq<Step> {
    steps_from(Step::GenerateKey, limits, goes_well)
}

/// The engine task of one request: the script and the limits it runs
/// under, the step that is due, and the first failure.
pub struct EngineTask {
    limits: Limits,
    script: String,
    due: Option<Step>,
    failure: Option<QueryError>,
}

impl EngineTask {
    /// The limits that the task runs under.
    pub closed spec fn limits(&self) -> Limits {
        self.limits
    }

    /// The text of the script that the task runs.
    pub closed spec fn script(&self) -> Seq<char> {
        self.script@
    }

    /// The step that is due; none when the task has ended.
    pub closed spec fn due(&self) -> Option<Step> {
        self.due
    }

    /// The failure of the first step that failed.
    pub closed spec fn failure(&self) -> Option<QueryError> {
        self.failure
    }

    /// A task for `script` that has taken no step yet.
    pub fn new(limits: Limits, script: String) -> (task: Self)
        ensures
            task.limits() == limits,
            task.script() == script@,
            task.due() == Some(Step::GenerateKey),
            task.failure() is None,
    {
        Self { limits, script, due: Some(Step::GenerateKey), failure: None }
    }

    /// The script that the task runs.
    pub fn source(&self) -> (script: &str)
        ensures
            script@ == self.script(),
    {
        self.script.as_str()
    }

    /// What is to be done now; `None` when the task has ended.
    pub fn action(&self) -> (action: Option<Action>)
        ensures
            action == match self.due() {
                Some(step) => Some(action_for(step, self.limits())),
                None => None,
            },
    {
        match self.due {
            None => None,
            Some(Step::GenerateKey) => Some(Action::GenerateKey),
            Some(Step::CreateEngine) => Some(Action::CreateEngine { heap: self.limits.heap }),
            Some(Step::RegisterOps) => Some(Action::RegisterOps),
            Some(Step::FinaliseOps) => Some(Action::FinaliseOps),
            Some(Step::RunGlue) => Some(Action::RunGlue),
            Some(Step::ArmTimer) => Some(
                Action::ArmTimer {
                    nanos: match self.limits.time {
                        Some(nanos) => nanos,
                        None => 0,
                    },
                },
            ),
            Some(Step::RunScript) => Some(Action::RunScript),
            Some(Step::RunEventLoop) => Some(Action::RunEventLoop),
            Some(Step::CloseResults) => Some(Action::CloseResults),
        }
    }

    /// Takes note of how the step that was due went, and makes the next
    /// step due. The first failure is kept as the outcome of the task. A
    /// task that has ended stays as it is.
    pub fn record(&mut self, result: Result<(), QueryError>)
        ensures
            final(self).limits() == old(self).limits(),
            final(self).script() == old(self).script(),
            final(self).due() == match old(self).due() {
                Some(step) => after(step, old(self).limits(), result is Ok),
                None => None,
            },
            final(self).failure() == match (old(self).due(), old(self).failure(), result) {
                (Some(_), None, Err(error)) => Some(error),
                (_, kept, _) => kept,
            },
    {
        let step = match self.due {
            Some(step) => step,
            None => {
                return ;
            },
        };
        let went_well = match result {
            Ok(_) => true,
            Err(error) => {
                if self.failure.is_none() {
                    self.failure = Some(error);
                }
                false
            },
        };
        self.due = match step {
            Step::CloseResults => None,
            _ => if went_well {
                Some(Self::next_step(step, &self.limits))
            } else {
                Some(Step::CloseResults)
            },
        };
    }

    /// The outcome of the task: the first failure, if a step failed.
    pub fn outcome(self) -> (outcome: Result<(), QueryError>)
        ensures
            outcome == match self.failure() {
                Some(error) => Err::<(), QueryError>(error),
                None => Ok::<(), QueryError>(()),
            },
    {
        match self.failure {
            Some(error) => Err(error),
            None => Ok(()),
        }
    }

    /// The step that follows `step` when `step` went well.
    fn next_step(step: Step, limits: &Limits) -> (next: Step)
        ensures
            next == follows(step, *limits),
    {
        match step {
            Step::GenerateKey => Step::CreateEngine,
            Step::CreateEngine => Step::RegisterOps,
            Step::RegisterOps => Step::FinaliseOps,
            Step::FinaliseOps => Step::RunGlue,
            Step::RunGlue => if limits.time.is_some() {
                Step::ArmTimer
            } else {
                Step::RunScript
            },
            Step::ArmTimer => Step::RunScript,
            Step::RunScript => Step::RunEventLoop,
            Step::RunEventLoop => Step::CloseResults,
            Step::CloseResults => Step::CloseResults,
        }
    }
}

/// However the steps of a task go, the results buffer is closed exactly
/// once, and that is the task's last step.
pub proof fn results_are_closed_once_at_the_end(
    step: Step,
    limits: Limits,
    goes_well: spec_fn(Step) -> bool,
)
    ensures
        steps_from(step, limits, goes_well).len() >= 1,
        steps_from(step, limits, goes_well).last() == Step::CloseResults,
        forall|i: int|
            0 <= i < steps_from(step, limits, goes_well).len() - 1 ==> #[trigger] steps_from(
                step,
                limits,
                goes_well,
            )[i] != Step::CloseResults,
        forall|i: int|
            0 <= i < steps_from(step, limits, goes_well).len() ==> rank(step) <= rank(
                #[trigger] steps_from(step, limits, goes_well)[i],
            ),
    decreases 8 - rank(step),
{
    match after(step, limits, goes_well(step)) {
        None => {},
        Some(next) => {
            results_are_closed_once_at_the_end(next, limits, goes_well);
        },
    }
}

/// The steps are taken in their order, and after a step that fails only
/// the closing of the results buffer follows.
pub proof fn steps_keep_their_order(
    step: Step,
    limits: Limits,
    goes_well: spec_fn(Step) -> bool,
)
    ensures
        forall|i: int, j: int|
            0 <= i < j < steps_from(step, limits, goes_well).len() ==> rank(
                #[trigger] steps_from(step, limits, goes_well)[i],
            ) < rank(#[trigger] steps_from(step, limits, goes_well)[j]),
        forall|i: int|
            0 <= i < steps_from(step, limits, goes_well).len() - 1 && !goes_well(
                #[trigger] steps_from(step, limits, goes_well)[i],
            ) ==> i == steps_from(step, limits, goes_well).len() - 2,
    decreases 8 - rank(step),
{
    match after(step, limits, goes_well(step)) {
        None => {},
        Some(next) => {
            steps_keep_their_order(next, limits, goes_well);
            results_are_closed_once_at_the_end(next, limits, goes_well);
            let rest = steps_from(next, limits, goes_well);
            let all = steps_from(step, limits, goes_well);
            assert forall|i: int, j: int| 0 <= i < j < all.len() implies rank(#[trigger] all[i])
                < rank(#[trigger] all[j]) by {
                if i > 0 {
                    assert(all[i] == rest[i - 1]);
                }
                assert(all[j] == rest[j - 1]);
            }
            assert forall|i: int| 0 <= i < all.len() - 1 && !goes_well(#[trigger] all[i]) implies i
                == all.len() - 2 by {
                if i > 0 {
                    assert(all[i] == rest[i - 1]);
                } else {
                    assert(rest =~= seq![Step::CloseResults]);
                }
            }
        },
    }
}

/// A step is among the steps from `step` on if it is `step` itself or among
/// the steps from the next step on.
pub proof fn step_is_first_or_later(
    step: Step,
    limits: Limits,
    goes_well: spec_fn(Step) -> bool,
    sought: Step,
)
    ensures
        steps_from(step, limits, goes_well).contains(sought) <==> sought == step || match after(
            step,
            limits,
            goes_well(step),
        ) {
            Some(next) => steps_from(next, limits, goes_well).contains(sought),
            None => false,
        },
{
    let all = steps_from(step, limits, goes_well);
    assert(all[0] == step);
    match after(step, limits, goes_well(step)) {
        None => {
            if all.contains(sought) {
                let i = choose|i: int| 0 <= i < all.len() && all[i] == sought;
                assert(i == 0);
            }
        },
        Some(next) => {
            let rest = steps_from(next, limits, goes_well);
            if all.contains(sought) && sought != step {
                let i = choose|i: int| 0 <= i < all.len() && all[i] == sought;
                assert(rest[i - 1] == sought);
            }
            if rest.contains(sought) {
                let i = choose|i: int| 0 <= i < rest.len() && rest[i] == sought;
                assert(all[i + 1] == sought);
            }
        },
    }
}

/// With no limit on time the timer is never armed.
pub proof fn no_limit_no_timer(step: Step, limits: Limits, goes_well: spec_fn(Step) -> bool)
    requires
        limits.time is None,
        step != Step::ArmTimer,
    ensures
        !steps_from(step, limits, goes_well).contains(Step::ArmTimer),
    decreases 8 - rank(step),
{
    step_is_first_or_later(step, limits, goes_well, Step::ArmTimer);
    match after(step, limits, goes_well(step)) {
        None => {},
        Some(next) => {
            no_limit_no_timer(next, limits, goes_well);
        },
    }
}

/// With a limit on time the user's script is not run from an earlier step
/// on without the timer being armed.
pub proof fn limit_arms_timer(step: Step, limits: Limits, goes_well: spec_fn(Step) -> bool)
    requires
        limits.time is Some,
        rank(step) <= rank(Step::ArmTimer),
        steps_from(step, limits, goes_well).contains(Step::RunScript),
    ensures
        steps_from(step, limits, goes_well).contains(Step::ArmTimer),
    decreases 8 - rank(step),
{
    step_is_first_or_later(step, limits, goes_well, Step::ArmTimer);
    step_is_first_or_later(step, limits, goes_well, Step::RunScript);
    if step != Step::ArmTimer {
        match after(step, limits, goes_well(step)) {
            None => {},
            Some(next) => {
                if goes_well(step) {
                    limit_arms_timer(next, limits, goes_well);
                } else {
                    step_is_first_or_later(next, limits, goes_well, Step::RunScript);
                }
            },
        }
    }
}

/// The timer is armed exactly where a limit on time is set: with no limit
/// it is never armed, and with a limit the user's script does not run
/// without it. Together with the order of the steps this puts the arming
/// before the script.
pub proof fn timer_is_armed_before_the_script(limits: Limits, goes_well: spec_fn(Step) -> bool)
    ensures
        limits.time is None ==> !steps(limits, goes_well).contains(Step::ArmTimer),
        steps(limits, goes_well).contains(Step::RunScript) && limits.time is Some ==> steps(
            limits,
            goes_well,
        ).contains(Step::ArmTimer),
{
    if limits.time is None {
        no_limit_no_timer(Step::GenerateKey, limits, goes_well);
    } else if steps(limits, goes_well).contains(Step::RunScript) {
        limit_arms_timer(Step::GenerateKey, limits, goes_well);
    }
}

} // verus!
