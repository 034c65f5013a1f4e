//! The race between solvers: every enabled solver gets the request at once, and
//! the first one that solves it wins. The tasks run outside the library; it is
//! told how each one ended, in the order they end, and decides what happens next.
use vstd::prelude::*;

use crate::json::Json;

verus! {

/// How one solver task ended.
#[derive(Debug)]
pub enum TaskEnd {
    /// The solver answered with a solution.
    Solved(Json),
    /// The solver answered, but did not solve the request.
    Failed,
    /// The task was cancelled before it ended.
    Cancelled,
    /// The task panicked or could not be joined.
    Crashed,
}

/// What the set of running tasks reports next.
#[derive(Debug)]
pub enum RaceEvent {
    /// A task ended.
    Joined(TaskEnd),
    /// No task is left to join.
    Drained,
}

/// How a race treats a task that ended without an answer.
#[derive(Clone, Copy, Debug, PartialEq, Eq, Structural)]
pub enum RacePolicy {
    /// A cancelled or crashed task is passed over; the others are awaited.
    TolerateTaskErrors,
    /// A cancelled or crashed task ends the race without a winner.
    StopOnTaskError,
}

/// What the race does after an event.
#[derive(Debug)]
pub enum RaceStep {
    /// Await the next task.
    Wait,
    /// Stop the other tasks and answer with this solution.
    Win(Json),
    /// Stop: no solver solved the request.
    Lose,
}

/// The step that follows `event` under `policy`.
pub open spec fn step_of(policy: RacePolicy, event: RaceEvent) -> RaceStep {
    match event {
        RaceEvent::Joined(TaskEnd::Solved(v)) => RaceStep::Win(v),
        RaceEvent::Joined(TaskEnd::Failed) => RaceStep::Wait,
        RaceEvent::Joined(_) => match policy {
            RacePolicy::TolerateTaskErrors => RaceStep::Wait,
            RacePolicy::StopOnTaskError => RaceStep::Lose,
        },
        RaceEvent::Drained => RaceStep::Lose,
    }
}

/// How a race that sees `events` in this order ends: the first step other than
/// waiting, or `None` while every event so far only means waiting.
pub open spec fn race_result(policy: RacePolicy, events: Seq<RaceEvent>) -> Option<RaceStep>
    decreases events.len(),
{
    if events.len() == 0 {
        None
    } else {
        match step_of(policy, events[0]) {
            RaceStep::Wait => race_result(policy, events.drop_first()),
            s => Some(s),
        }
    }
}

/// Decides what the race does after `event`.
pub fn race_step(policy: RacePolicy, event: RaceEvent) -> (res: RaceStep)
    ensures
        res == step_of(policy, event),
{
    match event {
        RaceEvent::Joined(TaskEnd::Solved(v)) => RaceStep::Win(v),
        RaceEvent::Joined(TaskEnd::Failed) => RaceStep::Wait,
        RaceEvent::Joined(_) => match policy {
            RacePolicy::TolerateTaskErrors => RaceStep::Wait,
            RacePolicy::StopOnTaskError => RaceStep::Lose,
        },
        RaceEvent::Drained => RaceStep::Lose,
    }
}

/// Whether a race is started at all: only with at least one solver to run.
pub fn race_starts(solver_count: usize) -> (res: bool)
    ensures
        res == (solver_count > 0),
{
    solver_count > 0
}

/// An event that only means waiting under `policy`.
pub open spec fn passes(policy: RacePolicy, event: RaceEvent) -> bool {
    step_of(policy, event) is Wait
}

/// The first solution wins: where the `k`-th event is a solution and every
/// earlier one only means waiting (a solver that failed, or under
/// `TolerateTaskErrors` a task that was cancelled or crashed), the race is won
/// with that solution.
pub proof fn lemma_first_solution_wins(
    policy: RacePolicy,
    events: Seq<RaceEvent>,
    k: int,
    v: Json,
)
    requires
        0 <= k < events.len(),
        events[k] == RaceEvent::Joined(TaskEnd::Solved(v)),
        forall|j: int| 0 <= j < k ==> passes(policy, #[trigger] events[j]),
    ensures
        race_result(policy, events) == Some(RaceStep::Win(v)),
    decreases k,
{
    if k > 0 {
        assert(passes(policy, events[0]));
        assert forall|j: int| 0 <= j < k - 1 implies passes(
            policy,
            #[trigger] events.drop_first()[j],
        ) by {
            assert(events.drop_first()[j] == events[j + 1]);
        }
        lemma_first_solution_wins(policy, events.drop_first(), k - 1, v);
    }
}

/// What each event means, under each policy: a solution wins with that very
/// solution; a solver that answered without a solution means waiting, under
/// either policy; a cancelled or crashed task means waiting under
/// `TolerateTaskErrors` and losing under `StopOnTaskError`; a drained task set
/// loses.
pub proof fn lemma_event_meanings(policy: RacePolicy, v: Json)
    ensures
        step_of(policy, RaceEvent::Joined(TaskEnd::Solved(v))) == RaceStep::Win(v),
        step_of(policy, RaceEvent::Joined(TaskEnd::Failed)) is Wait,
        step_of(RacePolicy::TolerateTaskErrors, RaceEvent::Joined(TaskEnd::Cancelled)) is Wait,
        step_of(RacePolicy::TolerateTaskErrors, RaceEvent::Joined(TaskEnd::Crashed)) is Wait,
        step_of(RacePolicy::StopOnTaskError, RaceEvent::Joined(TaskEnd::Cancelled)) is Lose,
        step_of(RacePolicy::StopOnTaskError, RaceEvent::Joined(TaskEnd::Crashed)) is Lose,
        step_of(policy, RaceEvent::Drained) is Lose,
{
}

/// Failed solvers are passed over under either policy: where every event
/// before the `k`-th is a solver that answered without a solution and the
/// `k`-th is the solution `v`, the race is won with `v`.
pub proof fn lemma_failed_solvers_are_passed_over(
    policy: RacePolicy,
    events: Seq<RaceEvent>,
    k: int,
    v: Json,
)
    requires
        0 <= k < events.len(),
        events[k] == RaceEvent::Joined(TaskEnd::Solved(v)),
        forall|j: int| 0 <= j < k ==> #[trigger] events[j] == RaceEvent::Joined(TaskEnd::Failed),
    ensures
        race_result(policy, events) == Some(RaceStep::Win(v)),
    decreases k,
{
    if k > 0 {
        assert(events[0] == RaceEvent::Joined(TaskEnd::Failed));
        assert forall|j: int| 0 <= j < k - 1 implies #[trigger] events.drop_first()[j]
            == RaceEvent::Joined(TaskEnd::Failed) by {
            assert(events.drop_first()[j] == events[j + 1]);
        }
        assert(events.drop_first()[k - 1] == events[k]);
        lemma_failed_solvers_are_passed_over(policy, events.drop_first(), k - 1, v);
    }
}

/// Errors do not end a tolerant race: under `TolerateTaskErrors` every task
/// that ends without a solution means waiting for the next one.
pub proof fn lemma_tolerant_race_waits(end: TaskEnd)
    requires
        !(end is Solved),
    ensures
        passes(RacePolicy::TolerateTaskErrors, RaceEvent::Joined(end)),
{
}

/// A race is only won with what a solver answered: where the race ends with
/// `Win(v)`, some event is the solution `v`, and every event before it only
/// means waiting.
pub proof fn lemma_win_comes_from_a_solver(policy: RacePolicy, events: Seq<RaceEvent>, v: Json)
    requires
        race_result(policy, events) == Some(RaceStep::Win(v)),
    ensures
        exists|k: int|
            0 <= k < events.len() && #[trigger] events[k] == RaceEvent::Joined(TaskEnd::Solved(v))
                && forall|j: int| 0 <= j < k ==> passes(policy, #[trigger] events[j]),
    decreases events.len(),
{
    if step_of(policy, events[0]) is Wait {
        lemma_win_comes_from_a_solver(policy, events.drop_first(), v);
        let k = choose|k: int|
            0 <= k < events.drop_first().len() && #[trigger] events.drop_first()[k]
                == RaceEvent::Joined(TaskEnd::Solved(v)) && forall|j: int|
                0 <= j < k ==> passes(policy, #[trigger] events.drop_first()[j]);
        assert(events[k + 1] == events.drop_first()[k]);
        assert forall|j: int| 0 <= j < k + 1 implies passes(policy, #[trigger] events[j]) by {
            if j > 0 {
                assert(events[j] == events.drop_first()[j - 1]);
            }
        }
    } else {
        assert(events[0] == RaceEvent::Joined(TaskEnd::Solved(v)));
    }
}

/// A race that no solver solves is lost once the task set runs dry: where no
/// event is a solution and some event reports that no task is left, the race
/// ends with `Lose`.
pub proof fn lemma_no_solution_loses(policy: RacePolicy, events: Seq<RaceEvent>, d: int)
    requires
        0 <= d < events.len(),
        events[d] is Drained,
        forall|j: int| 0 <= j < events.len() ==> !(#[trigger] events[j] matches RaceEvent::Joined(
            TaskEnd::Solved(_),
        )),
    ensures
        race_result(policy, events) == Some(RaceStep::Lose),
    decreases events.len(),
{
    assert(!(events[0] matches RaceEvent::Joined(TaskEnd::Solved(_))));
    if step_of(policy, events[0]) is Wait {
        assert(d > 0);
        assert(events.drop_first()[d - 1] == events[d]);
        assert forall|j: int| 0 <= j < events.drop_first().len() implies !(
        #[trigger] events.drop_first()[j] matches RaceEvent::Joined(TaskEnd::Solved(_))) by {
            assert(events.drop_first()[j] == events[j + 1]);
        }
        lemma_no_solution_loses(policy, events.drop_first(), d - 1);
    }
}

/// A strict race stops at the first task error: under `StopOnTaskError`, where
/// the `k`-th event is a cancelled or crashed task and every earlier one is a
/// solver that failed, the race is lost.
pub proof fn lemma_strict_race_stops_on_error(events: Seq<RaceEvent>, k: int)
    requires
        0 <= k < events.len(),
        events[k] matches RaceEvent::Joined(e) && (e is Cancelled || e is Crashed),
        forall|j: int| 0 <= j < k ==> #[trigger] events[j] matches RaceEvent::Joined(TaskEnd::Failed),
    ensures
        race_result(RacePolicy::StopOnTaskError, events) == Some(RaceStep::Lose),
    decreases k,
{
    if k > 0 {
        assert(events[0] matches RaceEvent::Joined(TaskEnd::Failed));
        assert forall|j: int| 0 <= j < k - 1 implies #[trigger] events.drop_first()[j] matches RaceEvent::Joined(
            TaskEnd::Failed,
        ) by {
            assert(events.drop_first()[j] == events[j + 1]);
        }
        assert(events.drop_first()[k - 1] == events[k]);
        lemma_strict_race_stops_on_error(events.drop_first(), k - 1);
    }
}

} // verus!
