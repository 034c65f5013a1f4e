use flaresolverr_aggregate::json::Json;
use flaresolverr_aggregate::race::{race_starts, race_step, RaceEvent, RacePolicy, RaceStep, TaskEnd};

fn solved(x: &str) -> RaceEvent {
    RaceEvent::Joined(TaskEnd::Solved(Json::String(x.to_string())))
}

/// Feeds events to the race one by one, as the task loop does, and reports how it ended.
fn run(policy: RacePolicy, events: Vec<RaceEvent>) -> Option<RaceStep> {
    for e in events {
        match race_step(policy, e) {
            RaceStep::Wait => {},
            other => return Some(other),
        }
    }
    None
}

#[test]
fn first_solution_wins() {
    let events = vec![RaceEvent::Joined(TaskEnd::Failed), solved("first"), solved("second")];
    match run(RacePolicy::TolerateTaskErrors, events) {
        Some(RaceStep::Win(Json::String(s))) => assert_eq!(s, "first"),
        other => panic!("{other:?}"),
    }
}

#[test]
fn tolerant_race_passes_over_task_errors() {
    let events = vec![
        RaceEvent::Joined(TaskEnd::Cancelled),
        RaceEvent::Joined(TaskEnd::Crashed),
        solved("late"),
    ];
    match run(RacePolicy::TolerateTaskErrors, events) {
        Some(RaceStep::Win(Json::String(s))) => assert_eq!(s, "late"),
        other => panic!("{other:?}"),
    }
}

#[test]
fn strict_race_stops_on_task_errors() {
    for end in [TaskEnd::Cancelled, TaskEnd::Crashed] {
        let events = vec![RaceEvent::Joined(TaskEnd::Failed), RaceEvent::Joined(end), solved("late")];
        assert!(matches!(run(RacePolicy::StopOnTaskError, events), Some(RaceStep::Lose)));
    }
}

#[test]
fn drained_race_without_solution_is_lost() {
    for policy in [RacePolicy::TolerateTaskErrors, RacePolicy::StopOnTaskError] {
        let events = vec![RaceEvent::Joined(TaskEnd::Failed), RaceEvent::Drained];
        assert!(matches!(run(policy, events), Some(RaceStep::Lose)));
    }
}

#[test]
fn race_needs_a_solver() {
    assert!(!race_starts(0));
    assert!(race_starts(1));
}
