use sidecar::identity::PlanId;
use sidecar::plan::{Plan, PlanStep};
use sidecar::service::execute::{execute_plan_until, ExecuteUntil, ExecutionState};
use sidecar::service::{Effect, Outcome};
use sidecar::store::StoreError;

fn step(instruction: &str) -> PlanStep {
    PlanStep::new(instruction.to_owned(), String::new(), Vec::new())
}

fn plan_of(count: usize, checkpoint: Option<usize>) -> Plan {
    let steps = (0..count).map(|i| step(&format!("step {}", i))).collect();
    Plan::restore("plan".to_owned(), steps, checkpoint).expect("checkpoint names a step")
}

/// What a driver saw of one execution.
struct Trace {
    messages: Vec<String>,
    executed: Vec<(usize, usize)>,
    saved: Vec<Option<usize>>,
    end: ExecuteUntil,
}

/// Drives an execution: the plan loads, and the steps asked for succeed or
/// fail as `results` says, in order.
fn drive(plan: Plan, target: usize, results: &[bool]) -> Trace {
    let session = PlanId::from_u128(7);
    let (mut machine, mut effects) = execute_plan_until(target, session);
    assert!(matches!(effects.as_slice(), [Effect::LoadPlan]));
    let mut trace = Trace { messages: vec![], executed: vec![], saved: vec![], end: machine };
    let mut outcome = Some(Outcome::PlanLoaded(Ok(plan)));
    let mut results = results.iter();
    loop {
        machine = trace.end;
        let Some(told) = outcome.take() else {
            trace.end = machine;
            return trace;
        };
        (machine, effects) = machine.on_outcome(told);
        for effect in effects {
            match effect {
                Effect::Emit(event) => {
                    assert_eq!(event.session_id(), session);
                    assert_eq!(event.delta(), Some(event.answer_up_until_now()));
                    assert_eq!(event.model(), "Custom");
                    trace.messages.push(event.answer_up_until_now().to_owned());
                }
                Effect::ExecuteStep { index, context_checkpoint } => {
                    trace.executed.push((index, context_checkpoint));
                    outcome = results.next().map(|ok| Outcome::StepExecuted(*ok));
                }
                Effect::SavePlan(plan) => trace.saved.push(plan.checkpoint()),
                other => panic!("unexpected effect {:?}", other),
            }
        }
        trace.end = machine;
    }
}

fn checkpoint_of(machine: &ExecuteUntil) -> Option<usize> {
    match machine.state() {
        ExecutionState::Completed { plan }
        | ExecutionState::StepFailed { plan, .. }
        | ExecutionState::AwaitingStep { plan, .. } => plan.checkpoint(),
        other => panic!("no plan in {:?}", other),
    }
}

#[test]
fn executes_first_two_of_three_steps() {
    let trace = drive(plan_of(3, None), 1, &[true, true, true]);
    assert_eq!(trace.executed, vec![(0, 0), (1, 0)]);
    assert_eq!(
        trace.messages,
        vec!["Finished executing until: 0", "Finished executing until: 1"]
    );
    assert_eq!(trace.saved, vec![Some(0), Some(1)]);
    assert!(matches!(trace.end.state(), ExecutionState::Completed { .. }));
    assert!(trace.end.is_finished());
    assert_eq!(checkpoint_of(&trace.end), Some(1));
}

#[test]
fn target_at_checkpoint_only_reports() {
    let trace = drive(plan_of(2, Some(0)), 0, &[true]);
    assert_eq!(trace.messages, vec!["Already executed step:0, checkpoint is at: 0"]);
    assert!(trace.executed.is_empty());
    assert!(trace.saved.is_empty());
    assert!(matches!(trace.end.state(), ExecutionState::Completed { .. }));
    assert_eq!(checkpoint_of(&trace.end), Some(0));
}

#[test]
fn second_execution_to_same_target_is_idle() {
    let first = drive(plan_of(4, None), 2, &[true, true, true]);
    assert_eq!(checkpoint_of(&first.end), Some(2));
    let ExecutionState::Completed { plan } = first.end.state() else {
        panic!("first execution did not complete");
    };
    let second = drive(plan.clone(), 2, &[true, true, true]);
    assert_eq!(
        second.messages,
        vec![
            "Already executed step:0, checkpoint is at: 2",
            "Already executed step:1, checkpoint is at: 2",
            "Already executed step:2, checkpoint is at: 2",
        ]
    );
    assert!(second.executed.is_empty());
    assert!(second.saved.is_empty());
    assert_eq!(checkpoint_of(&second.end), Some(2));
}

#[test]
fn failure_stops_and_later_execution_resumes_there() {
    let first = drive(plan_of(6, None), 5, &[true, true, true, false, true, true]);
    assert_eq!(first.executed, vec![(0, 0), (1, 0), (2, 1), (3, 2)]);
    assert_eq!(
        first.messages,
        vec![
            "Finished executing until: 0",
            "Finished executing until: 1",
            "Finished executing until: 2",
            "Errored out while executing step: 3",
        ]
    );
    assert_eq!(first.saved, vec![Some(0), Some(1), Some(2)]);
    let ExecutionState::StepFailed { plan, index } = first.end.state() else {
        panic!("first execution did not fail");
    };
    assert_eq!(*index, 3);
    assert_eq!(plan.checkpoint(), Some(2));
    assert!(first.end.is_finished());

    let second = drive(plan.clone(), 5, &[true, true, true]);
    assert_eq!(second.executed, vec![(3, 2), (4, 3), (5, 4)]);
    assert_eq!(
        second.messages,
        vec![
            "Already executed step:0, checkpoint is at: 2",
            "Already executed step:1, checkpoint is at: 2",
            "Already executed step:2, checkpoint is at: 2",
            "Finished executing until: 3",
            "Finished executing until: 4",
            "Finished executing until: 5",
        ]
    );
    assert_eq!(checkpoint_of(&second.end), Some(5));
}

#[test]
fn failure_of_first_step_leaves_no_checkpoint() {
    let trace = drive(plan_of(2, None), 1, &[false]);
    assert_eq!(trace.executed, vec![(0, 0)]);
    assert_eq!(trace.messages, vec!["Errored out while executing step: 0"]);
    assert!(trace.saved.is_empty());
    assert_eq!(checkpoint_of(&trace.end), None);
}

#[test]
fn empty_plan_completes_without_events() {
    let trace = drive(plan_of(0, None), 3, &[true]);
    assert!(trace.messages.is_empty());
    assert!(trace.executed.is_empty());
    assert!(trace.saved.is_empty());
    assert!(matches!(trace.end.state(), ExecutionState::Completed { .. }));
}

#[test]
fn target_beyond_last_step_stops_at_last_step() {
    let trace = drive(plan_of(2, None), 10, &[true, true, true]);
    assert_eq!(trace.executed, vec![(0, 0), (1, 0)]);
    assert_eq!(checkpoint_of(&trace.end), Some(1));
    assert!(matches!(trace.end.state(), ExecutionState::Completed { .. }));
}

#[test]
fn target_below_checkpoint_changes_nothing() {
    let trace = drive(plan_of(3, Some(2)), 1, &[true]);
    assert_eq!(
        trace.messages,
        vec![
            "Already executed step:0, checkpoint is at: 2",
            "Already executed step:1, checkpoint is at: 2",
        ]
    );
    assert!(trace.executed.is_empty());
    assert_eq!(checkpoint_of(&trace.end), Some(2));
}

#[test]
fn step_numbers_above_nine_are_written_in_full() {
    let trace = drive(plan_of(12, Some(10)), 11, &[true]);
    assert_eq!(trace.messages.len(), 12);
    assert_eq!(trace.messages[10], "Already executed step:10, checkpoint is at: 10");
    assert_eq!(trace.messages[11], "Finished executing until: 11");
    assert_eq!(trace.executed, vec![(11, 10)]);
}

#[test]
fn missing_snapshot_is_reported_once() {
    let session = PlanId::from_u128(9);
    let (machine, _) = execute_plan_until(4, session);
    assert!(!machine.is_finished());
    let (machine, effects) = machine.on_outcome(Outcome::PlanLoaded(Err(StoreError::NotFound)));
    assert_eq!(effects.len(), 1);
    let Effect::Emit(event) = &effects[0] else {
        panic!("expected an event");
    };
    assert_eq!(event.answer_up_until_now(), "failed to load plan from stroage");
    assert_eq!(event.session_id(), session);
    assert!(matches!(machine.state(), ExecutionState::LoadFailed));
    assert!(machine.is_finished());
}

#[test]
fn outcome_that_is_not_awaited_is_ignored() {
    let (machine, _) = execute_plan_until(4, PlanId::from_u128(1));
    let (machine, effects) = machine.on_outcome(Outcome::StepExecuted(true));
    assert!(effects.is_empty());
    assert!(matches!(machine.state(), ExecutionState::AwaitingPlan));
    assert_eq!(machine.target(), 4);
    let (machine, _) = machine.on_outcome(Outcome::PlanLoaded(Ok(plan_of(1, Some(0)))));
    let (machine, effects) = machine.on_outcome(Outcome::StepExecuted(true));
    assert!(effects.is_empty());
    assert!(matches!(machine.state(), ExecutionState::Completed { .. }));
}
