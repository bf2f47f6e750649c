//! Execution of a plan up to a target step.

use crate::identity::PlanId;
use crate::plan::{Plan, PlanView};
use crate::progress::{
    already_executed_text, announcement, resume_load_failed_text, step_failed_text,
    step_finished_text, ProgressEvent,
};
use crate::service::{executed_steps, saved_plans, Effect, EffectView, Outcome, OutcomeView};
use vstd::prelude::*;

verus! {

/// Where an execution stands.
#[derive(Debug)]
pub enum ExecutionState {
    /// The plan has been asked for.
    AwaitingPlan,
    /// The step at `index` is being executed.
    AwaitingStep { plan: Plan, index: usize },
    /// Every step up to the target has been executed, now or earlier.
    Completed { plan: Plan },
    /// The plan could not be loaded.
    LoadFailed,
    /// The step at `index` failed; the steps behind it were not tried.
    StepFailed { plan: Plan, index: usize },
}

/// The mathematical content of an [`ExecutionState`].
pub enum ExecutionStateView {
    AwaitingPlan,
    AwaitingStep { plan: PlanView, index: nat },
    Completed { plan: PlanView },
    LoadFailed,
    StepFailed { plan: PlanView, index: nat },
}

impl View for ExecutionState {
    type V = ExecutionStateView;

    open spec fn view(&self) -> ExecutionStateView {
        match self {
            ExecutionState::AwaitingPlan => ExecutionStateView::AwaitingPlan,
            ExecutionState::AwaitingStep { plan, index } => ExecutionStateView::AwaitingStep {
                plan: plan@,
                index: *index as nat,
            },
            ExecutionState::Completed { plan } => ExecutionStateView::Completed { plan: plan@ },
            ExecutionState::LoadFailed => ExecutionStateView::LoadFailed,
            ExecutionState::StepFailed { plan, index } => ExecutionStateView::StepFailed {
                plan: plan@,
                index: *index as nat,
            },
        }
    }
}

/// The execution of one plan up to and including the step at `target`.
#[derive(Debug)]
pub struct ExecuteUntil {
    session_id: PlanId,
    target: usize,
    state: ExecutionState,
}

/// The mathematical content of an [`ExecuteUntil`].
pub struct ExecuteUntilView {
    pub session_id: PlanId,
    pub target: nat,
    pub state: ExecutionStateView,
}

impl View for ExecuteUntil {
    type V = ExecuteUntilView;

    closed spec fn view(&self) -> ExecuteUntilView {
        ExecuteUntilView {
            session_id: self.session_id,
            target: self.target as nat,
            state: self.state@,
        }
    }
}

/// The smaller of two numbers.
pub open spec fn lesser(a: nat, b: nat) -> nat {
    if a <= b {
        a
    } else {
        b
    }
}

/// The events for the steps that are passed over because the checkpoint
/// covers them: one for each index from 0 up to the checkpoint or the
/// target, whichever is less.
pub open spec fn passed_over(session_id: PlanId, plan: PlanView, target: nat) -> Seq<EffectView> {
    match plan.checkpoint {
        Some(checkpoint) => Seq::new(
            lesser(checkpoint, target) + 1,
            |i: int|
                EffectView::Emit(
                    announcement(session_id, already_executed_text(i as nat, checkpoint)),
                ),
        ),
        None => Seq::empty(),
    }
}

/// The checkpoint whose context a step is given: the plan's checkpoint,
/// or 0 where the plan has none.
pub open spec fn context_checkpoint(plan: PlanView) -> nat {
    match plan.checkpoint {
        Some(checkpoint) => checkpoint,
        None => 0,
    }
}

/// How execution goes on from `plan`: with the step at which the plan
/// resumes, if that step exists and does not lie beyond the target, and
/// else not at all.
pub open spec fn proceed(plan: PlanView, target: nat) -> (ExecutionStateView, Seq<EffectView>) {
    let index = plan.resume_index();
    if index <= target && index < plan.steps.len() {
        (
            ExecutionStateView::AwaitingStep { plan, index },
            seq![EffectView::ExecuteStep { index, context_checkpoint: context_checkpoint(plan) }],
        )
    } else {
        (ExecutionStateView::Completed { plan }, Seq::empty())
    }
}

/// The execution that has just asked for its plan.
pub open spec fn started(session_id: PlanId, target: nat) -> ExecuteUntilView {
    ExecuteUntilView { session_id, target, state: ExecutionStateView::AwaitingPlan }
}

/// What an execution does when it is told an outcome.
///
/// - Told that the plan could not be loaded, it reports so and stops.
/// - Told the plan, it passes over the steps the checkpoint covers,
///   reporting each, and asks for the first step that is not covered.
/// - Told that a step failed, it reports the step and stops: the
///   checkpoint stays where it is.
/// - Told that a step succeeded, it reports the step, moves the
///   checkpoint onto it, asks for the plan to be stored, and goes on.
/// - Told anything it does not wait for, it does nothing.
pub open spec fn transition(machine: ExecuteUntilView, outcome: OutcomeView) -> (
    ExecuteUntilView,
    Seq<EffectView>,
) {
    let session_id = machine.session_id;
    let target = machine.target;
    match (machine.state, outcome) {
        (ExecutionStateView::AwaitingPlan, OutcomeView::PlanLoaded(Err(_))) => (
            ExecuteUntilView { state: ExecutionStateView::LoadFailed, ..machine },
            seq![EffectView::Emit(announcement(session_id, resume_load_failed_text()))],
        ),
        (ExecutionStateView::AwaitingPlan, OutcomeView::PlanLoaded(Ok(plan))) => {
            let (state, request) = proceed(plan, target);
            (ExecuteUntilView { state, ..machine }, passed_over(session_id, plan, target) + request)
        },
        (ExecutionStateView::AwaitingStep { plan, index }, OutcomeView::StepExecuted(false)) => (
            ExecuteUntilView { state: ExecutionStateView::StepFailed { plan, index }, ..machine },
            seq![EffectView::Emit(announcement(session_id, step_failed_text(index)))],
        ),
        (ExecutionStateView::AwaitingStep { plan, index }, OutcomeView::StepExecuted(true)) => {
            let advanced = plan.checkpointed_at(index);
            let (state, request) = proceed(advanced, target);
            (
                ExecuteUntilView { state, ..machine },
                seq![
                    EffectView::Emit(announcement(session_id, step_finished_text(index))),
                    EffectView::SavePlan(advanced),
                ] + request,
            )
        },
        _ => (machine, Seq::empty()),
    }
}

impl ExecuteUntil {
    /// A step that is waited for is the step at which the plan resumes,
    /// exists, and does not lie beyond the target.
    #[verifier::type_invariant]
    closed spec fn awaited_step_is_next(self) -> bool {
        self.state matches ExecutionState::AwaitingStep { plan, index } ==> {
            &&& index == plan@.resume_index()
            &&& index < plan@.steps.len()
            &&& index <= self.target
        }
    }

    pub fn session_id(&self) -> (session_id: PlanId)
        ensures
            session_id == self@.session_id,
    {
        self.session_id
    }

    pub fn target(&self) -> (target: usize)
        ensures
            target == self@.target,
    {
        self.target
    }

    pub fn state(&self) -> (state: &ExecutionState)
        ensures
            state@ == self@.state,
    {
        &self.state
    }

    /// Whether the execution has come to an end, whichever way.
    pub fn is_finished(&self) -> (finished: bool)
        ensures
            finished == !(self@.state is AwaitingPlan || self@.state is AwaitingStep),
    {
        match &self.state {
            ExecutionState::AwaitingPlan => false,
            ExecutionState::AwaitingStep { .. } => false,
            _ => true,
        }
    }

    /// Takes in the outcome of the effect that the execution waits for and
    /// says what to do next.
    pub fn on_outcome(self, outcome: Outcome) -> (next: (Self, Vec<Effect>))
        ensures
            (next.0@, next.1.deep_view()) == transition(self@, outcome@),
    {
        proof {
            use_type_invariant(&self);
        }
        let ExecuteUntil { session_id, target, state } = self;
        match (state, outcome) {
            (ExecutionState::AwaitingPlan, Outcome::PlanLoaded(Err(_))) => {
                let mut effects: Vec<Effect> = Vec::new();
                effects.push(Effect::Emit(ProgressEvent::resume_load_failed(session_id)));
                (ExecuteUntil { session_id, target, state: ExecutionState::LoadFailed }, effects)
            },
            (ExecutionState::AwaitingPlan, Outcome::PlanLoaded(Ok(plan))) => {
                let mut effects = pass_over(session_id, &plan, target);
                let state = go_on(plan, target, &mut effects);
                (ExecuteUntil { session_id, target, state }, effects)
            },
            (ExecutionState::AwaitingStep { plan, index }, Outcome::StepExecuted(false)) => {
                let mut effects: Vec<Effect> = Vec::new();
                effects.push(Effect::Emit(ProgressEvent::step_failed(session_id, index)));
                (
                    ExecuteUntil {
                        session_id,
                        target,
                        state: ExecutionState::StepFailed { plan, index },
                    },
                    effects,
                )
            },
            (ExecutionState::AwaitingStep { plan, index }, Outcome::StepExecuted(true)) => {
                let mut plan = plan;
                let _ = plan.advance_checkpoint(index);
                let mut effects: Vec<Effect> = Vec::new();
                effects.push(Effect::Emit(ProgressEvent::step_finished(session_id, index)));
                effects.push(Effect::SavePlan(plan.clone()));
                let state = go_on(plan, target, &mut effects);
                (ExecuteUntil { session_id, target, state }, effects)
            },
            (state, _) => {
                let effects: Vec<Effect> = Vec::new();
                (ExecuteUntil { session_id, target, state }, effects)
            },
        }
    }
}

/// Begins the execution of a plan up to and including the step at
/// `execute_until`: the plan is asked for.
pub fn execute_plan_until(execute_until: usize, plan_id: PlanId) -> (begun: (
    ExecuteUntil,
    Vec<Effect>,
))
    ensures
        begun.0@ == started(plan_id, execute_until as nat),
        begun.1.deep_view() == seq![EffectView::LoadPlan],
{
    let mut effects: Vec<Effect> = Vec::new();
    effects.push(Effect::LoadPlan);
    (
        ExecuteUntil { session_id: plan_id, target: execute_until, state: ExecutionState::AwaitingPlan },
        effects,
    )
}

fn pass_over(session_id: PlanId, plan: &Plan, target: usize) -> (effects: Vec<Effect>)
    ensures
        effects.deep_view() == passed_over(session_id, plan@, target as nat),
{
    let mut effects: Vec<Effect> = Vec::new();
    match plan.checkpoint() {
        Some(checkpoint) => {
            let last: usize = if checkpoint <= target {
                checkpoint
            } else {
                target
            };
            let count = plan.len();
            let mut i: usize = 0;
            while i <= last
                invariant
                    i <= last + 1,
                    last < count,
                    last == lesser(checkpoint as nat, target as nat),
                    effects@.len() == i,
                    forall|j: int|
                        0 <= j < i ==> (#[trigger] effects@[j])@ == EffectView::Emit(
                            announcement(
                                session_id,
                                already_executed_text(j as nat, checkpoint as nat),
                            ),
                        ),
                decreases last + 1 - i,
            {
                effects.push(Effect::Emit(ProgressEvent::already_executed(session_id, i, checkpoint)));
                i += 1;
            }
        },
        None => {},
    }
    effects
}

fn go_on(plan: Plan, target: usize, effects: &mut Vec<Effect>) -> (state: ExecutionState)
    ensures
        state@ == proceed(plan@, target as nat).0,
        final(effects).deep_view() == old(effects).deep_view() + proceed(plan@, target as nat).1,
        state matches ExecutionState::AwaitingStep { plan: held, index } ==> {
            &&& index == held@.resume_index()
            &&& index < held@.steps.len()
            &&& index <= target
        },
{
    let checkpoint = plan.checkpoint();
    let steps = plan.len();
    let index: usize = match checkpoint {
        Some(c) => c + 1,
        None => 0,
    };
    let context: usize = match checkpoint {
        Some(c) => c,
        None => 0,
    };
    if index <= target && index < steps {
        effects.push(Effect::ExecuteStep { index, context_checkpoint: context });
        ExecutionState::AwaitingStep { plan, index }
    } else {
        ExecutionState::Completed { plan }
    }
}

/// What an execution does when it is told, one after another, how the
/// steps it asks for went: `results[0]` answers the step it waits for,
/// `results[1]` the next one it asks for, and so on, for as long as it
/// waits for a step and results are left.
pub open spec fn run(machine: ExecuteUntilView, results: Seq<bool>) -> (
    ExecuteUntilView,
    Seq<EffectView>,
)
    decreases results.len(),
{
    if results.len() == 0 || !(machine.state is AwaitingStep) {
        (machine, Seq::empty())
    } else {
        let (after, first) = transition(machine, OutcomeView::StepExecuted(results[0]));
        let (end, rest) = run(after, results.drop_first());
        (end, first + rest)
    }
}

/// One whole execution of `plan` up to `target`, from the moment the plan
/// is loaded: where it ends and everything it asked for on the way.
pub open spec fn execution(session_id: PlanId, plan: PlanView, target: nat, results: Seq<bool>) -> (
    ExecuteUntilView,
    Seq<EffectView>,
) {
    let (loaded, first) = transition(
        started(session_id, target),
        OutcomeView::PlanLoaded(Ok(plan)),
    );
    let (end, rest) = run(loaded, results);
    (end, first + rest)
}

/// The numbers from `from` up to, and not including, `to`.
pub open spec fn indices(from: nat, to: nat) -> Seq<nat> {
    Seq::new((to - from) as nat, |i: int| (from + i) as nat)
}

/// `plan` with the checkpoint on each of the steps from `from` up to, and
/// not including, `to`, in turn.
pub open spec fn checkpoints(plan: PlanView, from: nat, to: nat) -> Seq<PlanView> {
    Seq::new((to - from) as nat, |i: int| plan.checkpointed_at((from + i) as nat))
}

/// The last step that an execution of `plan` up to `target` can reach.
pub open spec fn reach(plan: PlanView, target: nat) -> nat {
    lesser(target, (plan.steps.len() - 1) as nat)
}

proof fn lemma_executed_steps_of_both(a: Seq<EffectView>, b: Seq<EffectView>)
    ensures
        executed_steps(a + b) == executed_steps(a) + executed_steps(b),
        saved_plans(a + b) == saved_plans(a) + saved_plans(b),
    decreases b.len(),
{
    if b.len() > 0 {
        assert((a + b).drop_last() =~= a + b.drop_last());
        lemma_executed_steps_of_both(a, b.drop_last());
    }
}

proof fn lemma_events_execute_nothing(effects: Seq<EffectView>)
    requires
        forall|i: int| 0 <= i < effects.len() ==> (#[trigger] effects[i]) is Emit,
    ensures
        executed_steps(effects) == Seq::<nat>::empty(),
        saved_plans(effects) == Seq::<PlanView>::empty(),
    decreases effects.len(),
{
    if effects.len() > 0 {
        lemma_events_execute_nothing(effects.drop_last());
    }
}

proof fn lemma_proceed_executes(plan: PlanView, target: nat)
    ensures
        executed_steps(proceed(plan, target).1) == match proceed(plan, target).0 {
            ExecutionStateView::AwaitingStep { index, .. } => seq![index],
            _ => Seq::<nat>::empty(),
        },
        saved_plans(proceed(plan, target).1) == Seq::<PlanView>::empty(),
{
    reveal_with_fuel(executed_steps, 2);
    reveal_with_fuel(saved_plans, 2);
}

/// Whether a machine waits for the step at which its plan resumes, and
/// that step exists and does not lie beyond the target.
pub open spec fn awaits_next_step(machine: ExecuteUntilView) -> bool {
    machine.state matches ExecutionStateView::AwaitingStep { plan, index } && {
        &&& plan.well_formed()
        &&& index == plan.resume_index()
        &&& index < plan.steps.len()
        &&& index <= machine.target
    }
}

/// Where a run from a waited-for step can end, and what it asks for on
/// the way: each step behind the waited-for one up to the step it ends at,
/// once and in order, and after each success the plan with the checkpoint
/// on that step.
proof fn lemma_run(machine: ExecuteUntilView, results: Seq<bool>)
    requires
        awaits_next_step(machine),
    ensures
        ({
            let (end, effects) = run(machine, results);
            let plan = machine.state->AwaitingStep_plan;
            let index = machine.state->AwaitingStep_index;
            &&& end.session_id == machine.session_id
            &&& end.target == machine.target
            &&& match end.state {
                ExecutionStateView::Completed { plan: left } => {
                    &&& left == plan.checkpointed_at(reach(plan, machine.target))
                    &&& results.len() >= reach(plan, machine.target) + 1 - index
                    &&& forall|i: int|
                        0 <= i < reach(plan, machine.target) + 1 - index ==> results[i]
                    &&& executed_steps(effects) == indices(
                        index + 1,
                        reach(plan, machine.target) + 1,
                    )
                    &&& saved_plans(effects) == checkpoints(
                        plan,
                        index,
                        reach(plan, machine.target) + 1,
                    )
                },
                ExecutionStateView::StepFailed { plan: left, index: failed } => {
                    &&& index <= failed <= reach(plan, machine.target)
                    &&& left == if failed == index {
                        plan
                    } else {
                        plan.checkpointed_at((failed - 1) as nat)
                    }
                    &&& results.len() > failed - index
                    &&& !results[failed - index]
                    &&& executed_steps(effects) == indices(index + 1, failed + 1)
                    &&& saved_plans(effects) == checkpoints(plan, index, failed)
                },
                ExecutionStateView::AwaitingStep { plan: left, index: awaited } => {
                    &&& index <= awaited <= reach(plan, machine.target)
                    &&& awaited == index + results.len()
                    &&& left == if awaited == index {
                        plan
                    } else {
                        plan.checkpointed_at((awaited - 1) as nat)
                    }
                    &&& executed_steps(effects) == indices(index + 1, awaited + 1)
                    &&& saved_plans(effects) == checkpoints(plan, index, awaited)
                },
                _ => false,
            }
        }),
    decreases results.len(),
{
    let plan = machine.state->AwaitingStep_plan;
    let index = machine.state->AwaitingStep_index;
    let target = machine.target;
    if results.len() > 0 {
        let (after, first) = transition(machine, OutcomeView::StepExecuted(results[0]));
        let (end, rest) = run(after, results.drop_first());
        lemma_executed_steps_of_both(first, rest);
        if results[0] {
            let advanced = plan.checkpointed_at(index);
            let reported = seq![
                EffectView::Emit(announcement(machine.session_id, step_finished_text(index))),
                EffectView::SavePlan(advanced),
            ];
            let request = proceed(advanced, target).1;
            assert(executed_steps(reported) =~= Seq::<nat>::empty()) by {
                reveal_with_fuel(executed_steps, 3);
            }
            assert(saved_plans(reported) =~= seq![advanced]) by {
                reveal_with_fuel(saved_plans, 3);
            }
            lemma_proceed_executes(advanced, target);
            lemma_executed_steps_of_both(reported, request);
            if after.state is AwaitingStep {
                lemma_run(after, results.drop_first());
                if end.state is Completed {
                    assert forall|i: int|
                        0 <= i < reach(plan, target) + 1 - index implies results[i] by {
                        if i > 0 {
                            assert(results.drop_first()[i - 1]);
                        }
                    }
                }
            }
        } else {
            assert(executed_steps(first) =~= Seq::<nat>::empty()) by {
                reveal_with_fuel(executed_steps, 2);
            }
            assert(saved_plans(first) =~= Seq::<PlanView>::empty()) by {
                reveal_with_fuel(saved_plans, 2);
            }
        }
    }
}

/// Where an execution of a well-formed plan can end, and what it asks to
/// execute: the steps from the one at which the plan resumes up to the
/// step it ends at, each once and in order.
pub proof fn lemma_execution(session_id: PlanId, plan: PlanView, target: nat, results: Seq<bool>)
    requires
        plan.well_formed(),
    ensures
        ({
            let (end, effects) = execution(session_id, plan, target, results);
            let resume = plan.resume_index();
            &&& end.session_id == session_id
            &&& end.target == target
            &&& match end.state {
                ExecutionStateView::Completed { plan: left } => {
                    if resume <= target && resume < plan.steps.len() {
                        &&& left == plan.checkpointed_at(reach(plan, target))
                        &&& executed_steps(effects) == indices(resume, reach(plan, target) + 1)
                        &&& saved_plans(effects) == checkpoints(
                            plan,
                            resume,
                            reach(plan, target) + 1,
                        )
                    } else {
                        &&& left == plan
                        &&& executed_steps(effects) == Seq::<nat>::empty()
                        &&& saved_plans(effects) == Seq::<PlanView>::empty()
                    }
                },
                ExecutionStateView::StepFailed { plan: left, index: failed } => {
                    &&& resume <= failed <= reach(plan, target)
                    &&& failed < plan.steps.len()
                    &&& left == if failed == resume {
                        plan
                    } else {
                        plan.checkpointed_at((failed - 1) as nat)
                    }
                    &&& executed_steps(effects) == indices(resume, failed + 1)
                    &&& saved_plans(effects) == checkpoints(plan, resume, failed)
                },
                ExecutionStateView::AwaitingStep { plan: left, index: awaited } => {
                    &&& resume <= awaited <= reach(plan, target)
                    &&& awaited < plan.steps.len()
                    &&& left == if awaited == resume {
                        plan
                    } else {
                        plan.checkpointed_at((awaited - 1) as nat)
                    }
                    &&& executed_steps(effects) == indices(resume, awaited + 1)
                    &&& saved_plans(effects) == checkpoints(plan, resume, awaited)
                },
                _ => false,
            }
        }),
{
    let (loaded, first) = transition(
        started(session_id, target),
        OutcomeView::PlanLoaded(Ok(plan)),
    );
    let (end, rest) = run(loaded, results);
    let skipped = passed_over(session_id, plan, target);
    let request = proceed(plan, target).1;
    lemma_events_execute_nothing(skipped);
    lemma_proceed_executes(plan, target);
    lemma_executed_steps_of_both(skipped, request);
    lemma_executed_steps_of_both(first, rest);
    if loaded.state is AwaitingStep {
        lemma_run(loaded, results);
    }
}

/// The plan that an execution leaves behind: the plan it holds at its end.
pub open spec fn plan_left(end: ExecuteUntilView, before: PlanView) -> PlanView {
    match end.state {
        ExecutionStateView::Completed { plan } => plan,
        ExecutionStateView::StepFailed { plan, .. } => plan,
        ExecutionStateView::AwaitingStep { plan, .. } => plan,
        _ => before,
    }
}

/// However an execution goes, it changes nothing of the plan but the
/// checkpoint, which never moves backwards and always names a step; it
/// executes no step that the checkpoint already covered; and what it asks
/// to store is, after each step that succeeded, the plan with the
/// checkpoint on that step. So what is stored never runs ahead of what was
/// executed, and lags behind by at most the step in flight.
pub proof fn law_execution_only_advances_checkpoint(
    session_id: PlanId,
    plan: PlanView,
    target: nat,
    results: Seq<bool>,
)
    requires
        plan.well_formed(),
    ensures
        ({
            let (end, effects) = execution(session_id, plan, target, results);
            let left = plan_left(end, plan);
            &&& !(end.state is AwaitingPlan) && !(end.state is LoadFailed)
            &&& left.id == plan.id
            &&& left.steps == plan.steps
            &&& left.well_formed()
            &&& left.resume_index() >= plan.resume_index()
            &&& forall|i: int|
                0 <= i < executed_steps(effects).len() ==> !plan.covers(
                    #[trigger] executed_steps(effects)[i],
                )
            &&& saved_plans(effects) == checkpoints(
                plan,
                plan.resume_index(),
                left.resume_index(),
            )
        }),
{
    lemma_execution(session_id, plan, target, results);
}

/// A plan's life: one execution after another, each with a target and the
/// results of the steps it asks for, and each beginning with the plan that
/// the one before it left behind. Gives the plan at the end and everything
/// that was asked for on the way.
pub open spec fn lifetime(session_id: PlanId, plan: PlanView, runs: Seq<(nat, Seq<bool>)>) -> (
    PlanView,
    Seq<EffectView>,
)
    decreases runs.len(),
{
    if runs.len() == 0 {
        (plan, Seq::empty())
    } else {
        let (before, earlier) = lifetime(session_id, plan, runs.drop_last());
        let (end, effects) = execution(session_id, before, runs.last().0, runs.last().1);
        (plan_left(end, before), earlier + effects)
    }
}

/// Over a plan's whole life, whatever the targets and however the steps
/// go, each step is completed at most once: what is stored is the plan
/// with the checkpoint on each step between where it began and where it
/// stands, each once and in ascending order. The steps and the identifier
/// never change.
pub proof fn law_lifetime_completes_each_step_once(
    session_id: PlanId,
    plan: PlanView,
    runs: Seq<(nat, Seq<bool>)>,
)
    requires
        plan.well_formed(),
    ensures
        ({
            let (left, effects) = lifetime(session_id, plan, runs);
            &&& left.id == plan.id
            &&& left.steps == plan.steps
            &&& left.well_formed()
            &&& left.resume_index() >= plan.resume_index()
            &&& saved_plans(effects) == checkpoints(
                plan,
                plan.resume_index(),
                left.resume_index(),
            )
        }),
    decreases runs.len(),
{
    if runs.len() > 0 {
        law_lifetime_completes_each_step_once(session_id, plan, runs.drop_last());
        let (before, earlier) = lifetime(session_id, plan, runs.drop_last());
        let (end, effects) = execution(session_id, before, runs.last().0, runs.last().1);
        law_execution_only_advances_checkpoint(session_id, before, runs.last().0, runs.last().1);
        lemma_executed_steps_of_both(earlier, effects);
        let left = plan_left(end, before);
        assert(checkpoints(before, before.resume_index(), left.resume_index()) =~= checkpoints(
            plan,
            before.resume_index(),
            left.resume_index(),
        ));
        assert(saved_plans(earlier + effects) =~= checkpoints(
            plan,
            plan.resume_index(),
            left.resume_index(),
        ));
    }
}

/// An execution that ends without a failure leaves the checkpoint on the
/// target, and has asked for each step between the old checkpoint and the
/// target exactly once, in ascending order. The steps at or below the old
/// checkpoint are not asked for again.
///
/// This is stated of a target that names a step and does not lie below the
/// checkpoint: a checkpoint never moves backwards, and never past the last
/// step.
pub proof fn law_completed_execution_reaches_target(
    session_id: PlanId,
    plan: PlanView,
    target: nat,
    results: Seq<bool>,
)
    requires
        plan.well_formed(),
        target < plan.steps.len(),
        plan.checkpoint matches Some(c) ==> c <= target,
        execution(session_id, plan, target, results).0.state is Completed,
    ensures
        execution(session_id, plan, target, results).0.state == (ExecutionStateView::Completed {
            plan: plan.checkpointed_at(target),
        }),
        executed_steps(execution(session_id, plan, target, results).1) == indices(
            plan.resume_index(),
            target + 1,
        ),
{
    lemma_execution(session_id, plan, target, results);
}

/// Executing up to the same target a second time, with nothing added to
/// the plan in between, only passes over steps: every event says that a
/// step was already executed, no step is executed, nothing is stored, and
/// the plan is left as it was.
pub proof fn law_repeated_execution_is_idle(
    session_id: PlanId,
    plan: PlanView,
    target: nat,
    results: Seq<bool>,
    later_results: Seq<bool>,
)
    requires
        plan.well_formed(),
        execution(session_id, plan, target, results).0.state is Completed,
    ensures
        ({
            let left = execution(session_id, plan, target, results).0.state->Completed_plan;
            let (end, effects) = execution(session_id, left, target, later_results);
            &&& end.state == ExecutionStateView::Completed { plan: left }
            &&& effects == passed_over(session_id, left, target)
            &&& executed_steps(effects) == Seq::<nat>::empty()
            &&& saved_plans(effects) == Seq::<PlanView>::empty()
        }),
{
    lemma_execution(session_id, plan, target, results);
    let left = execution(session_id, plan, target, results).0.state->Completed_plan;
    lemma_events_execute_nothing(passed_over(session_id, left, target));
}

/// An execution that a failing step has stopped leaves the plan so that
/// the next execution begins with the step that failed, not with the first
/// step: the steps before it stay executed.
pub proof fn law_failed_execution_resumes_at_failure(
    session_id: PlanId,
    plan: PlanView,
    target: nat,
    results: Seq<bool>,
    later_target: nat,
    later_results: Seq<bool>,
)
    requires
        plan.well_formed(),
        execution(session_id, plan, target, results).0.state is StepFailed,
        later_target >= execution(session_id, plan, target, results).0.state->StepFailed_index,
    ensures
        ({
            let failed = execution(session_id, plan, target, results).0.state->StepFailed_index;
            let left = execution(session_id, plan, target, results).0.state->StepFailed_plan;
            let later = execution(session_id, left, later_target, later_results).1;
            &&& left.well_formed()
            &&& left.resume_index() == failed
            &&& executed_steps(later).len() > 0
            &&& executed_steps(later)[0] == failed
        }),
{
    lemma_execution(session_id, plan, target, results);
    let left = execution(session_id, plan, target, results).0.state->StepFailed_plan;
    lemma_execution(session_id, left, later_target, later_results);
}

} // verus!
