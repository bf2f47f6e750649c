//! Creation of a plan from a query.

use crate::identity::{hyphenated, PlanId};
use crate::plan::{Plan, PlanView};
use crate::progress::{
    announcement, generating_plan_text, generation_failed_text, plan_generated_text, ProgressEvent,
};
use crate::service::{saved_plans, Effect, EffectView, Outcome, OutcomeView};
use crate::user_context::{UserContext, UserContextView};
use vstd::prelude::*;

verus! {

/// Why the plan service could not do what it was asked.
#[derive(Debug, Clone, Copy, PartialEq, Eq, Structural)]
pub enum PlanServiceError {
    /// The planner produced no steps.
    StepGeneration,
}

/// Where a creation stands.
#[derive(Debug)]
pub enum CreationState {
    /// The planner has been asked for the first steps.
    AwaitingSteps,
    /// The plan was made and handed out for storing.
    Created { plan: Plan },
    /// The planner failed; nothing was stored.
    Failed { error: PlanServiceError },
}

/// The mathematical content of a [`CreationState`].
pub enum CreationStateView {
    AwaitingSteps,
    Created { plan: PlanView },
    Failed { error: PlanServiceError },
}

impl View for CreationState {
    type V = CreationStateView;

    open spec fn view(&self) -> CreationStateView {
        match self {
            CreationState::AwaitingSteps => CreationStateView::AwaitingSteps,
            CreationState::Created { plan } => CreationStateView::Created { plan: plan@ },
            CreationState::Failed { error } => CreationStateView::Failed { error: *error },
        }
    }
}

/// The creation of one plan.
#[derive(Debug)]
pub struct CreatePlan {
    plan_id: PlanId,
    storage_path: String,
    state: CreationState,
}

/// The mathematical content of a [`CreatePlan`].
pub struct CreatePlanView {
    pub plan_id: PlanId,
    pub storage_path: Seq<char>,
    pub state: CreationStateView,
}

impl View for CreatePlan {
    type V = CreatePlanView;

    closed spec fn view(&self) -> CreatePlanView {
        CreatePlanView {
            plan_id: self.plan_id,
            storage_path: self.storage_path@,
            state: self.state@,
        }
    }
}

/// The creation that has just asked for its steps.
pub open spec fn creation_started(plan_id: PlanId, storage_path: Seq<char>) -> CreatePlanView {
    CreatePlanView { plan_id, storage_path, state: CreationStateView::AwaitingSteps }
}

/// What a creation asks for when it begins: it says that a plan is being
/// generated, and asks the planner for the first steps.
pub open spec fn creation_request(
    plan_id: PlanId,
    query: Seq<char>,
    context: UserContextView,
    deep_reasoning: bool,
) -> Seq<EffectView> {
    seq![
        EffectView::Emit(announcement(plan_id, generating_plan_text())),
        EffectView::GenerateInitialSteps { query, context, deep_reasoning },
    ]
}

/// What a creation does when it is told an outcome.
///
/// - Told the steps, it makes a plan of them under the identifier in
///   hyphenated form, with no checkpoint, asks for the plan to be stored,
///   and reports where, with the plan's summary.
/// - Told that the planner failed, it reports so; nothing is stored.
/// - Told anything it does not wait for, it does nothing.
pub open spec fn creation_transition(machine: CreatePlanView, outcome: OutcomeView) -> (
    CreatePlanView,
    Seq<EffectView>,
) {
    match (machine.state, outcome) {
        (CreationStateView::AwaitingSteps, OutcomeView::StepsGenerated(Some(steps))) => {
            let plan = PlanView { id: hyphenated(machine.plan_id.value), steps, checkpoint: None };
            (
                CreatePlanView { state: CreationStateView::Created { plan }, ..machine },
                seq![
                    EffectView::SavePlan(plan),
                    EffectView::Emit(
                        announcement(
                            machine.plan_id,
                            plan_generated_text(machine.storage_path, plan.summary()),
                        ),
                    ),
                ],
            )
        },
        (CreationStateView::AwaitingSteps, OutcomeView::StepsGenerated(None)) => (
            CreatePlanView {
                state: CreationStateView::Failed { error: PlanServiceError::StepGeneration },
                ..machine
            },
            seq![EffectView::Emit(announcement(machine.plan_id, generation_failed_text()))],
        ),
        _ => (machine, Seq::empty()),
    }
}

impl CreatePlan {
    pub fn plan_id(&self) -> (plan_id: PlanId)
        ensures
            plan_id == self@.plan_id,
    {
        self.plan_id
    }

    pub fn state(&self) -> (state: &CreationState)
        ensures
            state@ == self@.state,
    {
        &self.state
    }

    /// Whether the creation has come to an end, whichever way.
    pub fn is_finished(&self) -> (finished: bool)
        ensures
            finished == !(self@.state is AwaitingSteps),
    {
        match &self.state {
            CreationState::AwaitingSteps => false,
            _ => true,
        }
    }

    /// What the creation has come to: the plan, or the reason there is
    /// none, or nothing yet.
    pub fn into_result(self) -> (result: Option<Result<Plan, PlanServiceError>>)
        ensures
            match result {
                Some(Ok(plan)) => self@.state == (CreationStateView::Created { plan: plan@ }),
                Some(Err(error)) => self@.state == (CreationStateView::Failed { error }),
                None => self@.state is AwaitingSteps,
            },
    {
        match self.state {
            CreationState::AwaitingSteps => None,
            CreationState::Created { plan } => Some(Ok(plan)),
            CreationState::Failed { error } => Some(Err(error)),
        }
    }

    /// Takes in the outcome of the effect that the creation waits for and
    /// says what to do next.
    pub fn on_outcome(self, outcome: Outcome) -> (next: (Self, Vec<Effect>))
        ensures
            (next.0@, next.1.deep_view()) == creation_transition(self@, outcome@),
    {
        let CreatePlan { plan_id, storage_path, state } = self;
        let mut effects: Vec<Effect> = Vec::new();
        match (state, outcome) {
            (CreationState::AwaitingSteps, Outcome::StepsGenerated(Some(steps))) => {
                let plan = Plan::new(plan_id.to_text(), steps);
                let summary = plan.to_debug_message();
                effects.push(Effect::SavePlan(plan.clone()));
                effects.push(
                    Effect::Emit(
                        ProgressEvent::plan_generated(
                            plan_id,
                            storage_path.as_str(),
                            summary.as_str(),
                        ),
                    ),
                );
                (CreatePlan { plan_id, storage_path, state: CreationState::Created { plan } }, effects)
            },
            (CreationState::AwaitingSteps, Outcome::StepsGenerated(None)) => {
                effects.push(Effect::Emit(ProgressEvent::generation_failed(plan_id)));
                (
                    CreatePlan {
                        plan_id,
                        storage_path,
                        state: CreationState::Failed { error: PlanServiceError::StepGeneration },
                    },
                    effects,
                )
            },
            (state, _) => {
                (CreatePlan { plan_id, storage_path, state }, effects)
            },
        }
    }
}

/// Begins the creation of the plan `plan_id` for `user_query`, to be stored
/// at `plan_storage_path`.
pub fn create_plan(
    user_query: String,
    user_context: UserContext,
    plan_id: PlanId,
    plan_storage_path: String,
    is_deep_reasoning: bool,
) -> (begun: (CreatePlan, Vec<Effect>))
    ensures
        begun.0@ == creation_started(plan_id, plan_storage_path@),
        begun.1.deep_view() == creation_request(
            plan_id,
            user_query@,
            user_context@,
            is_deep_reasoning,
        ),
{
    let mut effects: Vec<Effect> = Vec::new();
    effects.push(Effect::Emit(ProgressEvent::generating_plan(plan_id)));
    effects.push(
        Effect::GenerateInitialSteps {
            query: user_query,
            context: user_context,
            deep_reasoning: is_deep_reasoning,
        },
    );
    (
        CreatePlan { plan_id, storage_path: plan_storage_path, state: CreationState::AwaitingSteps },
        effects,
    )
}

/// A creation that fails asks for nothing to be stored, and one that
/// succeeds asks for exactly the new plan, which has no checkpoint.
pub proof fn law_creation_stores_only_a_new_plan(machine: CreatePlanView, outcome: OutcomeView)
    requires
        machine.state is AwaitingSteps,
    ensures
        ({
            let (next, effects) = creation_transition(machine, outcome);
            match next.state {
                CreationStateView::Created { plan } => {
                    &&& plan.checkpoint is None
                    &&& plan.well_formed()
                    &&& saved_plans(effects) == seq![plan]
                },
                _ => saved_plans(effects) == Seq::<PlanView>::empty(),
            }
        }),
{
    reveal_with_fuel(saved_plans, 3);
}

} // verus!
