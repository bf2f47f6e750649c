//! Extension of a plan by further steps.

use crate::identity::PlanId;
use crate::plan::{Plan, PlanView};
use crate::progress::{
    announcement, extension_failed_text, generating_steps_text, load_failed_text, ProgressEvent,
};
use crate::service::{saved_plans, Effect, EffectView, Outcome, OutcomeView};
use crate::user_context::{UserContext, UserContextView};
use vstd::prelude::*;

verus! {

/// Where an extension stands.
#[derive(Debug)]
pub enum ExtensionState {
    /// The plan has been asked for.
    AwaitingPlan,
    /// The planner has been asked for steps to follow those of `plan`.
    AwaitingSteps { plan: Plan },
    /// The steps were added and the plan handed out for storing.
    Extended { plan: Plan },
    /// The plan could not be loaded.
    LoadFailed,
    /// The planner failed; `plan` is as it was loaded, and was not stored.
    GenerationFailed { plan: Plan },
}

/// The mathematical content of an [`ExtensionState`].
pub enum ExtensionStateView {
    AwaitingPlan,
    AwaitingSteps { plan: PlanView },
    Extended { plan: PlanView },
    LoadFailed,
    GenerationFailed { plan: PlanView },
}

impl View for ExtensionState {
    type V = ExtensionStateView;

    open spec fn view(&self) -> ExtensionStateView {
        match self {
            ExtensionState::AwaitingPlan => ExtensionStateView::AwaitingPlan,
            ExtensionState::AwaitingSteps { plan } => ExtensionStateView::AwaitingSteps {
                plan: plan@,
            },
            ExtensionState::Extended { plan } => ExtensionStateView::Extended { plan: plan@ },
            ExtensionState::LoadFailed => ExtensionStateView::LoadFailed,
            ExtensionState::GenerationFailed { plan } => ExtensionStateView::GenerationFailed {
                plan: plan@,
            },
        }
    }
}

/// The extension of one plan by the steps that answer a query.
#[derive(Debug)]
pub struct AppendToPlan {
    session_id: PlanId,
    query: String,
    context: UserContext,
    state: ExtensionState,
}

/// The mathematical content of an [`AppendToPlan`].
pub struct AppendToPlanView {
    pub session_id: PlanId,
    pub query: Seq<char>,
    pub context: UserContextView,
    pub state: ExtensionStateView,
}

impl View for AppendToPlan {
    type V = AppendToPlanView;

    closed spec fn view(&self) -> AppendToPlanView {
        AppendToPlanView {
            session_id: self.session_id,
            query: self.query@,
            context: self.context@,
            state: self.state@,
        }
    }
}

/// The extension that has just asked for its plan.
pub open spec fn extension_started(
    session_id: PlanId,
    query: Seq<char>,
    context: UserContextView,
) -> AppendToPlanView {
    AppendToPlanView { session_id, query, context, state: ExtensionStateView::AwaitingPlan }
}

/// What comes of adding `steps` to `plan`: the plan so extended is
/// summarised to the session and handed out for storing.
pub open spec fn extension_report(session_id: PlanId, extended: PlanView) -> Seq<EffectView> {
    seq![
        EffectView::Emit(announcement(session_id, extended.summary())),
        EffectView::SavePlan(extended),
    ]
}

/// What an extension does when it is told an outcome.
///
/// - Told that the plan could not be loaded, it reports so and stops.
/// - Told the plan, it says that steps are being generated and asks the
///   planner for steps that follow the plan's.
/// - Told the steps, it adds them behind the plan's, reports the plan's
///   summary, and asks for the plan to be stored. The checkpoint stays.
/// - Told that the planner failed, it reports so; the plan is left as it
///   was and is not stored.
/// - Told anything it does not wait for, it does nothing.
pub open spec fn extension_transition(machine: AppendToPlanView, outcome: OutcomeView) -> (
    AppendToPlanView,
    Seq<EffectView>,
) {
    let session_id = machine.session_id;
    match (machine.state, outcome) {
        (ExtensionStateView::AwaitingPlan, OutcomeView::PlanLoaded(Err(_))) => (
            AppendToPlanView { state: ExtensionStateView::LoadFailed, ..machine },
            seq![EffectView::Emit(announcement(session_id, load_failed_text()))],
        ),
        (ExtensionStateView::AwaitingPlan, OutcomeView::PlanLoaded(Ok(plan))) => (
            AppendToPlanView { state: ExtensionStateView::AwaitingSteps { plan }, ..machine },
            seq![
                EffectView::Emit(announcement(session_id, generating_steps_text())),
                EffectView::GenerateAdditionalSteps {
                    plan,
                    query: machine.query,
                    context: machine.context,
                },
            ],
        ),
        (ExtensionStateView::AwaitingSteps { plan }, OutcomeView::StepsGenerated(Some(steps))) => {
            let extended = plan.extended_by(steps);
            (
                AppendToPlanView { state: ExtensionStateView::Extended { plan: extended }, ..machine },
                extension_report(session_id, extended),
            )
        },
        (ExtensionStateView::AwaitingSteps { plan }, OutcomeView::StepsGenerated(None)) => (
            AppendToPlanView { state: ExtensionStateView::GenerationFailed { plan }, ..machine },
            seq![EffectView::Emit(announcement(session_id, extension_failed_text()))],
        ),
        _ => (machine, Seq::empty()),
    }
}

/// Adds `steps` behind those of `plan` and pushes the report of it onto
/// `effects`.
pub fn extend_and_report(
    session_id: PlanId,
    plan: Plan,
    steps: Vec<crate::plan::PlanStep>,
    effects: &mut Vec<Effect>,
) -> (extended: Plan)
    ensures
        extended@ == plan@.extended_by(steps.deep_view()),
        final(effects).deep_view() == old(effects).deep_view() + extension_report(
            session_id,
            extended@,
        ),
{
    let extended = plan.append_steps(steps);
    let summary = extended.to_debug_message();
    effects.push(Effect::Emit(ProgressEvent::answer_update(session_id, summary)));
    effects.push(Effect::SavePlan(extended.clone()));
    extended
}

impl AppendToPlan {
    pub fn session_id(&self) -> (session_id: PlanId)
        ensures
            session_id == self@.session_id,
    {
        self.session_id
    }

    pub fn state(&self) -> (state: &ExtensionState)
        ensures
            state@ == self@.state,
    {
        &self.state
    }

    /// Whether the extension has come to an end, whichever way.
    pub fn is_finished(&self) -> (finished: bool)
        ensures
            finished == !(self@.state is AwaitingPlan || self@.state is AwaitingSteps),
    {
        match &self.state {
            ExtensionState::AwaitingPlan => false,
            ExtensionState::AwaitingSteps { .. } => false,
            _ => true,
        }
    }

    /// Takes in the outcome of the effect that the extension waits for and
    /// says what to do next.
    pub fn on_outcome(self, outcome: Outcome) -> (next: (Self, Vec<Effect>))
        ensures
            (next.0@, next.1.deep_view()) == extension_transition(self@, outcome@),
    {
        let AppendToPlan { session_id, query, context, state } = self;
        let mut effects: Vec<Effect> = Vec::new();
        match (state, outcome) {
            (ExtensionState::AwaitingPlan, Outcome::PlanLoaded(Err(_))) => {
                effects.push(Effect::Emit(ProgressEvent::load_failed(session_id)));
                (
                    AppendToPlan { session_id, query, context, state: ExtensionState::LoadFailed },
                    effects,
                )
            },
            (ExtensionState::AwaitingPlan, Outcome::PlanLoaded(Ok(plan))) => {
                effects.push(Effect::Emit(ProgressEvent::generating_steps(session_id)));
                effects.push(
                    Effect::GenerateAdditionalSteps {
                        plan: plan.clone(),
                        query: query.clone(),
                        context: context.clone(),
                    },
                );
                (
                    AppendToPlan {
                        session_id,
                        query,
                        context,
                        state: ExtensionState::AwaitingSteps { plan },
                    },
                    effects,
                )
            },
            (ExtensionState::AwaitingSteps { plan }, Outcome::StepsGenerated(Some(steps))) => {
                let extended = extend_and_report(session_id, plan, steps, &mut effects);
                (
                    AppendToPlan {
                        session_id,
                        query,
                        context,
                        state: ExtensionState::Extended { plan: extended },
                    },
                    effects,
                )
            },
            (ExtensionState::AwaitingSteps { plan }, Outcome::StepsGenerated(None)) => {
                effects.push(Effect::Emit(ProgressEvent::extension_failed(session_id)));
                (
                    AppendToPlan {
                        session_id,
                        query,
                        context,
                        state: ExtensionState::GenerationFailed { plan },
                    },
                    effects,
                )
            },
            (state, _) => {
                (AppendToPlan { session_id, query, context, state }, effects)
            },
        }
    }
}

/// Begins the extension of the plan `plan_id` by steps for `query`: the
/// plan is asked for.
pub fn append_to_plan(plan_id: PlanId, query: String, user_context: UserContext) -> (begun: (
    AppendToPlan,
    Vec<Effect>,
))
    ensures
        begun.0@ == extension_started(plan_id, query@, user_context@),
        begun.1.deep_view() == seq![EffectView::LoadPlan],
{
    let mut effects: Vec<Effect> = Vec::new();
    effects.push(Effect::LoadPlan);
    (
        AppendToPlan {
            session_id: plan_id,
            query,
            context: user_context,
            state: ExtensionState::AwaitingPlan,
        },
        effects,
    )
}

/// An extension keeps what the plan had: the identifier, the checkpoint,
/// and every step in its place; a well-formed plan stays well formed. And
/// the plan is stored only when steps were added.
pub proof fn law_extension_keeps_the_plan(machine: AppendToPlanView, outcome: OutcomeView)
    requires
        machine.state matches ExtensionStateView::AwaitingSteps { plan } && plan.well_formed(),
    ensures
        ({
            let before = machine.state->AwaitingSteps_plan;
            let (next, effects) = extension_transition(machine, outcome);
            match next.state {
                ExtensionStateView::Extended { plan } => {
                    &&& plan.id == before.id
                    &&& plan.checkpoint == before.checkpoint
                    &&& plan.well_formed()
                    &&& before.steps.is_prefix_of(plan.steps)
                    &&& saved_plans(effects) == seq![plan]
                },
                ExtensionStateView::GenerationFailed { plan } => {
                    &&& plan == before
                    &&& saved_plans(effects) == Seq::<PlanView>::empty()
                },
                _ => next == machine && effects == Seq::<EffectView>::empty(),
            }
        }),
{
    reveal_with_fuel(saved_plans, 3);
}

} // verus!
