//! Turning the diagnostics on a plan's edited files into further steps.

use crate::diagnostics::{grouped, DiagnosticMap, DiagnosticView};
use crate::identity::PlanId;
use crate::plan::{Plan, PlanView};
use crate::progress::{
    announcement, extension_failed_text, resume_load_failed_text, ProgressEvent,
};
use crate::service::append::{extend_and_report, extension_report};
use crate::service::{Effect, EffectView, Outcome, OutcomeView};
use vstd::prelude::*;
use vstd::string::StringExecFns;

verus! {

/// The query with which steps are asked for that address diagnostics.
pub open spec fn repair_query() -> Seq<char> {
    "Fix these LSP errors."@
}

/// Where a diagnosis stands.
#[derive(Debug)]
pub enum DiagnosisState {
    /// The plan has been asked for.
    AwaitingPlan,
    /// The diagnostics on the edited files of `plan` have been asked for.
    AwaitingDiagnostics { plan: Plan },
    /// The planner has been asked for steps that address the diagnostics.
    AwaitingSteps { plan: Plan },
    /// Nothing of the plan has been executed, so there was nothing to
    /// diagnose.
    NothingExecuted { plan: Plan },
    /// The steps were added and the plan handed out for storing.
    Extended { plan: Plan },
    /// The plan could not be loaded.
    LoadFailed,
    /// The planner failed; `plan` is as it was loaded, and was not stored.
    GenerationFailed { plan: Plan },
}

/// The mathematical content of a [`DiagnosisState`].
pub enum DiagnosisStateView {
    AwaitingPlan,
    AwaitingDiagnostics { plan: PlanView },
    AwaitingSteps { plan: PlanView },
    NothingExecuted { plan: PlanView },
    Extended { plan: PlanView },
    LoadFailed,
    GenerationFailed { plan: PlanView },
}

impl View for DiagnosisState {
    type V = DiagnosisStateView;

    open spec fn view(&self) -> DiagnosisStateView {
        match self {
            DiagnosisState::AwaitingPlan => DiagnosisStateView::AwaitingPlan,
            DiagnosisState::AwaitingDiagnostics { plan } => DiagnosisStateView::AwaitingDiagnostics {
                plan: plan@,
            },
            DiagnosisState::AwaitingSteps { plan } => DiagnosisStateView::AwaitingSteps {
                plan: plan@,
            },
            DiagnosisState::NothingExecuted { plan } => DiagnosisStateView::NothingExecuted {
                plan: plan@,
            },
            DiagnosisState::Extended { plan } => DiagnosisStateView::Extended { plan: plan@ },
            DiagnosisState::LoadFailed => DiagnosisStateView::LoadFailed,
            DiagnosisState::GenerationFailed { plan } => DiagnosisStateView::GenerationFailed {
                plan: plan@,
            },
        }
    }
}

/// The diagnosis of one plan.
#[derive(Debug)]
pub struct DiagnosticsToSteps {
    session_id: PlanId,
    deep_reasoning: bool,
    state: DiagnosisState,
}

/// The mathematical content of a [`DiagnosticsToSteps`].
pub struct DiagnosticsToStepsView {
    pub session_id: PlanId,
    pub deep_reasoning: bool,
    pub state: DiagnosisStateView,
}

impl View for DiagnosticsToSteps {
    type V = DiagnosticsToStepsView;

    closed spec fn view(&self) -> DiagnosticsToStepsView {
        DiagnosticsToStepsView {
            session_id: self.session_id,
            deep_reasoning: self.deep_reasoning,
            state: self.state@,
        }
    }
}

/// The diagnosis that has just asked for its plan.
pub open spec fn diagnosis_started(session_id: PlanId, deep_reasoning: bool) -> DiagnosticsToStepsView {
    DiagnosticsToStepsView { session_id, deep_reasoning, state: DiagnosisStateView::AwaitingPlan }
}

/// The records that a fetch came back with: none where it failed.
pub open spec fn fetched_records(fetched: Option<Seq<DiagnosticView>>) -> Seq<DiagnosticView> {
    match fetched {
        Some(records) => records,
        None => Seq::empty(),
    }
}

/// What a diagnosis does when it is told an outcome.
///
/// - Told that the plan could not be loaded, it reports so and stops.
/// - Told a plan of which nothing has been executed, it stops: it asks
///   for no diagnostics and for no steps.
/// - Told a plan with a checkpoint, it asks for the diagnostics on the
///   files that the steps up to the checkpoint set out to edit.
/// - Told the diagnostics, or that they could not be fetched, which counts
///   as none, it groups them by file and asks the planner for steps that
///   address them.
/// - Told the steps, it adds them to the plan as an extension does.
/// - Told that the planner failed, it reports so; nothing is stored.
/// - Told anything it does not wait for, it does nothing.
pub open spec fn diagnosis_transition(machine: DiagnosticsToStepsView, outcome: OutcomeView) -> (
    DiagnosticsToStepsView,
    Seq<EffectView>,
) {
    let session_id = machine.session_id;
    match (machine.state, outcome) {
        (DiagnosisStateView::AwaitingPlan, OutcomeView::PlanLoaded(Err(_))) => (
            DiagnosticsToStepsView { state: DiagnosisStateView::LoadFailed, ..machine },
            seq![EffectView::Emit(announcement(session_id, resume_load_failed_text()))],
        ),
        (DiagnosisStateView::AwaitingPlan, OutcomeView::PlanLoaded(Ok(plan))) => {
            match plan.checkpoint {
                None => (
                    DiagnosticsToStepsView {
                        state: DiagnosisStateView::NothingExecuted { plan },
                        ..machine
                    },
                    Seq::empty(),
                ),
                Some(checkpoint) => (
                    DiagnosticsToStepsView {
                        state: DiagnosisStateView::AwaitingDiagnostics { plan },
                        ..machine
                    },
                    seq![EffectView::FetchDiagnostics { files: plan.edited_files(checkpoint) }],
                ),
            }
        },
        (
            DiagnosisStateView::AwaitingDiagnostics { plan },
            OutcomeView::DiagnosticsFetched(fetched),
        ) => (
            DiagnosticsToStepsView { state: DiagnosisStateView::AwaitingSteps { plan }, ..machine },
            seq![
                EffectView::GenerateStepsFromDiagnostics {
                    query: repair_query(),
                    diagnostics: grouped(fetched_records(fetched)),
                    deep_reasoning: machine.deep_reasoning,
                },
            ],
        ),
        (DiagnosisStateView::AwaitingSteps { plan }, OutcomeView::StepsGenerated(Some(steps))) => {
            let extended = plan.extended_by(steps);
            (
                DiagnosticsToStepsView {
                    state: DiagnosisStateView::Extended { plan: extended },
                    ..machine
                },
                extension_report(session_id, extended),
            )
        },
        (DiagnosisStateView::AwaitingSteps { plan }, OutcomeView::StepsGenerated(None)) => (
            DiagnosticsToStepsView {
                state: DiagnosisStateView::GenerationFailed { plan },
                ..machine
            },
            seq![EffectView::Emit(announcement(session_id, extension_failed_text()))],
        ),
        _ => (machine, Seq::empty()),
    }
}

impl DiagnosticsToSteps {
    pub fn session_id(&self) -> (session_id: PlanId)
        ensures
            session_id == self@.session_id,
    {
        self.session_id
    }

    pub fn state(&self) -> (state: &DiagnosisState)
        ensures
            state@ == self@.state,
    {
        &self.state
    }

    /// Whether the diagnosis has come to an end, whichever way.
    pub fn is_finished(&self) -> (finished: bool)
        ensures
            finished == !(self@.state is AwaitingPlan || self@.state is AwaitingDiagnostics
                || self@.state is AwaitingSteps),
    {
        match &self.state {
            DiagnosisState::AwaitingPlan => false,
            DiagnosisState::AwaitingDiagnostics { .. } => false,
            DiagnosisState::AwaitingSteps { .. } => false,
            _ => true,
        }
    }

    /// Takes in the outcome of the effect that the diagnosis waits for and
    /// says what to do next.
    pub fn on_outcome(self, outcome: Outcome) -> (next: (Self, Vec<Effect>))
        ensures
            (next.0@, next.1.deep_view()) == diagnosis_transition(self@, outcome@),
    {
        let DiagnosticsToSteps { session_id, deep_reasoning, state } = self;
        let mut effects: Vec<Effect> = Vec::new();
        match (state, outcome) {
            (DiagnosisState::AwaitingPlan, Outcome::PlanLoaded(Err(_))) => {
                effects.push(Effect::Emit(ProgressEvent::resume_load_failed(session_id)));
                (
                    DiagnosticsToSteps { session_id, deep_reasoning, state: DiagnosisState::LoadFailed },
                    effects,
                )
            },
            (DiagnosisState::AwaitingPlan, Outcome::PlanLoaded(Ok(plan))) => {
                match plan.checkpoint() {
                    None => (
                        DiagnosticsToSteps {
                            session_id,
                            deep_reasoning,
                            state: DiagnosisState::NothingExecuted { plan },
                        },
                        effects,
                    ),
                    Some(checkpoint) => {
                        let files = plan.edited_files(checkpoint);
                        effects.push(Effect::FetchDiagnostics { files });
                        (
                            DiagnosticsToSteps {
                                session_id,
                                deep_reasoning,
                                state: DiagnosisState::AwaitingDiagnostics { plan },
                            },
                            effects,
                        )
                    },
                }
            },
            (DiagnosisState::AwaitingDiagnostics { plan }, Outcome::DiagnosticsFetched(fetched)) => {
                let records = match fetched {
                    Some(records) => records,
                    None => {
                        let none: Vec<crate::diagnostics::Diagnostic> = Vec::new();
                        assert(none.deep_view() =~= Seq::<DiagnosticView>::empty());
                        none
                    },
                };
                let diagnostics = DiagnosticMap::group_by_file(&records);
                effects.push(
                    Effect::GenerateStepsFromDiagnostics {
                        query: String::from_str("Fix these LSP errors."),
                        diagnostics,
                        deep_reasoning,
                    },
                );
                (
                    DiagnosticsToSteps {
                        session_id,
                        deep_reasoning,
                        state: DiagnosisState::AwaitingSteps { plan },
                    },
                    effects,
                )
            },
            (DiagnosisState::AwaitingSteps { plan }, Outcome::StepsGenerated(Some(steps))) => {
                let extended = extend_and_report(session_id, plan, steps, &mut effects);
                (
                    DiagnosticsToSteps {
                        session_id,
                        deep_reasoning,
                        state: DiagnosisState::Extended { plan: extended },
                    },
                    effects,
                )
            },
            (DiagnosisState::AwaitingSteps { plan }, Outcome::StepsGenerated(None)) => {
                effects.push(Effect::Emit(ProgressEvent::extension_failed(session_id)));
                (
                    DiagnosticsToSteps {
                        session_id,
                        deep_reasoning,
                        state: DiagnosisState::GenerationFailed { plan },
                    },
                    effects,
                )
            },
            (state, _) => (DiagnosticsToSteps { session_id, deep_reasoning, state }, effects),
        }
    }
}

/// Begins the diagnosis of the plan `plan_id`: the plan is asked for.
pub fn generate_steps_from_diagnostics(plan_id: PlanId, is_deep_reasoning: bool) -> (begun: (
    DiagnosticsToSteps,
    Vec<Effect>,
))
    ensures
        begun.0@ == diagnosis_started(plan_id, is_deep_reasoning),
        begun.1.deep_view() == seq![EffectView::LoadPlan],
{
    let mut effects: Vec<Effect> = Vec::new();
    effects.push(Effect::LoadPlan);
    (
        DiagnosticsToSteps {
            session_id: plan_id,
            deep_reasoning: is_deep_reasoning,
            state: DiagnosisState::AwaitingPlan,
        },
        effects,
    )
}

/// What a diagnosis does when it is told, one after another, the outcomes
/// in `outcomes`, and everything it asks for on the way.
pub open spec fn diagnosis(machine: DiagnosticsToStepsView, outcomes: Seq<OutcomeView>) -> (
    DiagnosticsToStepsView,
    Seq<EffectView>,
)
    decreases outcomes.len(),
{
    if outcomes.len() == 0 {
        (machine, Seq::empty())
    } else {
        let (before, earlier) = diagnosis(machine, outcomes.drop_last());
        let (end, last) = diagnosis_transition(before, outcomes.last());
        (end, earlier + last)
    }
}

/// The diagnosis of a plan of which nothing has been executed asks for
/// nothing, whatever it is told afterwards: no diagnostics are fetched, no
/// steps are generated, no event is sent, and the plan is neither changed
/// nor stored.
pub proof fn law_diagnosis_of_unexecuted_plan_is_idle(
    session_id: PlanId,
    deep_reasoning: bool,
    plan: PlanView,
    later: Seq<OutcomeView>,
)
    requires
        plan.checkpoint is None,
    ensures
        diagnosis(
            diagnosis_started(session_id, deep_reasoning),
            seq![OutcomeView::PlanLoaded(Ok(plan))] + later,
        ) == (
            DiagnosticsToStepsView {
                session_id,
                deep_reasoning,
                state: DiagnosisStateView::NothingExecuted { plan },
            },
            Seq::<EffectView>::empty(),
        ),
    decreases later.len(),
{
    let outcomes = seq![OutcomeView::PlanLoaded(Ok(plan))] + later;
    if later.len() == 0 {
        reveal_with_fuel(diagnosis, 2);
    } else {
        assert(outcomes.drop_last() =~= seq![OutcomeView::PlanLoaded(Ok(plan))] + later.drop_last());
        law_diagnosis_of_unexecuted_plan_is_idle(session_id, deep_reasoning, plan, later.drop_last());
    }
}

} // verus!
