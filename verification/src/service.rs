//! The plan service: creation, extension, execution and diagnosis of a
//! plan, each as a decision procedure.
//!
//! A procedure never performs outside work itself. It hands out
//! [`Effect`]s, which its driver carries out in order, and it is told the
//! [`Outcome`] of the one effect in each batch that has an answer: the last.
//! So the driver stays a plain loop, and everything that is decided is
//! decided here.

pub mod append;
pub mod create;
pub mod diagnose;
pub mod execute;

use crate::diagnostics::{Diagnostic, DiagnosticMap, DiagnosticView};
use crate::plan::{Plan, PlanStep, PlanStepView, PlanView};
use crate::progress::{ProgressEvent, ProgressEventView};
use crate::store::StoreError;
use crate::user_context::{UserContext, UserContextView};
use vstd::prelude::*;

verus! {

/// Work that a procedure asks its driver to do.
#[derive(Debug)]
pub enum Effect {
    /// Send the event to whoever follows the session. A failure to deliver
    /// is not reported back.
    Emit(ProgressEvent),
    /// Load the plan's snapshot; answered by [`Outcome::PlanLoaded`].
    LoadPlan,
    /// Overwrite the plan's snapshot with this plan. A failure to store is
    /// not reported back.
    SavePlan(Plan),
    /// Execute the step at `index`, with the context of the steps up to
    /// `context_checkpoint`; answered by [`Outcome::StepExecuted`].
    ExecuteStep { index: usize, context_checkpoint: usize },
    /// Plan the first steps for `query`, given what the user handed over
    /// with it; answered by [`Outcome::StepsGenerated`].
    GenerateInitialSteps { query: String, context: UserContext, deep_reasoning: bool },
    /// Plan further steps for `query`, after the steps of `plan`, given
    /// what the user handed over with the query; answered by
    /// [`Outcome::StepsGenerated`].
    GenerateAdditionalSteps { plan: Plan, query: String, context: UserContext },
    /// Fetch the diagnostics that stand on `files`; answered by
    /// [`Outcome::DiagnosticsFetched`].
    FetchDiagnostics { files: Vec<String> },
    /// Plan steps that address `diagnostics`; answered by
    /// [`Outcome::StepsGenerated`].
    GenerateStepsFromDiagnostics { query: String, diagnostics: DiagnosticMap, deep_reasoning: bool },
}

/// The mathematical content of an [`Effect`].
pub enum EffectView {
    Emit(ProgressEventView),
    LoadPlan,
    SavePlan(PlanView),
    ExecuteStep { index: nat, context_checkpoint: nat },
    GenerateInitialSteps { query: Seq<char>, context: UserContextView, deep_reasoning: bool },
    GenerateAdditionalSteps { plan: PlanView, query: Seq<char>, context: UserContextView },
    FetchDiagnostics { files: Seq<Seq<char>> },
    GenerateStepsFromDiagnostics {
        query: Seq<char>,
        diagnostics: Map<Seq<char>, Seq<DiagnosticView>>,
        deep_reasoning: bool,
    },
}

impl View for Effect {
    type V = EffectView;

    open spec fn view(&self) -> EffectView {
        match self {
            Effect::Emit(event) => EffectView::Emit(event@),
            Effect::LoadPlan => EffectView::LoadPlan,
            Effect::SavePlan(plan) => EffectView::SavePlan(plan@),
            Effect::ExecuteStep { index, context_checkpoint } => EffectView::ExecuteStep {
                index: *index as nat,
                context_checkpoint: *context_checkpoint as nat,
            },
            Effect::GenerateInitialSteps {
                query,
                context,
                deep_reasoning,
            } => EffectView::GenerateInitialSteps {
                query: query@,
                context: context@,
                deep_reasoning: *deep_reasoning,
            },
            Effect::GenerateAdditionalSteps {
                plan,
                query,
                context,
            } => EffectView::GenerateAdditionalSteps {
                plan: plan@,
                query: query@,
                context: context@,
            },
            Effect::FetchDiagnostics { files } => EffectView::FetchDiagnostics {
                files: files.deep_view(),
            },
            Effect::GenerateStepsFromDiagnostics {
                query,
                diagnostics,
                deep_reasoning,
            } => EffectView::GenerateStepsFromDiagnostics {
                query: query@,
                diagnostics: diagnostics@,
                deep_reasoning: *deep_reasoning,
            },
        }
    }
}

impl DeepView for Effect {
    type V = EffectView;

    open spec fn deep_view(&self) -> EffectView {
        self@
    }
}

/// What came of the effect that a procedure waits for.
#[derive(Debug)]
pub enum Outcome {
    /// The snapshot was read and held this plan, or could not be loaded.
    PlanLoaded(Result<Plan, StoreError>),
    /// The step succeeded (`true`) or failed.
    StepExecuted(bool),
    /// The planner returned these steps, or failed (`None`).
    StepsGenerated(Option<Vec<PlanStep>>),
    /// The tooling returned these diagnostics, or failed (`None`).
    DiagnosticsFetched(Option<Vec<Diagnostic>>),
}

/// The mathematical content of an [`Outcome`].
pub enum OutcomeView {
    PlanLoaded(Result<PlanView, StoreError>),
    StepExecuted(bool),
    StepsGenerated(Option<Seq<PlanStepView>>),
    DiagnosticsFetched(Option<Seq<DiagnosticView>>),
}

impl View for Outcome {
    type V = OutcomeView;

    open spec fn view(&self) -> OutcomeView {
        match self {
            Outcome::PlanLoaded(Ok(plan)) => OutcomeView::PlanLoaded(Ok(plan@)),
            Outcome::PlanLoaded(Err(error)) => OutcomeView::PlanLoaded(Err(*error)),
            Outcome::StepExecuted(succeeded) => OutcomeView::StepExecuted(*succeeded),
            Outcome::StepsGenerated(Some(steps)) => OutcomeView::StepsGenerated(
                Some(steps.deep_view()),
            ),
            Outcome::StepsGenerated(None) => OutcomeView::StepsGenerated(None),
            Outcome::DiagnosticsFetched(Some(records)) => OutcomeView::DiagnosticsFetched(
                Some(records.deep_view()),
            ),
            Outcome::DiagnosticsFetched(None) => OutcomeView::DiagnosticsFetched(None),
        }
    }
}

/// The indices of the steps that `effects` asks to execute, in order.
pub open spec fn executed_steps(effects: Seq<EffectView>) -> Seq<nat>
    decreases effects.len(),
{
    if effects.len() == 0 {
        Seq::empty()
    } else {
        let earlier = executed_steps(effects.drop_last());
        match effects.last() {
            EffectView::ExecuteStep { index, .. } => earlier.push(index),
            _ => earlier,
        }
    }
}

/// The plans that `effects` asks to store, in order.
pub open spec fn saved_plans(effects: Seq<EffectView>) -> Seq<PlanView>
    decreases effects.len(),
{
    if effects.len() == 0 {
        Seq::empty()
    } else {
        let earlier = saved_plans(effects.drop_last());
        match effects.last() {
            EffectView::SavePlan(plan) => earlier.push(plan),
            _ => earlier,
        }
    }
}

} // verus!
