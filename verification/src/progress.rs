//! Progress events: what a caller sees of a plan's advancement.

use crate::identity::PlanId;
use crate::text::{decimal, render_decimal};
use vstd::prelude::*;
use vstd::string::StringExecFns;

verus! {

/// One user-visible update in a session: the answer as it stands, the part
/// that is new, and the name of the model it is attributed to.
#[derive(Debug)]
pub struct ProgressEvent {
    session_id: PlanId,
    answer_up_until_now: String,
    delta: Option<String>,
    model: String,
}

/// The mathematical content of a [`ProgressEvent`].
pub struct ProgressEventView {
    pub session_id: PlanId,
    pub answer_up_until_now: Seq<char>,
    pub delta: Option<Seq<char>>,
    pub model: Seq<char>,
}

/// The update that announces `message` in session `session_id`: the
/// message is both the whole answer and its newest part, and the model is
/// `"Custom"`.
pub open spec fn announcement(session_id: PlanId, message: Seq<char>) -> ProgressEventView {
    ProgressEventView {
        session_id,
        answer_up_until_now: message,
        delta: Some(message),
        model: "Custom"@,
    }
}

pub open spec fn load_failed_text() -> Seq<char> {
    "failed to load plan from storage"@
}

pub open spec fn resume_load_failed_text() -> Seq<char> {
    "failed to load plan from stroage"@
}

pub open spec fn generating_plan_text() -> Seq<char> {
    "Generating plan"@
}

pub open spec fn generation_failed_text() -> Seq<char> {
    "Failed to generate plan"@
}

pub open spec fn generating_steps_text() -> Seq<char> {
    "Generating new steps from the context"@
}

pub open spec fn extension_failed_text() -> Seq<char> {
    "Failed to add new steps to the plan"@
}

pub open spec fn already_executed_text(index: nat, checkpoint: nat) -> Seq<char> {
    "Already executed step:"@ + decimal(index) + ", checkpoint is at: "@ + decimal(checkpoint)
}

pub open spec fn step_failed_text(index: nat) -> Seq<char> {
    "Errored out while executing step: "@ + decimal(index)
}

pub open spec fn step_finished_text(index: nat) -> Seq<char> {
    "Finished executing until: "@ + decimal(index)
}

pub open spec fn plan_generated_text(location: Seq<char>, summary: Seq<char>) -> Seq<char> {
    "finished generating plan at [location]("@ + location + ")\nplan_information:\n"@ + summary
}

impl View for ProgressEvent {
    type V = ProgressEventView;

    closed spec fn view(&self) -> ProgressEventView {
        ProgressEventView {
            session_id: self.session_id,
            answer_up_until_now: self.answer_up_until_now@,
            delta: match self.delta {
                Some(delta) => Some(delta@),
                None => None,
            },
            model: self.model@,
        }
    }
}

impl DeepView for ProgressEvent {
    type V = ProgressEventView;

    open spec fn deep_view(&self) -> ProgressEventView {
        self@
    }
}

impl Clone for ProgressEvent {
    fn clone(&self) -> (copy: Self)
        ensures
            copy@ == self@,
    {
        ProgressEvent {
            session_id: self.session_id,
            answer_up_until_now: self.answer_up_until_now.clone(),
            delta: match &self.delta {
                Some(delta) => Some(delta.clone()),
                None => None,
            },
            model: self.model.clone(),
        }
    }
}

impl ProgressEvent {
    /// The update that announces `message` in session `session_id`.
    pub fn answer_update(session_id: PlanId, message: String) -> (event: Self)
        ensures
            event@ == announcement(session_id, message@),
    {
        ProgressEvent {
            session_id,
            answer_up_until_now: message.clone(),
            delta: Some(message),
            model: String::from_str("Custom"),
        }
    }

    pub fn session_id(&self) -> (session_id: PlanId)
        ensures
            session_id == self@.session_id,
    {
        self.session_id
    }

    pub fn answer_up_until_now(&self) -> (text: &str)
        ensures
            text@ == self@.answer_up_until_now,
    {
        self.answer_up_until_now.as_str()
    }

    pub fn delta(&self) -> (delta: Option<&str>)
        ensures
            match delta {
                Some(text) => self@.delta == Some(text@),
                None => self@.delta is None,
            },
    {
        match &self.delta {
            Some(delta) => Some(delta.as_str()),
            None => None,
        }
    }

    pub fn model(&self) -> (text: &str)
        ensures
            text@ == self@.model,
    {
        self.model.as_str()
    }

    /// A plan could not be loaded for extension.
    pub fn load_failed(session_id: PlanId) -> (event: Self)
        ensures
            event@ == announcement(session_id, load_failed_text()),
    {
        Self::answer_update(session_id, String::from_str("failed to load plan from storage"))
    }

    /// A plan could not be loaded for execution or for diagnosis.
    pub fn resume_load_failed(session_id: PlanId) -> (event: Self)
        ensures
            event@ == announcement(session_id, resume_load_failed_text()),
    {
        Self::answer_update(session_id, String::from_str("failed to load plan from stroage"))
    }

    pub fn generating_plan(session_id: PlanId) -> (event: Self)
        ensures
            event@ == announcement(session_id, generating_plan_text()),
    {
        Self::answer_update(session_id, String::from_str("Generating plan"))
    }

    pub fn generation_failed(session_id: PlanId) -> (event: Self)
        ensures
            event@ == announcement(session_id, generation_failed_text()),
    {
        Self::answer_update(session_id, String::from_str("Failed to generate plan"))
    }

    pub fn generating_steps(session_id: PlanId) -> (event: Self)
        ensures
            event@ == announcement(session_id, generating_steps_text()),
    {
        Self::answer_update(session_id, String::from_str("Generating new steps from the context"))
    }

    pub fn extension_failed(session_id: PlanId) -> (event: Self)
        ensures
            event@ == announcement(session_id, extension_failed_text()),
    {
        Self::answer_update(session_id, String::from_str("Failed to add new steps to the plan"))
    }

    /// The step at `index` lies at or below `checkpoint` and is skipped.
    pub fn already_executed(session_id: PlanId, index: usize, checkpoint: usize) -> (event: Self)
        ensures
            event@ == announcement(
                session_id,
                already_executed_text(index as nat, checkpoint as nat),
            ),
    {
        let mut message = String::from_str("Already executed step:");
        message.append(render_decimal(index).as_str());
        message.append(", checkpoint is at: ");
        message.append(render_decimal(checkpoint).as_str());
        Self::answer_update(session_id, message)
    }

    /// The step at `index` failed.
    pub fn step_failed(session_id: PlanId, index: usize) -> (event: Self)
        ensures
            event@ == announcement(session_id, step_failed_text(index as nat)),
    {
        let mut message = String::from_str("Errored out while executing step: ");
        message.append(render_decimal(index).as_str());
        Self::answer_update(session_id, message)
    }

    /// The step at `index` succeeded.
    pub fn step_finished(session_id: PlanId, index: usize) -> (event: Self)
        ensures
            event@ == announcement(session_id, step_finished_text(index as nat)),
    {
        let mut message = String::from_str("Finished executing until: ");
        message.append(render_decimal(index).as_str());
        Self::answer_update(session_id, message)
    }

    /// A plan was generated and stored at `location`.
    pub fn plan_generated(session_id: PlanId, location: &str, summary: &str) -> (event: Self)
        ensures
            event@ == announcement(session_id, plan_generated_text(location@, summary@)),
    {
        let mut message = String::from_str("finished generating plan at [location](");
        message.append(location);
        message.append(")\nplan_information:\n");
        message.append(summary);
        Self::answer_update(session_id, message)
    }
}

} // verus!
