use sidecar::diagnostics::Diagnostic;
use sidecar::identity::PlanId;
use sidecar::plan::{Plan, PlanStep};
use sidecar::service::append::{append_to_plan, ExtensionState};
use sidecar::service::create::{create_plan, CreationState, PlanServiceError};
use sidecar::service::diagnose::{generate_steps_from_diagnostics, DiagnosisState};
use sidecar::service::{Effect, Outcome};
use sidecar::store::StoreError;
use sidecar::user_context::{FileContentValue, UserContext};

fn step_on(instruction: &str, files: &[&str]) -> PlanStep {
    PlanStep::new(
        instruction.to_owned(),
        String::new(),
        files.iter().map(|file| file.to_string()).collect(),
    )
}

fn context_with(path: &str) -> UserContext {
    UserContext {
        variables: vec![],
        file_content_map: vec![FileContentValue {
            file_path: path.to_owned(),
            file_content: String::new(),
            language: "rust".to_owned(),
        }],
    }
}

fn message(effect: &Effect) -> &str {
    match effect {
        Effect::Emit(event) => event.answer_up_until_now(),
        other => panic!("expected an event, found {:?}", other),
    }
}

#[test]
fn creation_makes_stores_and_reports_a_plan() {
    let id = PlanId::from_u128(0x0123456789abcdef0123456789abcdefu128);
    let (machine, effects) = create_plan(
        "add a test".to_owned(),
        context_with("a.rs"),
        id,
        "/index/plans/p".to_owned(),
        true,
    );
    assert_eq!(effects.len(), 2);
    assert_eq!(message(&effects[0]), "Generating plan");
    let Effect::GenerateInitialSteps { query, context, deep_reasoning } = &effects[1] else {
        panic!("expected a request for the first steps");
    };
    assert_eq!(query, "add a test");
    assert_eq!(context.file_content_map[0].file_path, "a.rs");
    assert!(*deep_reasoning);
    assert!(!machine.is_finished());
    assert_eq!(machine.plan_id(), id);

    let steps = vec![step_on("write the test", &["a.rs"]), step_on("run it", &[])];
    let (machine, effects) = machine.on_outcome(Outcome::StepsGenerated(Some(steps)));
    assert_eq!(effects.len(), 2);
    let Effect::SavePlan(saved) = &effects[0] else {
        panic!("expected the plan to be stored first");
    };
    assert_eq!(saved.id(), "01234567-89ab-cdef-0123-456789abcdef");
    assert_eq!(saved.checkpoint(), None);
    assert_eq!(saved.len(), 2);
    assert_eq!(
        message(&effects[1]),
        "finished generating plan at [location](/index/plans/p)\nplan_information:\n0. write the test\n1. run it"
    );
    assert!(machine.is_finished());
    assert!(matches!(machine.state(), CreationState::Created { .. }));
    let plan = machine.into_result().expect("finished").expect("created");
    assert_eq!(plan.len(), 2);
    assert_eq!(plan.steps()[0].instruction(), "write the test");
}

#[test]
fn failed_creation_stores_nothing() {
    let (machine, _) = create_plan(
        "q".to_owned(),
        UserContext::default(),
        PlanId::from_u128(1),
        "/p".to_owned(),
        false,
    );
    let (machine, effects) = machine.on_outcome(Outcome::StepsGenerated(None));
    assert_eq!(effects.len(), 1);
    assert_eq!(message(&effects[0]), "Failed to generate plan");
    assert!(matches!(
        machine.into_result(),
        Some(Err(PlanServiceError::StepGeneration))
    ));
}

#[test]
fn unfinished_creation_has_no_result() {
    let (machine, _) = create_plan(
        "q".to_owned(),
        UserContext::default(),
        PlanId::from_u128(1),
        "/p".to_owned(),
        false,
    );
    let (machine, effects) = machine.on_outcome(Outcome::StepExecuted(true));
    assert!(effects.is_empty());
    assert!(machine.into_result().is_none());
}

#[test]
fn extension_adds_steps_and_keeps_checkpoint() {
    let id = PlanId::from_u128(3);
    let (machine, effects) = append_to_plan(id, "also lint".to_owned(), context_with("b.rs"));
    assert!(matches!(effects.as_slice(), [Effect::LoadPlan]));
    let plan = Plan::restore(
        "p".to_owned(),
        vec![step_on("a", &[]), step_on("b", &[])],
        Some(0),
    )
    .unwrap();
    let (machine, effects) = machine.on_outcome(Outcome::PlanLoaded(Ok(plan)));
    assert_eq!(effects.len(), 2);
    assert_eq!(message(&effects[0]), "Generating new steps from the context");
    let Effect::GenerateAdditionalSteps { plan: existing, query, context } = &effects[1] else {
        panic!("expected a request for further steps");
    };
    assert_eq!(existing.len(), 2);
    assert_eq!(query, "also lint");
    assert_eq!(context.file_content_map[0].file_path, "b.rs");
    assert!(!machine.is_finished());

    let (machine, effects) =
        machine.on_outcome(Outcome::StepsGenerated(Some(vec![step_on("c", &[])])));
    assert_eq!(effects.len(), 2);
    assert_eq!(message(&effects[0]), "0. a\n1. b\n2. c");
    let Effect::SavePlan(saved) = &effects[1] else {
        panic!("expected the plan to be stored");
    };
    assert_eq!(saved.len(), 3);
    assert_eq!(saved.checkpoint(), Some(0));
    assert_eq!(saved.id(), "p");
    assert_eq!(saved.steps()[2].instruction(), "c");
    assert!(matches!(machine.state(), ExtensionState::Extended { .. }));
    assert_eq!(machine.session_id(), id);
}

#[test]
fn extension_reports_load_failure() {
    let (machine, _) =
        append_to_plan(PlanId::from_u128(3), "q".to_owned(), UserContext::default());
    let (machine, effects) = machine.on_outcome(Outcome::PlanLoaded(Err(StoreError::Malformed)));
    assert_eq!(effects.len(), 1);
    assert_eq!(message(&effects[0]), "failed to load plan from storage");
    assert!(matches!(machine.state(), ExtensionState::LoadFailed));
    assert!(machine.is_finished());
}

#[test]
fn failed_extension_leaves_plan_unstored() {
    let (machine, _) =
        append_to_plan(PlanId::from_u128(3), "q".to_owned(), UserContext::default());
    let plan = Plan::new("p".to_owned(), vec![step_on("a", &[])]);
    let (machine, _) = machine.on_outcome(Outcome::PlanLoaded(Ok(plan)));
    let (machine, effects) = machine.on_outcome(Outcome::StepsGenerated(None));
    assert_eq!(effects.len(), 1);
    assert_eq!(message(&effects[0]), "Failed to add new steps to the plan");
    let ExtensionState::GenerationFailed { plan } = machine.state() else {
        panic!("expected a failed generation");
    };
    assert_eq!(plan.len(), 1);
    assert_eq!(plan.checkpoint(), None);
}

#[test]
fn diagnosis_of_unexecuted_plan_asks_for_nothing() {
    let (machine, effects) = generate_steps_from_diagnostics(PlanId::from_u128(5), false);
    assert!(matches!(effects.as_slice(), [Effect::LoadPlan]));
    let plan = Plan::new("p".to_owned(), vec![step_on("a", &["a.rs"])]);
    let (machine, effects) = machine.on_outcome(Outcome::PlanLoaded(Ok(plan)));
    assert!(effects.is_empty());
    assert!(machine.is_finished());
    assert!(matches!(machine.state(), DiagnosisState::NothingExecuted { .. }));
    let (machine, effects) = machine.on_outcome(Outcome::DiagnosticsFetched(Some(vec![])));
    assert!(effects.is_empty());
    let (_, effects) = machine.on_outcome(Outcome::StepsGenerated(Some(vec![step_on("x", &[])])));
    assert!(effects.is_empty());
}

#[test]
fn diagnosis_fetches_for_edited_files_and_extends() {
    let id = PlanId::from_u128(5);
    let (machine, _) = generate_steps_from_diagnostics(id, true);
    let plan = Plan::restore(
        "p".to_owned(),
        vec![
            step_on("a", &["a.rs", "b.rs"]),
            step_on("b", &["b.rs", "c.rs"]),
            step_on("c", &["d.rs"]),
        ],
        Some(1),
    )
    .unwrap();
    let (machine, effects) = machine.on_outcome(Outcome::PlanLoaded(Ok(plan)));
    assert_eq!(effects.len(), 1);
    let Effect::FetchDiagnostics { files } = &effects[0] else {
        panic!("expected a fetch");
    };
    assert_eq!(files, &vec!["a.rs".to_owned(), "b.rs".to_owned(), "c.rs".to_owned()]);

    let records = vec![
        Diagnostic::new("b.rs".to_owned(), "unused".to_owned()),
        Diagnostic::new("a.rs".to_owned(), "missing".to_owned()),
        Diagnostic::new("b.rs".to_owned(), "unused".to_owned()),
    ];
    let (machine, effects) = machine.on_outcome(Outcome::DiagnosticsFetched(Some(records)));
    assert_eq!(effects.len(), 1);
    let Effect::GenerateStepsFromDiagnostics { query, diagnostics, deep_reasoning } = &effects[0]
    else {
        panic!("expected a request for steps");
    };
    assert_eq!(query, "Fix these LSP errors.");
    assert!(*deep_reasoning);
    assert_eq!(diagnostics.len(), 2);
    assert_eq!(diagnostics.get(&"b.rs".to_owned()).unwrap().len(), 2);
    assert_eq!(diagnostics.get(&"a.rs".to_owned()).unwrap().len(), 1);

    let (machine, effects) =
        machine.on_outcome(Outcome::StepsGenerated(Some(vec![step_on("fix", &["b.rs"])])));
    assert_eq!(effects.len(), 2);
    assert_eq!(message(&effects[0]), "0. a\n1. b\n2. c\n3. fix");
    let Effect::SavePlan(saved) = &effects[1] else {
        panic!("expected the plan to be stored");
    };
    assert_eq!(saved.len(), 4);
    assert_eq!(saved.checkpoint(), Some(1));
    assert!(matches!(machine.state(), DiagnosisState::Extended { .. }));
    assert_eq!(machine.session_id(), id);
}

#[test]
fn failed_fetch_counts_as_no_diagnostics() {
    let (machine, _) = generate_steps_from_diagnostics(PlanId::from_u128(5), false);
    let plan = Plan::restore("p".to_owned(), vec![step_on("a", &["a.rs"])], Some(0)).unwrap();
    let (machine, _) = machine.on_outcome(Outcome::PlanLoaded(Ok(plan)));
    let (machine, effects) = machine.on_outcome(Outcome::DiagnosticsFetched(None));
    assert_eq!(effects.len(), 1);
    let Effect::GenerateStepsFromDiagnostics { diagnostics, deep_reasoning, .. } = &effects[0]
    else {
        panic!("expected a request for steps");
    };
    assert!(diagnostics.is_empty());
    assert!(!*deep_reasoning);
    let (machine, effects) = machine.on_outcome(Outcome::StepsGenerated(None));
    assert_eq!(message(&effects[0]), "Failed to add new steps to the plan");
    assert!(matches!(machine.state(), DiagnosisState::GenerationFailed { .. }));
}

#[test]
fn diagnosis_reports_load_failure() {
    let (machine, _) = generate_steps_from_diagnostics(PlanId::from_u128(5), false);
    let (machine, effects) = machine.on_outcome(Outcome::PlanLoaded(Err(StoreError::NotFound)));
    assert_eq!(effects.len(), 1);
    assert_eq!(message(&effects[0]), "failed to load plan from stroage");
    assert!(matches!(machine.state(), DiagnosisState::LoadFailed));
}
