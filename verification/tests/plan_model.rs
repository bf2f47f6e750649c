use sidecar::identity::PlanId;
use sidecar::plan::{CheckpointError, Plan, PlanStep};

fn step(instruction: &str, files: &[&str]) -> PlanStep {
    PlanStep::new(
        instruction.to_owned(),
        String::new(),
        files.iter().map(|file| file.to_string()).collect(),
    )
}

#[test]
fn new_plan_has_no_checkpoint() {
    let plan = Plan::new("p".to_owned(), vec![step("a", &[]), step("b", &[])]);
    assert_eq!(plan.id(), "p");
    assert_eq!(plan.len(), 2);
    assert_eq!(plan.checkpoint(), None);
}

#[test]
fn checkpoint_moves_one_step_at_a_time() {
    let mut plan = Plan::new("p".to_owned(), vec![step("a", &[]), step("b", &[])]);
    assert_eq!(plan.advance_checkpoint(1), Err(CheckpointError::OutOfOrder));
    assert_eq!(plan.advance_checkpoint(0), Ok(()));
    assert_eq!(plan.checkpoint(), Some(0));
    assert_eq!(plan.advance_checkpoint(0), Err(CheckpointError::OutOfOrder));
    assert_eq!(plan.advance_checkpoint(1), Ok(()));
    assert_eq!(plan.advance_checkpoint(2), Err(CheckpointError::NoSuchStep));
    assert_eq!(plan.checkpoint(), Some(1));
}

#[test]
fn plan_id_text_is_hyphenated_lower_case() {
    let id = PlanId::from_u128(0xa1a2a3a4b1b2c1c2d1d2d3d4d5d6d7d8u128);
    assert_eq!(id.to_text(), "a1a2a3a4-b1b2-c1c2-d1d2-d3d4d5d6d7d8");
}

#[test]
fn restore_refuses_checkpoint_beyond_steps() {
    assert!(Plan::restore("p".to_owned(), vec![step("a", &[])], Some(1)).is_none());
    assert!(Plan::restore("p".to_owned(), vec![], Some(0)).is_none());
    let plan = Plan::restore("p".to_owned(), vec![step("a", &[])], Some(0)).unwrap();
    assert_eq!(plan.checkpoint(), Some(0));
    assert!(Plan::restore("p".to_owned(), vec![], None).is_some());
}

#[test]
fn appended_steps_follow_and_checkpoint_stays() {
    let plan = Plan::restore("p".to_owned(), vec![step("a", &[]), step("b", &[])], Some(1)).unwrap();
    let plan = plan.append_steps(vec![step("c", &[]), step("d", &[])]);
    let instructions: Vec<&str> = plan.steps().iter().map(|s| s.instruction()).collect();
    assert_eq!(instructions, vec!["a", "b", "c", "d"]);
    assert_eq!(plan.checkpoint(), Some(1));
    assert_eq!(plan.id(), "p");
}

#[test]
fn edited_files_are_named_once_in_order_of_first_mention() {
    let plan = Plan::new(
        "p".to_owned(),
        vec![step("a", &["x", "y", "x"]), step("b", &["z", "y"]), step("c", &["w"])],
    );
    assert_eq!(plan.edited_files(0), vec!["x", "y"]);
    assert_eq!(plan.edited_files(1), vec!["x", "y", "z"]);
    assert_eq!(plan.edited_files(2), vec!["x", "y", "z", "w"]);
    assert_eq!(plan.edited_files(usize::MAX), vec!["x", "y", "z", "w"]);
    assert!(Plan::new("p".to_owned(), vec![]).edited_files(0).is_empty());
}

#[test]
fn summary_numbers_the_steps() {
    let plan = Plan::new("p".to_owned(), vec![step("first", &[]), step("second", &[])]);
    assert_eq!(plan.to_debug_message(), "0. first\n1. second");
    assert_eq!(Plan::new("p".to_owned(), vec![]).to_debug_message(), "");
}

#[test]
fn copies_are_equal_in_content() {
    let plan = Plan::restore("p".to_owned(), vec![step("a", &["x"])], Some(0)).unwrap();
    let copy = plan.clone();
    assert_eq!(copy.id(), "p");
    assert_eq!(copy.checkpoint(), Some(0));
    assert_eq!(copy.steps()[0].files_to_edit(), &vec!["x".to_owned()]);
    assert_eq!(copy.steps()[0].context(), "");
}
