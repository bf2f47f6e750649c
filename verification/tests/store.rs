use sidecar::plan::{Plan, PlanStep};
use sidecar::store::{decode, encode, load, StoreError};

fn sample() -> Plan {
    let steps = vec![
        PlanStep::new(
            "écrire le test".to_owned(),
            "nothing yet".to_owned(),
            vec!["src/a.rs".to_owned(), "src/b.rs".to_owned()],
        ),
        PlanStep::new("run".to_owned(), String::new(), Vec::new()),
    ];
    Plan::restore("plan-1".to_owned(), steps, Some(1)).unwrap()
}

fn same(a: &Plan, b: &Plan) {
    assert_eq!(a.id(), b.id());
    assert_eq!(a.checkpoint(), b.checkpoint());
    assert_eq!(a.len(), b.len());
    for (x, y) in a.steps().iter().zip(b.steps().iter()) {
        assert_eq!(x.instruction(), y.instruction());
        assert_eq!(x.context(), y.context());
        assert_eq!(x.files_to_edit(), y.files_to_edit());
    }
}

#[test]
fn snapshot_of_small_plan_is_exact() {
    let plan = Plan::new("ab".to_owned(), vec![PlanStep::new("x".to_owned(), String::new(), vec![])]);
    let mut expected: Vec<u8> = vec![];
    expected.extend_from_slice(&[2, 0, 0, 0, 0, 0, 0, 0, b'a', b'b']);
    expected.push(0);
    expected.extend_from_slice(&[1, 0, 0, 0, 0, 0, 0, 0]);
    expected.extend_from_slice(&[1, 0, 0, 0, 0, 0, 0, 0, b'x']);
    expected.extend_from_slice(&[0, 0, 0, 0, 0, 0, 0, 0]);
    expected.extend_from_slice(&[0, 0, 0, 0, 0, 0, 0, 0]);
    assert_eq!(encode(&plan), expected);
}

#[test]
fn snapshot_is_read_back() {
    let plan = sample();
    let bytes = encode(&plan);
    let read = decode(&bytes).expect("a snapshot decodes");
    same(&plan, &read);
    assert_eq!(encode(&read), bytes);
}

#[test]
fn snapshot_without_checkpoint_is_read_back() {
    let plan = Plan::new("p".to_owned(), vec![]);
    let read = decode(&encode(&plan)).unwrap();
    same(&plan, &read);
    assert_eq!(read.checkpoint(), None);
}

#[test]
fn load_tells_missing_from_malformed() {
    assert!(matches!(load(None), Err(StoreError::NotFound)));
    assert!(matches!(load(Some(&[1, 2, 3])), Err(StoreError::Malformed)));
    let bytes = encode(&sample());
    same(&load(Some(&bytes)).unwrap(), &sample());
}

#[test]
fn truncated_snapshot_is_malformed() {
    let bytes = encode(&sample());
    for cut in 0..bytes.len() {
        assert!(matches!(decode(&bytes[..cut]), Err(StoreError::Malformed)), "cut at {}", cut);
    }
}

#[test]
fn trailing_bytes_are_malformed() {
    let mut bytes = encode(&sample());
    bytes.push(0);
    assert!(matches!(decode(&bytes), Err(StoreError::Malformed)));
}

#[test]
fn checkpoint_beyond_steps_is_malformed() {
    let plan = Plan::restore(
        "p".to_owned(),
        vec![PlanStep::new("x".to_owned(), String::new(), vec![])],
        Some(0),
    )
    .unwrap();
    let mut bytes = encode(&plan);
    // The checkpoint's index stands behind the identifier (8 + 1 bytes) and the tag.
    assert_eq!(bytes[9], 1);
    bytes[10] = 1;
    assert!(matches!(decode(&bytes), Err(StoreError::Malformed)));
}

#[test]
fn unknown_checkpoint_tag_is_malformed() {
    let mut bytes = encode(&Plan::new("p".to_owned(), vec![]));
    assert_eq!(bytes[9], 0);
    bytes[9] = 2;
    assert!(matches!(decode(&bytes), Err(StoreError::Malformed)));
}

#[test]
fn text_that_is_not_utf8_is_malformed() {
    let mut bytes = encode(&Plan::new("p".to_owned(), vec![]));
    assert_eq!(bytes[8], b'p');
    bytes[8] = 0xff;
    assert!(matches!(decode(&bytes), Err(StoreError::Malformed)));
}

#[test]
fn huge_count_is_malformed() {
    let mut bytes = encode(&Plan::new("p".to_owned(), vec![]));
    let at = bytes.len() - 8;
    for byte in &mut bytes[at..] {
        *byte = 0xff;
    }
    assert!(matches!(decode(&bytes), Err(StoreError::Malformed)));
}
