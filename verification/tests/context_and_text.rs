use sidecar::diagnostics::{Diagnostic, DiagnosticMap};
use sidecar::qa::{Answer, Choice, Question};
use sidecar::snippet::code_snippet;
use sidecar::text::{join, render_decimal};
use sidecar::user_context::{
    followup_paths, path_indices, ActiveWindowData, AgentVariableType, DocumentPosition,
    FileContentValue, Position, UserContext, VariableInformation, VariableType,
};

fn file(path: &str, content: &str) -> FileContentValue {
    FileContentValue {
        file_path: path.to_owned(),
        file_content: content.to_owned(),
        language: "rust".to_owned(),
    }
}

fn variable(name: &str, kind: VariableType) -> VariableInformation {
    VariableInformation {
        start_position: Position { line: 3, character: 4 },
        end_position: Position { line: 5, character: 6 },
        fs_file_path: "/a.rs".to_owned(),
        name: name.to_owned(),
        variable_type: kind,
        content: "let x = 1;".to_owned(),
        language: "rust".to_owned(),
    }
}

#[test]
fn decimal_numerals() {
    assert_eq!(render_decimal(0), "0");
    assert_eq!(render_decimal(7), "7");
    assert_eq!(render_decimal(10), "10");
    assert_eq!(render_decimal(1234567890), "1234567890");
    assert_eq!(render_decimal(usize::MAX), usize::MAX.to_string());
}

#[test]
fn joining() {
    assert_eq!(join(&vec![], ", "), "");
    assert_eq!(join(&vec!["a".to_owned()], ", "), "a");
    assert_eq!(join(&vec!["a".to_owned(), String::new(), "c".to_owned()], ", "), "a, , c");
}

#[test]
fn question_keeps_text_and_choices() {
    let choices = [Choice::new("y", "yes"), Choice::new("n", "no")];
    let question = Question::new("go on?", &choices);
    assert_eq!(question.text(), "go on?");
    let answer = Answer::new("y".to_owned());
    assert_eq!(answer.choice_id(), "y");
    assert_eq!(answer.clone().choice_id(), "y");
    let copy = choices[0].clone();
    assert_eq!(format!("{:?}", copy), format!("{:?}", choices[0]));
}

#[test]
fn variable_becomes_agent_variable() {
    let agent = variable("x", VariableType::CodeSymbol).to_agent_type();
    assert_eq!(agent.start_position, DocumentPosition::new(3, 4, 0));
    assert_eq!(agent.end_position, DocumentPosition::new(5, 6, 0));
    assert_eq!(agent.fs_file_path, "/a.rs");
    assert_eq!(agent.name, "x");
    assert_eq!(agent.variable_type, AgentVariableType::CodeSymbol);
    assert_eq!(agent.content, "let x = 1;");
    assert_eq!(agent.language, "rust");
    let converted: AgentVariableType = VariableType::File.into();
    assert_eq!(converted, AgentVariableType::File);
    assert_eq!(AgentVariableType::from(VariableType::Selection), AgentVariableType::Selection);
}

#[test]
fn selection_is_told_apart() {
    assert!(variable("x", VariableType::Selection).is_selection());
    assert!(!variable("x", VariableType::File).is_selection());
    assert!(!variable("x", VariableType::CodeSymbol).is_selection());
}

#[test]
fn context_is_empty_only_without_variables_and_files() {
    assert!(UserContext::default().is_empty());
    let with_variable =
        UserContext { variables: vec![variable("x", VariableType::File)], file_content_map: vec![] };
    assert!(!with_variable.is_empty());
    let with_file = UserContext { variables: vec![], file_content_map: vec![file("a", "1")] };
    assert!(!with_file.is_empty());
}

#[test]
fn merge_keeps_own_files_and_adds_missing_ones() {
    let current = UserContext {
        variables: vec![variable("new", VariableType::File)],
        file_content_map: vec![file("a", "new a"), file("b", "new b")],
    };
    let previous = UserContext {
        variables: vec![variable("old", VariableType::Selection)],
        file_content_map: vec![file("b", "old b"), file("c", "old c"), file("c", "older c")],
    };
    let merged = current.merge_from_previous(Some(&previous));
    let names: Vec<&str> = merged.variables.iter().map(|v| v.name.as_str()).collect();
    assert_eq!(names, vec!["new", "old"]);
    let files: Vec<(&str, &str)> = merged
        .file_content_map
        .iter()
        .map(|f| (f.file_path.as_str(), f.file_content.as_str()))
        .collect();
    assert_eq!(
        files,
        vec![("a", "new a"), ("b", "new b"), ("c", "old c"), ("c", "older c")]
    );
}

#[test]
fn merge_with_nothing_changes_nothing() {
    let current = UserContext {
        variables: vec![variable("new", VariableType::File)],
        file_content_map: vec![file("a", "new a")],
    };
    let merged = current.clone().merge_from_previous(None);
    assert_eq!(merged.variables.len(), 1);
    assert_eq!(merged.file_content_map.len(), 1);
    assert_eq!(merged.file_content_map[0].file_content, "new a");
}

#[test]
fn followup_speaks_of_active_window_then_files() {
    let context = UserContext {
        variables: vec![],
        file_content_map: vec![file("a", ""), file("b", "")],
    };
    let window = ActiveWindowData {
        file_path: "w".to_owned(),
        file_content: String::new(),
        language: "rust".to_owned(),
    };
    assert_eq!(followup_paths(Some(&window), &context), vec!["w", "a", "b"]);
    assert_eq!(followup_paths(None, &context), vec!["a", "b"]);
    assert_eq!(path_indices(3), vec![0, 1, 2]);
    assert!(path_indices(0).is_empty());
    assert_eq!(window.clone().file_path, "w");
}

#[test]
fn snippet_takes_lines_from_start_up_to_end() {
    let content = "zero\none\r\ntwo\nthree\n";
    assert_eq!(code_snippet(content, 1, 3), "one\ntwo");
    assert_eq!(code_snippet(content, 0, 1), "zero");
    assert_eq!(code_snippet(content, 2, 2), "");
    assert_eq!(code_snippet(content, 3, 10), "three");
    assert_eq!(code_snippet(content, 7, 9), "");
    assert_eq!(code_snippet("a\n\nb", 0, 3), "a\n\nb");
    assert_eq!(code_snippet("a\r", 0, 1), "a\r");
    assert_eq!(code_snippet("", 0, 1), "");
}

#[test]
fn diagnostics_are_grouped_in_order() {
    let records = vec![
        Diagnostic::new("b".to_owned(), "1".to_owned()),
        Diagnostic::new("a".to_owned(), "2".to_owned()),
        Diagnostic::new("b".to_owned(), "3".to_owned()),
        Diagnostic::new("b".to_owned(), "1".to_owned()),
    ];
    let map = DiagnosticMap::group_by_file(&records);
    assert_eq!(map.len(), 2);
    assert!(!map.is_empty());
    let groups = map.groups();
    assert_eq!(groups[0].fs_file_path(), "b");
    assert_eq!(groups[1].fs_file_path(), "a");
    let of_b: Vec<&str> = groups[0].diagnostics().iter().map(|d| d.message()).collect();
    assert_eq!(of_b, vec!["1", "3", "1"]);
    let of_a = map.get(&"a".to_owned()).unwrap();
    assert_eq!(of_a.len(), 1);
    assert_eq!(of_a[0].message(), "2");
    assert_eq!(of_a[0].fs_file_path(), "a");
    assert!(map.get(&"c".to_owned()).is_none());
    assert!(DiagnosticMap::group_by_file(&vec![]).is_empty());
}
