//! What an editor reports of the user's view: the cursor, the visible part
//! of the document, and the symbols around them.

use crate::user_context::Position;
use vstd::prelude::*;

verus! {

/// A span of a document, from a start line and character to an end line
/// and character.
#[derive(Debug, Clone, Copy, PartialEq, Eq, Structural)]
pub struct Range {
    pub start_line: usize,
    pub start_character: usize,
    pub end_line: usize,
    pub end_character: usize,
}

/// The name under which a symbol is looked up, where one is known.
#[derive(Debug, Clone)]
pub struct Symbol {
    pub fuzzy_name: Option<String>,
}

/// The text of a definition and the lines it spans.
#[derive(Debug, Clone)]
pub struct DefinitionSnippet {
    pub context: String,
    pub start_line: usize,
    pub end_line: usize,
}

/// What is known of one symbol near the cursor.
#[derive(Debug, Clone)]
pub struct PreciseContext {
    pub symbol: Symbol,
    pub hover_text: Vec<String>,
    pub definition_snippet: DefinitionSnippet,
    pub fs_file_path: String,
    pub relative_file_path: String,
    pub range: Range,
}

/// Where the cursor, or the selection, begins and ends.
#[derive(Debug, Clone, Copy, PartialEq, Eq, Structural)]
pub struct CursorPosition {
    pub start_position: Position,
    pub end_position: Position,
}

/// The part of a document that is on screen.
#[derive(Debug, Clone)]
pub struct CurrentViewPort {
    pub start_position: Position,
    pub end_position: Position,
    pub relative_path: String,
    pub fs_file_path: String,
    pub text_on_screen: String,
}

/// Everything an editor reports of the user's view of a repository.
#[derive(Debug, Clone)]
pub struct DeepContextForView {
    pub repo_ref: String,
    pub precise_context: Vec<PreciseContext>,
    pub cursor_position: Option<CursorPosition>,
    pub current_view_port: Option<CurrentViewPort>,
    pub language: String,
}

/// The answer to a search, with the query it answers.
#[derive(Debug, PartialEq)]
pub struct SearchResponse {
    pub query: String,
    pub answer: String,
}

/// What a search reports while it runs.
#[derive(Debug, PartialEq)]
pub enum SearchEvents {
    SearchEvent(),
}

} // verus!
