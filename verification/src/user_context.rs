//! What a user hands to the agent along with a question: the variables
//! they point at and the files they attach.

use vstd::prelude::*;

verus! {

/// A place in a document, as an editor counts it.
#[derive(Debug, Clone, Copy, PartialEq, Eq, Structural)]
pub struct Position {
    pub line: usize,
    pub character: usize,
}

/// A place in a document, as the agent counts it: line, column, and the
/// offset in bytes from the start of the document.
#[derive(Debug, Clone, Copy, PartialEq, Eq, Structural)]
pub struct DocumentPosition {
    pub line: usize,
    pub character: usize,
    pub byte_offset: usize,
}

impl DocumentPosition {
    pub fn new(line: usize, character: usize, byte_offset: usize) -> (position: Self)
        ensures
            position == (DocumentPosition { line, character, byte_offset }),
    {
        DocumentPosition { line, character, byte_offset }
    }
}

/// What kind of thing a variable stands for, as a request names it.
#[derive(Debug, Clone, Copy, PartialEq, Eq, Structural)]
pub enum VariableType {
    File,
    CodeSymbol,
    Selection,
}

/// What kind of thing a variable stands for, as the agent names it.
#[derive(Debug, Clone, Copy, PartialEq, Eq, Structural)]
pub enum AgentVariableType {
    File,
    CodeSymbol,
    Selection,
}

/// The agent's name for a kind of variable.
pub open spec fn agent_kind(kind: VariableType) -> AgentVariableType {
    match kind {
        VariableType::File => AgentVariableType::File,
        VariableType::CodeSymbol => AgentVariableType::CodeSymbol,
        VariableType::Selection => AgentVariableType::Selection,
    }
}

impl From<VariableType> for AgentVariableType {
    fn from(kind: VariableType) -> (converted: Self) {
        match kind {
            VariableType::File => AgentVariableType::File,
            VariableType::CodeSymbol => AgentVariableType::CodeSymbol,
            VariableType::Selection => AgentVariableType::Selection,
        }
    }
}

impl vstd::std_specs::convert::FromSpecImpl<VariableType> for AgentVariableType {
    open spec fn obeys_from_spec() -> bool {
        true
    }

    open spec fn from_spec(kind: VariableType) -> Self {
        agent_kind(kind)
    }
}

/// A variable that a user points at, as a request carries it.
#[derive(Debug)]
pub struct VariableInformation {
    pub start_position: Position,
    pub end_position: Position,
    pub fs_file_path: String,
    pub name: String,
    pub variable_type: VariableType,
    pub content: String,
    pub language: String,
}

/// The mathematical content of a [`VariableInformation`].
pub struct VariableInformationView {
    pub start_position: Position,
    pub end_position: Position,
    pub fs_file_path: Seq<char>,
    pub name: Seq<char>,
    pub variable_type: VariableType,
    pub content: Seq<char>,
    pub language: Seq<char>,
}

impl View for VariableInformation {
    type V = VariableInformationView;

    open spec fn view(&self) -> VariableInformationView {
        VariableInformationView {
            start_position: self.start_position,
            end_position: self.end_position,
            fs_file_path: self.fs_file_path@,
            name: self.name@,
            variable_type: self.variable_type,
            content: self.content@,
            language: self.language@,
        }
    }
}

impl DeepView for VariableInformation {
    type V = VariableInformationView;

    open spec fn deep_view(&self) -> VariableInformationView {
        self@
    }
}

impl Clone for VariableInformation {
    fn clone(&self) -> (copy: Self)
        ensures
            copy@ == self@,
    {
        VariableInformation {
            start_position: self.start_position,
            end_position: self.end_position,
            fs_file_path: self.fs_file_path.clone(),
            name: self.name.clone(),
            variable_type: self.variable_type,
            content: self.content.clone(),
            language: self.language.clone(),
        }
    }
}

/// A variable that a user points at, as the agent works with it.
#[derive(Debug)]
pub struct AgentVariableInformation {
    pub start_position: DocumentPosition,
    pub end_position: DocumentPosition,
    pub fs_file_path: String,
    pub name: String,
    pub variable_type: AgentVariableType,
    pub content: String,
    pub language: String,
}

impl VariableInformation {
    /// The variable as the agent works with it: the same texts, the same
    /// kind, and positions with a byte offset of 0.
    pub fn to_agent_type(self) -> (agent: AgentVariableInformation)
        ensures
            agent.start_position == (DocumentPosition {
                line: self.start_position.line,
                character: self.start_position.character,
                byte_offset: 0,
            }),
            agent.end_position == (DocumentPosition {
                line: self.end_position.line,
                character: self.end_position.character,
                byte_offset: 0,
            }),
            agent.fs_file_path@ == self.fs_file_path@,
            agent.name@ == self.name@,
            agent.variable_type == agent_kind(self.variable_type),
            agent.content@ == self.content@,
            agent.language@ == self.language@,
    {
        AgentVariableInformation {
            start_position: DocumentPosition::new(
                self.start_position.line,
                self.start_position.character,
                0,
            ),
            end_position: DocumentPosition::new(
                self.end_position.line,
                self.end_position.character,
                0,
            ),
            fs_file_path: self.fs_file_path,
            name: self.name,
            variable_type: AgentVariableType::from(self.variable_type),
            content: self.content,
            language: self.language,
        }
    }

    pub fn is_selection(&self) -> (selection: bool)
        ensures
            selection == (self.variable_type == VariableType::Selection),
    {
        self.variable_type == VariableType::Selection
    }
}

/// A file that a user attaches, with its content.
#[derive(Debug)]
pub struct FileContentValue {
    pub file_path: String,
    pub file_content: String,
    pub language: String,
}

/// The mathematical content of a [`FileContentValue`].
pub struct FileContentValueView {
    pub file_path: Seq<char>,
    pub file_content: Seq<char>,
    pub language: Seq<char>,
}

impl View for FileContentValue {
    type V = FileContentValueView;

    open spec fn view(&self) -> FileContentValueView {
        FileContentValueView {
            file_path: self.file_path@,
            file_content: self.file_content@,
            language: self.language@,
        }
    }
}

impl DeepView for FileContentValue {
    type V = FileContentValueView;

    open spec fn deep_view(&self) -> FileContentValueView {
        self@
    }
}

impl Clone for FileContentValue {
    fn clone(&self) -> (copy: Self)
        ensures
            copy@ == self@,
    {
        FileContentValue {
            file_path: self.file_path.clone(),
            file_content: self.file_content.clone(),
            language: self.language.clone(),
        }
    }
}

/// The file that is open in the user's editor.
#[derive(Debug)]
pub struct ActiveWindowData {
    pub file_path: String,
    pub file_content: String,
    pub language: String,
}

impl Clone for ActiveWindowData {
    fn clone(&self) -> (copy: Self)
        ensures
            copy.file_path@ == self.file_path@,
            copy.file_content@ == self.file_content@,
            copy.language@ == self.language@,
    {
        ActiveWindowData {
            file_path: self.file_path.clone(),
            file_content: self.file_content.clone(),
            language: self.language.clone(),
        }
    }
}

/// Whether some file of `files` has the path `path`.
pub open spec fn has_path(files: Seq<FileContentValueView>, path: Seq<char>) -> bool {
    exists|i: int| 0 <= i < files.len() && (#[trigger] files[i]).file_path == path
}

/// The files of `previous` whose path no file of `current` has, in the
/// order in which `previous` holds them.
pub open spec fn missing_from(
    previous: Seq<FileContentValueView>,
    current: Seq<FileContentValueView>,
) -> Seq<FileContentValueView>
    decreases previous.len(),
{
    if previous.len() == 0 {
        Seq::empty()
    } else {
        let earlier = missing_from(previous.drop_last(), current);
        if has_path(current, previous.last().file_path) {
            earlier
        } else {
            earlier.push(previous.last())
        }
    }
}

/// The mathematical content of a [`UserContext`].
pub struct UserContextView {
    pub variables: Seq<VariableInformationView>,
    pub file_content_map: Seq<FileContentValueView>,
}

impl UserContextView {
    /// This context with an earlier one merged in: the earlier variables
    /// follow this context's own, and of the earlier files those follow
    /// whose path this context does not hold itself. Where both hold a
    /// path, this context's file stands.
    pub open spec fn merged_with(self, previous: Option<UserContextView>) -> UserContextView {
        match previous {
            Some(previous) => UserContextView {
                variables: self.variables + previous.variables,
                file_content_map: self.file_content_map + missing_from(
                    previous.file_content_map,
                    self.file_content_map,
                ),
            },
            None => self,
        }
    }
}

/// What a user hands over with a question.
#[derive(Debug)]
pub struct UserContext {
    pub variables: Vec<VariableInformation>,
    pub file_content_map: Vec<FileContentValue>,
}

impl View for UserContext {
    type V = UserContextView;

    open spec fn view(&self) -> UserContextView {
        UserContextView {
            variables: self.variables.deep_view(),
            file_content_map: self.file_content_map.deep_view(),
        }
    }
}

impl Default for UserContext {
    fn default() -> (context: Self)
        ensures
            context@.variables.len() == 0,
            context@.file_content_map.len() == 0,
    {
        UserContext { variables: Vec::new(), file_content_map: Vec::new() }
    }
}

impl Clone for UserContext {
    fn clone(&self) -> (copy: Self)
        ensures
            copy@ == self@,
    {
        let mut variables: Vec<VariableInformation> = Vec::new();
        let mut i: usize = 0;
        while i < self.variables.len()
            invariant
                i <= self.variables.len(),
                variables@.len() == i,
                forall|j: int| 0 <= j < i ==> (#[trigger] variables@[j])@ == self.variables@[j]@,
            decreases self.variables.len() - i,
        {
            variables.push(self.variables[i].clone());
            i += 1;
        }
        let mut files: Vec<FileContentValue> = Vec::new();
        let mut k: usize = 0;
        while k < self.file_content_map.len()
            invariant
                k <= self.file_content_map.len(),
                files@.len() == k,
                forall|j: int|
                    0 <= j < k ==> (#[trigger] files@[j])@ == self.file_content_map@[j]@,
            decreases self.file_content_map.len() - k,
        {
            files.push(self.file_content_map[k].clone());
            k += 1;
        }
        assert(variables.deep_view() =~= self.variables.deep_view());
        assert(files.deep_view() =~= self.file_content_map.deep_view());
        UserContext { variables, file_content_map: files }
    }
}

fn holds_path(files: &Vec<FileContentValue>, count: usize, path: &String) -> (found: bool)
    requires
        count <= files@.len(),
    ensures
        found == has_path(files.deep_view().take(count as int), path@),
{
    let mut i: usize = 0;
    while i < count
        invariant
            i <= count <= files@.len(),
            forall|j: int| 0 <= j < i ==> files@[j].file_path@ != path@,
        decreases count - i,
    {
        if files[i].file_path == *path {
            assert(files.deep_view().take(count as int)[i as int].file_path == path@);
            return true;
        }
        i += 1;
    }
    assert forall|j: int| 0 <= j < count implies (#[trigger] files.deep_view().take(
        count as int,
    )[j]).file_path != path@ by {
        assert(files@[j].file_path@ != path@);
    }
    false
}

impl UserContext {
    pub fn is_empty(&self) -> (empty: bool)
        ensures
            empty == (self@.variables.len() == 0 && self@.file_content_map.len() == 0),
    {
        self.variables.is_empty() && self.file_content_map.is_empty()
    }

    /// This context with an earlier one merged in.
    pub fn merge_from_previous(self, previous: Option<&UserContext>) -> (merged: Self)
        ensures
            merged@ == self@.merged_with(
                match previous {
                    Some(previous) => Some(previous@),
                    None => None,
                },
            ),
    {
        match previous {
            Some(previous) => {
                let UserContext { variables, file_content_map } = self;
                let mut variables = variables;
                let mut files = file_content_map;
                let ghost own_variables = variables.deep_view();
                let ghost own_files = files.deep_view();
                let own_count = files.len();
                let mut i: usize = 0;
                while i < previous.variables.len()
                    invariant
                        i <= previous.variables.len(),
                        variables.deep_view() == own_variables
                            + previous.variables.deep_view().take(i as int),
                    decreases previous.variables.len() - i,
                {
                    let ghost before = variables.deep_view();
                    variables.push(previous.variables[i].clone());
                    assert(variables.deep_view() =~= before.push(previous.variables@[i as int]@));
                    i += 1;
                }
                assert(previous.variables.deep_view().take(previous.variables.len() as int)
                    =~= previous.variables.deep_view());
                let mut k: usize = 0;
                while k < previous.file_content_map.len()
                    invariant
                        k <= previous.file_content_map.len(),
                        own_count == own_files.len(),
                        own_count <= files@.len(),
                        files.deep_view().take(own_count as int) == own_files,
                        files.deep_view() == own_files + missing_from(
                            previous.file_content_map.deep_view().take(k as int),
                            own_files,
                        ),
                    decreases previous.file_content_map.len() - k,
                {
                    let ghost seen = previous.file_content_map.deep_view().take(k as int);
                    let ghost next = previous.file_content_map.deep_view().take(k + 1);
                    proof {
                        assert(next.drop_last() =~= seen);
                    }
                    let ghost before = files.deep_view();
                    if !holds_path(&files, own_count, &previous.file_content_map[k].file_path) {
                        files.push(previous.file_content_map[k].clone());
                        assert(files.deep_view() =~= before.push(
                            previous.file_content_map@[k as int]@,
                        ));
                    }
                    k += 1;
                }
                assert(previous.file_content_map.deep_view().take(
                    previous.file_content_map.len() as int,
                ) =~= previous.file_content_map.deep_view());
                UserContext { variables, file_content_map: files }
            },
            None => self,
        }
    }
}

/// The paths that a follow-up question speaks of: the file in the active
/// window, where there is one, and then the attached files in order.
pub open spec fn paths_in_question(
    active_window: Option<Seq<char>>,
    files: Seq<FileContentValueView>,
) -> Seq<Seq<char>> {
    let attached = Seq::new(files.len(), |i: int| files[i].file_path);
    match active_window {
        Some(path) => seq![path] + attached,
        None => attached,
    }
}

/// Collects the paths that a follow-up question speaks of.
pub fn followup_paths(active_window: Option<&ActiveWindowData>, user_context: &UserContext) -> (paths:
    Vec<String>)
    ensures
        paths.deep_view() == paths_in_question(
            match active_window {
                Some(window) => Some(window.file_path@),
                None => None,
            },
            user_context@.file_content_map,
        ),
{
    let mut paths: Vec<String> = Vec::new();
    match active_window {
        Some(window) => {
            paths.push(window.file_path.clone());
        },
        None => {},
    }
    let ghost lead = paths.deep_view();
    let files = &user_context.file_content_map;
    let mut i: usize = 0;
    while i < files.len()
        invariant
            i <= files.len(),
            paths@.len() == lead.len() + i,
            forall|j: int| 0 <= j < lead.len() ==> (#[trigger] paths@[j])@ == lead[j],
            forall|j: int| 0 <= j < i ==> (#[trigger] paths@[lead.len() + j])@ == files@[j].file_path@,
        decreases files.len() - i,
    {
        paths.push(files[i].file_path.clone());
        i += 1;
    }
    proof {
        let attached = Seq::new(files.deep_view().len(), |i: int| files.deep_view()[i].file_path);
        assert forall|k: int| 0 <= k < paths@.len() implies paths.deep_view()[k] == (lead
            + attached)[k] by {
            if k >= lead.len() {
                assert(paths@[lead.len() + (k - lead.len())]@ == files@[k - lead.len()].file_path@);
            }
        }
    }
    paths
}

/// The indices of the first `count` paths: 0, 1, and so on.
pub fn path_indices(count: usize) -> (indices: Vec<usize>)
    ensures
        indices@ == Seq::new(count as nat, |i: int| i as usize),
{
    let mut indices: Vec<usize> = Vec::new();
    let mut i: usize = 0;
    while i < count
        invariant
            i <= count,
            indices@ == Seq::new(i as nat, |j: int| j as usize),
        decreases count - i,
    {
        indices.push(i);
        i += 1;
    }
    indices
}

} // verus!
