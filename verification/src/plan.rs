//! The plan model: steps, and the checkpoint that marks executed progress.

use crate::text::{decimal, join, joined, render_decimal};
use vstd::prelude::*;
use vstd::string::StringExecFns;

verus! {

/// One unit of planned work: what to do, the context known when the step
/// was written, and the files it means to touch. A step never changes
/// after it has been made.
#[derive(Debug)]
pub struct PlanStep {
    instruction: String,
    context: String,
    files_to_edit: Vec<String>,
}

/// The mathematical content of a [`PlanStep`].
pub struct PlanStepView {
    pub instruction: Seq<char>,
    pub context: Seq<char>,
    pub files_to_edit: Seq<Seq<char>>,
}

impl View for PlanStep {
    type V = PlanStepView;

    closed spec fn view(&self) -> PlanStepView {
        PlanStepView {
            instruction: self.instruction@,
            context: self.context@,
            files_to_edit: self.files_to_edit.deep_view(),
        }
    }
}

impl DeepView for PlanStep {
    type V = PlanStepView;

    open spec fn deep_view(&self) -> PlanStepView {
        self@
    }
}

impl Clone for PlanStep {
    fn clone(&self) -> (copy: Self)
        ensures
            copy@ == self@,
    {
        let files = clone_strings(&self.files_to_edit);
        PlanStep {
            instruction: self.instruction.clone(),
            context: self.context.clone(),
            files_to_edit: files,
        }
    }
}

impl PlanStep {
    pub fn new(instruction: String, context: String, files_to_edit: Vec<String>) -> (step: Self)
        ensures
            step@ == (PlanStepView {
                instruction: instruction@,
                context: context@,
                files_to_edit: files_to_edit.deep_view(),
            }),
    {
        PlanStep { instruction, context, files_to_edit }
    }

    pub fn instruction(&self) -> (text: &str)
        ensures
            text@ == self@.instruction,
    {
        self.instruction.as_str()
    }

    pub fn context(&self) -> (text: &str)
        ensures
            text@ == self@.context,
    {
        self.context.as_str()
    }

    pub fn files_to_edit(&self) -> (files: &Vec<String>)
        ensures
            files.deep_view() == self@.files_to_edit,
    {
        &self.files_to_edit
    }
}

/// The files that the first `count` steps name, in the order in which the
/// steps name them, repeats included.
pub open spec fn files_named(steps: Seq<PlanStepView>, count: nat) -> Seq<Seq<char>>
    decreases count,
{
    if count == 0 {
        Seq::empty()
    } else {
        files_named(steps, (count - 1) as nat) + steps[count - 1].files_to_edit
    }
}

/// `names` with every repeat of an earlier entry left out.
pub open spec fn without_repeats(names: Seq<Seq<char>>) -> Seq<Seq<char>>
    decreases names.len(),
{
    if names.len() == 0 {
        Seq::empty()
    } else {
        let earlier = without_repeats(names.drop_last());
        if earlier.contains(names.last()) {
            earlier
        } else {
            earlier.push(names.last())
        }
    }
}

/// `without_repeats` keeps exactly the entries of its argument, each once.
pub proof fn lemma_without_repeats(names: Seq<Seq<char>>)
    ensures
        without_repeats(names).no_duplicates(),
        forall|name: Seq<char>|
            without_repeats(names).contains(name) <==> #[trigger] names.contains(name),
    decreases names.len(),
{
    if names.len() > 0 {
        let earlier = without_repeats(names.drop_last());
        lemma_without_repeats(names.drop_last());
        assert forall|name: Seq<char>|
            without_repeats(names).contains(name) <==> #[trigger] names.contains(name) by {
            if names.contains(name) {
                let k = choose|k: int| 0 <= k < names.len() && names[k] == name;
                if k < names.len() - 1 {
                    assert(names.drop_last()[k] == name);
                    assert(names.drop_last().contains(name));
                    let e = choose|e: int| 0 <= e < earlier.len() && earlier[e] == name;
                    assert(without_repeats(names)[e] == name);
                } else if !earlier.contains(name) {
                    assert(without_repeats(names)[earlier.len() as int] == name);
                }
            }
            if without_repeats(names).contains(name) {
                let e = choose|e: int|
                    0 <= e < without_repeats(names).len() && without_repeats(names)[e] == name;
                if e < earlier.len() {
                    assert(names.drop_last().contains(name));
                    let k = choose|k: int|
                        0 <= k < names.drop_last().len() && names.drop_last()[k] == name;
                    assert(names[k] == name);
                } else {
                    assert(names[names.len() - 1] == name);
                }
            }
        }
    }
}

fn holds(names: &Vec<String>, name: &String) -> (found: bool)
    ensures
        found == names.deep_view().contains(name@),
{
    let mut i: usize = 0;
    while i < names.len()
        invariant
            i <= names.len(),
            forall|j: int| 0 <= j < i ==> names@[j]@ != name@,
        decreases names.len() - i,
    {
        if names[i] == *name {
            assert(names.deep_view()[i as int] == name@);
            return true;
        }
        i += 1;
    }
    false
}

/// Copies a list of strings.
pub fn clone_strings(strings: &Vec<String>) -> (copy: Vec<String>)
    ensures
        copy.deep_view() == strings.deep_view(),
{
    let mut copy: Vec<String> = Vec::new();
    let mut i: usize = 0;
    while i < strings.len()
        invariant
            i <= strings.len(),
            copy@ == strings@.take(i as int),
        decreases strings.len() - i,
    {
        copy.push(strings[i].clone());
        i += 1;
    }
    copy
}

/// Copies a list of steps.
pub fn clone_steps(steps: &Vec<PlanStep>) -> (copy: Vec<PlanStep>)
    ensures
        copy.deep_view() == steps.deep_view(),
{
    let mut copy: Vec<PlanStep> = Vec::new();
    let mut i: usize = 0;
    while i < steps.len()
        invariant
            i <= steps.len(),
            copy@.len() == i,
            forall|j: int| 0 <= j < i ==> (#[trigger] copy@[j])@ == steps@[j]@,
        decreases steps.len() - i,
    {
        copy.push(steps[i].clone());
        i += 1;
    }
    copy
}

/// The mathematical content of a [`Plan`].
pub struct PlanView {
    pub id: Seq<char>,
    pub steps: Seq<PlanStepView>,
    pub checkpoint: Option<nat>,
}

impl PlanView {
    /// A checkpoint, where there is one, names a step of the plan.
    pub open spec fn well_formed(self) -> bool {
        self.checkpoint matches Some(c) ==> c < self.steps.len()
    }

    /// Whether the step at `index` lies at or below the checkpoint.
    pub open spec fn covers(self, index: nat) -> bool {
        self.checkpoint matches Some(c) && index <= c
    }

    /// The index at which execution resumes: one past the checkpoint, or
    /// the first step when nothing has run yet.
    pub open spec fn resume_index(self) -> nat {
        match self.checkpoint {
            Some(c) => c + 1,
            None => 0,
        }
    }

    /// The line that stands for the step at `index` in the summary: the
    /// index, a full stop, a space, and the step's instruction.
    pub open spec fn summary_line(self, index: int) -> Seq<char> {
        decimal(index as nat) + ". "@ + self.steps[index].instruction
    }

    /// The summary of the plan: one line for each step, in order.
    pub open spec fn summary(self) -> Seq<char> {
        joined(Seq::new(self.steps.len(), |i: int| self.summary_line(i)), "\n"@)
    }

    /// The files that the steps up to and including `through` set out to
    /// edit, each once, in the order of first mention. Steps beyond the end
    /// of the plan name nothing.
    pub open spec fn edited_files(self, through: nat) -> Seq<Seq<char>> {
        if through < self.steps.len() {
            without_repeats(files_named(self.steps, through + 1))
        } else {
            without_repeats(files_named(self.steps, self.steps.len()))
        }
    }

    /// This plan with the checkpoint moved to `index`.
    pub open spec fn checkpointed_at(self, index: nat) -> PlanView {
        PlanView { checkpoint: Some(index), ..self }
    }

    /// This plan with `more` added behind its steps.
    pub open spec fn extended_by(self, more: Seq<PlanStepView>) -> PlanView {
        PlanView { steps: self.steps + more, ..self }
    }
}

/// Why a checkpoint could not be moved.
#[derive(Debug, Clone, Copy, PartialEq, Eq, Structural)]
pub enum CheckpointError {
    /// The index names no step of the plan.
    NoSuchStep,
    /// The index is not the one at which execution resumes.
    OutOfOrder,
}

/// An ordered list of steps with a checkpoint. Steps are only ever added
/// at the end; the checkpoint only ever moves forward, one step at a time.
#[derive(Debug)]
pub struct Plan {
    id: String,
    steps: Vec<PlanStep>,
    checkpoint: Option<usize>,
}

impl View for Plan {
    type V = PlanView;

    closed spec fn view(&self) -> PlanView {
        PlanView {
            id: self.id@,
            steps: self.steps.deep_view(),
            checkpoint: match self.checkpoint {
                Some(c) => Some(c as nat),
                None => None,
            },
        }
    }
}

impl Clone for Plan {
    fn clone(&self) -> (copy: Self)
        ensures
            copy@ == self@,
    {
        proof {
            use_type_invariant(self);
        }
        let steps = clone_steps(&self.steps);
        assert(self.steps@.len() == self.steps.deep_view().len());
        Plan { id: self.id.clone(), steps, checkpoint: self.checkpoint }
    }
}

impl Plan {
    #[verifier::type_invariant]
    closed spec fn checkpoint_names_a_step(self) -> bool {
        self.checkpoint matches Some(c) ==> c < self.steps@.len()
    }

    /// A plan of which nothing has been executed.
    pub fn new(id: String, steps: Vec<PlanStep>) -> (plan: Self)
        ensures
            plan@ == (PlanView { id: id@, steps: steps.deep_view(), checkpoint: None }),
    {
        Plan { id, steps, checkpoint: None }
    }

    /// A plan with a given checkpoint, or `None` where the checkpoint
    /// names no step.
    pub fn restore(id: String, steps: Vec<PlanStep>, checkpoint: Option<usize>) -> (plan: Option<
        Self,
    >)
        ensures
            match plan {
                Some(plan) => {
                    &&& plan@.id == id@
                    &&& plan@.steps == steps.deep_view()
                    &&& checkpoint matches Some(c) ==> plan@.checkpoint == Some(c as nat)
                    &&& checkpoint is None ==> plan@.checkpoint is None
                },
                None => checkpoint matches Some(c) && c >= steps.len(),
            },
    {
        match checkpoint {
            Some(c) => {
                if c >= steps.len() {
                    return None;
                }
            },
            None => {},
        }
        Some(Plan { id, steps, checkpoint })
    }

    pub fn id(&self) -> (id: &str)
        ensures
            id@ == self@.id,
    {
        self.id.as_str()
    }

    pub fn steps(&self) -> (steps: &Vec<PlanStep>)
        ensures
            steps.deep_view() == self@.steps,
    {
        &self.steps
    }

    /// The number of steps.
    pub fn len(&self) -> (count: usize)
        ensures
            count == self@.steps.len(),
    {
        self.steps.len()
    }

    pub fn checkpoint(&self) -> (checkpoint: Option<usize>)
        ensures
            self@.well_formed(),
            match checkpoint {
                Some(c) => self@.checkpoint == Some(c as nat),
                None => self@.checkpoint is None,
            },
    {
        proof {
            use_type_invariant(self);
        }
        self.checkpoint
    }

    /// The summary of the plan, for a reader who follows its progress.
    pub fn to_debug_message(&self) -> (text: String)
        ensures
            text@ == self@.summary(),
    {
        let mut lines: Vec<String> = Vec::new();
        let mut i: usize = 0;
        while i < self.steps.len()
            invariant
                i <= self.steps.len(),
                lines@.len() == i,
                forall|j: int| 0 <= j < i ==> (#[trigger] lines@[j])@ == self@.summary_line(j),
            decreases self.steps.len() - i,
        {
            let mut line = render_decimal(i);
            line.append(". ");
            line.append(self.steps[i].instruction());
            lines.push(line);
            i += 1;
        }
        assert(lines.deep_view() =~= Seq::new(
            self@.steps.len(),
            |i: int| self@.summary_line(i),
        ));
        join(&lines, "\n")
    }

    /// The files that the steps up to and including `through` set out to
    /// edit, each once.
    pub fn edited_files(&self, through: usize) -> (files: Vec<String>)
        ensures
            files.deep_view() == self@.edited_files(through as nat),
    {
        let count: usize = if through < self.steps.len() {
            through + 1
        } else {
            self.steps.len()
        };
        let mut files: Vec<String> = Vec::new();
        let mut i: usize = 0;
        while i < count
            invariant
                i <= count <= self.steps.len(),
                files.deep_view() == without_repeats(files_named(self@.steps, i as nat)),
            decreases count - i,
        {
            let named = self.steps[i].files_to_edit();
            let ghost before = files_named(self@.steps, i as nat);
            let mut j: usize = 0;
            while j < named.len()
                invariant
                    j <= named.len(),
                    i < self.steps.len(),
                    named.deep_view() == self@.steps[i as int].files_to_edit,
                    before == files_named(self@.steps, i as nat),
                    files.deep_view() == without_repeats(before + named.deep_view().take(j as int)),
                decreases named.len() - j,
            {
                let ghost so_far = before + named.deep_view().take(j as int);
                let ghost next = before + named.deep_view().take(j + 1);
                proof {
                    assert(next.drop_last() =~= so_far);
                }
                if !holds(&files, &named[j]) {
                    files.push(named[j].clone());
                }
                j += 1;
            }
            assert(named.deep_view().take(named.len() as int) =~= named.deep_view());
            i += 1;
        }
        files
    }

    /// This plan with `more` added behind the steps already there. The
    /// checkpoint stays.
    pub fn append_steps(self, more: Vec<PlanStep>) -> (plan: Self)
        ensures
            plan@ == self@.extended_by(more.deep_view()),
    {
        proof {
            use_type_invariant(&self);
        }
        let Plan { id, steps, checkpoint } = self;
        let mut steps = steps;
        let mut more = more;
        let ghost added = more.deep_view();
        let ghost before = steps.deep_view();
        steps.append(&mut more);
        assert(steps.deep_view() =~= before + added);
        Plan { id, steps, checkpoint }
    }

    /// Moves the checkpoint onto `index`, which must be the step at which
    /// execution resumes.
    pub fn advance_checkpoint(&mut self, index: usize) -> (moved: Result<(), CheckpointError>)
        ensures
            match moved {
                Ok(()) => {
                    &&& index < old(self)@.steps.len()
                    &&& index == old(self)@.resume_index()
                    &&& final(self)@ == old(self)@.checkpointed_at(index as nat)
                },
                Err(CheckpointError::NoSuchStep) => {
                    &&& index >= old(self)@.steps.len()
                    &&& final(self)@ == old(self)@
                },
                Err(CheckpointError::OutOfOrder) => {
                    &&& index < old(self)@.steps.len()
                    &&& index != old(self)@.resume_index()
                    &&& final(self)@ == old(self)@
                },
            },
    {
        proof {
            use_type_invariant(&*self);
        }
        if index >= self.steps.len() {
            return Err(CheckpointError::NoSuchStep);
        }
        let resume: usize = match self.checkpoint {
            Some(c) => c + 1,
            None => 0,
        };
        if index != resume {
            return Err(CheckpointError::OutOfOrder);
        }
        self.checkpoint = Some(index);
        Ok(())
    }
}

} // verus!
