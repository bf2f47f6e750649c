//! Questions put to a human, with the choices offered and the answer given.

use vstd::prelude::*;

verus! {

/// One option a human can pick, identified by `id`.
#[derive(Debug)]
pub struct Choice {
    id: String,
    text: String,
}

/// The mathematical content of a [`Choice`].
pub struct ChoiceView {
    pub id: Seq<char>,
    pub text: Seq<char>,
}

impl View for Choice {
    type V = ChoiceView;

    closed spec fn view(&self) -> ChoiceView {
        ChoiceView { id: self.id@, text: self.text@ }
    }
}

impl DeepView for Choice {
    type V = ChoiceView;

    open spec fn deep_view(&self) -> ChoiceView {
        self@
    }
}

impl Clone for Choice {
    fn clone(&self) -> (copy: Self)
        ensures
            copy == *self,
    {
        Choice { id: self.id.clone(), text: self.text.clone() }
    }
}

impl Choice {
    pub fn new(id: &str, text: &str) -> (choice: Self)
        ensures
            choice@ == (ChoiceView { id: id@, text: text@ }),
    {
        Self { id: id.to_owned(), text: text.to_owned() }
    }
}

/// A question together with the choices it offers, in the order given.
pub struct Question {
    text: String,
    choices: Vec<Choice>,
}

/// The mathematical content of a [`Question`].
pub struct QuestionView {
    pub text: Seq<char>,
    pub choices: Seq<ChoiceView>,
}

impl View for Question {
    type V = QuestionView;

    closed spec fn view(&self) -> QuestionView {
        QuestionView { text: self.text@, choices: self.choices.deep_view() }
    }
}

impl Question {
    pub fn new(text: &str, choices: &[Choice]) -> (question: Self)
        ensures
            question@.text == text@,
            question@.choices == choices.deep_view(),
    {
        let mut copied: Vec<Choice> = Vec::new();
        let mut i: usize = 0;
        while i < choices.len()
            invariant
                i <= choices.len(),
                copied@ == choices@.take(i as int),
            decreases choices.len() - i,
        {
            copied.push(choices[i].clone());
            i += 1;
        }
        Self { text: text.to_owned(), choices: copied }
    }

    pub fn text(&self) -> (text: &str)
        ensures
            text@ == self@.text,
    {
        self.text.as_str()
    }
}

/// The choice a human settled on.
#[derive(Debug)]
pub struct Answer {
    choice_id: String,
}

impl View for Answer {
    type V = Seq<char>;

    closed spec fn view(&self) -> Seq<char> {
        self.choice_id@
    }
}

impl Clone for Answer {
    fn clone(&self) -> (copy: Self)
        ensures
            copy == *self,
    {
        Answer { choice_id: self.choice_id.clone() }
    }
}

impl Answer {
    pub fn new(choice_id: String) -> (answer: Self)
        ensures
            answer@ == choice_id@,
    {
        Self { choice_id }
    }

    pub fn choice_id(&self) -> (id: &str)
        ensures
            id@ == self@,
    {
        self.choice_id.as_str()
    }
}

} // verus!
