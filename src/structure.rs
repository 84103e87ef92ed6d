//! The typed assignment tree that the exporter consumes.
use vstd::prelude::*;

verus! {

/// The kinds of block that an authored programming assignment may mark.
#[derive(Debug, PartialEq)]
pub enum WeblabAttribute {
    Test,
    Library,
    Solution,
}

/// An optional list of grading points shown beside an answer.
#[derive(Debug, PartialEq)]
pub struct Checklist {
    pub items: Vec<String>,
}

#[derive(Debug, PartialEq)]
pub struct ProgrammingAssignment {
    pub title: String,
    pub assignment_text: String,
    pub library_visible: bool,
    pub spectest_stdout_visible: bool,
    pub test: String,
    pub solution: String,
    pub library: Option<String>,
    pub test_template: String,
    pub solution_template: String,
    pub checklist: Option<Checklist>,
}

#[derive(Debug, PartialEq)]
pub struct WeblabFolder {
    pub title: String,
    pub assignment_text: String,
    pub assignments: Vec<WeblabAssignment>,
}

#[derive(Debug, PartialEq)]
pub struct OpenQuestion {
    pub title: String,
    pub assignment_text: String,
    pub expected_answer: String,
    pub checklist: Option<Checklist>,
}

#[derive(Debug, PartialEq)]
pub struct InlineQuestionList {
    pub title: String,
    pub assignment_text: String,
    pub assignments: Vec<WeblabAssignment>,
}

#[derive(Debug, PartialEq)]
pub struct MCOption {
    pub text: String,
    pub is_correct: bool,
}

/// How many options a student has to select.
#[derive(Clone, Copy, Debug, PartialEq, Eq, Structural)]
pub enum MCStyle {
    AllThatApply,
    NumCorrect(usize),
}

impl Default for MCStyle {
    fn default() -> (r: Self)
        ensures
            r == MCStyle::NumCorrect(1),
    {
        MCStyle::NumCorrect(1)
    }
}

#[derive(Debug, PartialEq)]
pub struct MCQuestion {
    pub title: String,
    pub assignment_text: String,
    pub options: Vec<MCOption>,
    pub randomize: bool,
    pub style: MCStyle,
}

#[derive(Debug, PartialEq)]
pub enum WeblabAssignment {
    Programming(ProgrammingAssignment),
    Open(OpenQuestion),
    MultipleChoice(MCQuestion),
    Folder(WeblabFolder),
    InlineQuestionList(InlineQuestionList),
}

impl WeblabAssignment {
    pub open spec fn spec_title(&self) -> Seq<char> {
        match self {
            WeblabAssignment::Programming(p) => p.title@,
            WeblabAssignment::Open(o) => o.title@,
            WeblabAssignment::MultipleChoice(m) => m.title@,
            WeblabAssignment::Folder(f) => f.title@,
            WeblabAssignment::InlineQuestionList(l) => l.title@,
        }
    }

    pub open spec fn spec_assignment_text(&self) -> Seq<char> {
        match self {
            WeblabAssignment::Programming(p) => p.assignment_text@,
            WeblabAssignment::Open(o) => o.assignment_text@,
            WeblabAssignment::MultipleChoice(m) => m.assignment_text@,
            WeblabAssignment::Folder(f) => f.assignment_text@,
            WeblabAssignment::InlineQuestionList(l) => l.assignment_text@,
        }
    }

    /// The children of a folder or an inline question list; empty for a question.
    pub open spec fn spec_children(&self) -> Seq<WeblabAssignment> {
        match self {
            WeblabAssignment::Folder(f) => f.assignments@,
            WeblabAssignment::InlineQuestionList(l) => l.assignments@,
            _ => Seq::empty(),
        }
    }

    pub fn title(&self) -> (r: &str)
        ensures
            r@ == self.spec_title(),
    {
        match self {
            WeblabAssignment::Programming(p) => p.title.as_str(),
            WeblabAssignment::Open(o) => o.title.as_str(),
            WeblabAssignment::MultipleChoice(m) => m.title.as_str(),
            WeblabAssignment::Folder(f) => f.title.as_str(),
            WeblabAssignment::InlineQuestionList(l) => l.title.as_str(),
        }
    }

    pub fn assignment_text(&self) -> (r: &str)
        ensures
            r@ == self.spec_assignment_text(),
    {
        match self {
            WeblabAssignment::Programming(p) => p.assignment_text.as_str(),
            WeblabAssignment::Open(o) => o.assignment_text.as_str(),
            WeblabAssignment::MultipleChoice(m) => m.assignment_text.as_str(),
            WeblabAssignment::Folder(f) => f.assignment_text.as_str(),
            WeblabAssignment::InlineQuestionList(l) => l.assignment_text.as_str(),
        }
    }
}

} // verus!
