//! Assembling question definitions into nodes of the assignment tree.
use vstd::prelude::*;
use crate::programming::{join_lines, start_trimmed, trim_start_of};
use crate::structure;
use crate::structure::{MCOption, MCQuestion, MCStyle, WeblabAssignment};

verus! {

/// Text written as a sequence of documentation lines.
pub struct DocString {
    pub text: String,
}

pub struct McAnswer {
    pub text: String,
    pub correct: bool,
}

/// A multiple-choice definition; `num_answers_expected` is 0 where any number
/// of options may be selected.
pub struct McQuestion {
    pub title: String,
    pub question_text: DocString,
    pub options: Vec<McAnswer>,
    pub num_answers_expected: usize,
    pub randomize: bool,
    pub explanation: DocString,
}

/// An open-question definition.
pub struct OpenQuestion {
    pub title: String,
    pub question_text: DocString,
    pub answer: DocString,
}

/// One question of an inline list.
pub enum QuestionFragment {
    MultipleChoice(McQuestion),
    Open(OpenQuestion),
}

/// Several questions shown together on one page.
pub struct InlineQuestionList {
    pub title: String,
    pub question_text: DocString,
    pub questions: Vec<QuestionFragment>,
}

/// Why a question definition was refused.
#[derive(Clone, Copy, Debug, PartialEq, Eq, Structural)]
pub enum AssemblyError {
    MissingTitle,
    /// A multiple-choice definition without question text.
    MissingQuestionText,
    /// An open-question definition without question text.
    MissingQuestion,
    NoOptions,
    NoCorrectOption,
    TooManyExpected { expected: usize, available: usize },
}

pub open spec fn trimmed_lines(lines: Seq<String>) -> Seq<Seq<char>> {
    lines.map_values(|l: String| start_trimmed(l@))
}

impl DocString {
    /// The text of documentation lines: each without its leading whitespace,
    /// joined with newlines.
    pub fn from_lines(lines: &Vec<String>) -> (r: DocString)
        ensures
            r.text@ == join_lines(trimmed_lines(lines@)),
    {
        let mut text = String::new();
        let mut i: usize = 0;
        while i < lines.len()
            invariant
                i <= lines@.len(),
                text@ == join_lines(trimmed_lines(lines@.subrange(0, i as int))),
            decreases lines@.len() - i,
        {
            let ghost before = text@;
            let ghost prev = trimmed_lines(lines@.subrange(0, i as int));
            let line = trim_start_of(&lines[i]);
            proof {
                reveal_strlit("\n");
            }
            if i > 0 {
                text.append("\n");
            }
            text.append(line.as_str());
            proof {
                let next = trimmed_lines(lines@.subrange(0, i as int + 1));
                assert(next.drop_last() =~= prev);
                assert(next.last() == line@);
                if i == 0 {
                    assert(text@ == line@);
                } else {
                    assert("\n"@ == seq!['\n']);
                    assert(text@ == before + seq!['\n'] + line@);
                }
            }
            i = i + 1;
        }
        assert(lines@.subrange(0, lines@.len() as int) == lines@);
        DocString { text }
    }
}

pub open spec fn has_correct(options: Seq<McAnswer>) -> bool {
    exists|i: int| 0 <= i < options.len() && options[i].correct
}

/// The first rule that a multiple-choice definition breaks, if any.
pub open spec fn mc_error(q: McQuestion) -> Option<AssemblyError> {
    if q.question_text.text@.len() == 0 {
        Some(AssemblyError::MissingQuestionText)
    } else if q.title@.len() == 0 {
        Some(AssemblyError::MissingTitle)
    } else if q.options@.len() == 0 {
        Some(AssemblyError::NoOptions)
    } else if !has_correct(q.options@) {
        Some(AssemblyError::NoCorrectOption)
    } else if q.num_answers_expected > q.options@.len() {
        Some(
            AssemblyError::TooManyExpected {
                expected: q.num_answers_expected,
                available: q.options@.len() as usize,
            },
        )
    } else {
        None
    }
}

pub open spec fn style_for(n: usize) -> MCStyle {
    if n == 0 {
        MCStyle::AllThatApply
    } else {
        MCStyle::NumCorrect(n)
    }
}

/// `a` is the node assembled from the multiple-choice definition `q`.
pub open spec fn mc_built(q: McQuestion, a: WeblabAssignment) -> bool {
    &&& a is MultipleChoice
    &&& a->MultipleChoice_0.title@ == q.title@
    &&& a->MultipleChoice_0.assignment_text@ == q.question_text.text@
    &&& a->MultipleChoice_0.options@.len() == q.options@.len()
    &&& forall|i: int|
        0 <= i < q.options@.len() ==> {
            &&& #[trigger] a->MultipleChoice_0.options@[i].text@ == q.options@[i].text@
            &&& a->MultipleChoice_0.options@[i].is_correct == q.options@[i].correct
        }
    &&& a->MultipleChoice_0.randomize == q.randomize
    &&& a->MultipleChoice_0.style == style_for(q.num_answers_expected)
}

pub open spec fn open_error(q: OpenQuestion) -> Option<AssemblyError> {
    if q.title@.len() == 0 {
        Some(AssemblyError::MissingTitle)
    } else if q.question_text.text@.len() == 0 {
        Some(AssemblyError::MissingQuestion)
    } else {
        None
    }
}

pub open spec fn open_built(q: OpenQuestion, a: WeblabAssignment) -> bool {
    &&& a is Open
    &&& a->Open_0.title@ == q.title@
    &&& a->Open_0.assignment_text@ == q.question_text.text@
    &&& a->Open_0.expected_answer@ == q.answer.text@
    &&& a->Open_0.checklist is None
}

pub open spec fn fragment_error(f: QuestionFragment) -> Option<AssemblyError> {
    match f {
        QuestionFragment::MultipleChoice(q) => mc_error(q),
        QuestionFragment::Open(q) => open_error(q),
    }
}

pub open spec fn fragment_built(f: QuestionFragment, a: WeblabAssignment) -> bool {
    match f {
        QuestionFragment::MultipleChoice(q) => mc_built(q, a),
        QuestionFragment::Open(q) => open_built(q, a),
    }
}

/// The error of the first fragment that fails, in order.
pub open spec fn first_error(s: Seq<QuestionFragment>) -> Option<AssemblyError>
    decreases s.len(),
{
    if s.len() == 0 {
        None
    } else {
        match first_error(s.drop_last()) {
            Some(e) => Some(e),
            None => fragment_error(s.last()),
        }
    }
}

fn any_correct(options: &Vec<McAnswer>) -> (r: bool)
    ensures
        r == has_correct(options@),
{
    let mut i: usize = 0;
    while i < options.len()
        invariant
            i <= options@.len(),
            forall|k: int| 0 <= k < i ==> !options@[k].correct,
        decreases options@.len() - i,
    {
        if options[i].correct {
            return true;
        }
        i = i + 1;
    }
    false
}

/// Assembles a multiple-choice question, or names the first rule it breaks.
pub fn mc_question(q: McQuestion) -> (r: Result<WeblabAssignment, AssemblyError>)
    ensures
        match mc_error(q) {
            Some(e) => r == Err::<WeblabAssignment, AssemblyError>(e),
            None => r is Ok && mc_built(q, r->Ok_0),
        },
{
    if q.question_text.text.as_str().is_empty() {
        return Err(AssemblyError::MissingQuestionText);
    }
    if q.title.as_str().is_empty() {
        return Err(AssemblyError::MissingTitle);
    }
    if q.options.len() == 0 {
        return Err(AssemblyError::NoOptions);
    }
    if !any_correct(&q.options) {
        return Err(AssemblyError::NoCorrectOption);
    }
    if q.num_answers_expected > q.options.len() {
        return Err(
            AssemblyError::TooManyExpected {
                expected: q.num_answers_expected,
                available: q.options.len(),
            },
        );
    }
    let mut options: Vec<MCOption> = Vec::new();
    let mut i: usize = 0;
    while i < q.options.len()
        invariant
            i <= q.options@.len(),
            options@.len() == i,
            forall|k: int|
                0 <= k < i ==> {
                    &&& (#[trigger] options@[k]).text@ == q.options@[k].text@
                    &&& options@[k].is_correct == q.options@[k].correct
                },
        decreases q.options@.len() - i,
    {
        options.push(MCOption { text: q.options[i].text.clone(), is_correct: q.options[i].correct });
        i = i + 1;
    }
    let style = if q.num_answers_expected == 0 {
        MCStyle::AllThatApply
    } else {
        MCStyle::NumCorrect(q.num_answers_expected)
    };
    Ok(
        WeblabAssignment::MultipleChoice(
            MCQuestion {
                title: q.title,
                assignment_text: q.question_text.text,
                options,
                randomize: q.randomize,
                style,
            },
        ),
    )
}

/// Assembles an open question, or names the first rule it breaks.
pub fn open_question(q: OpenQuestion) -> (r: Result<WeblabAssignment, AssemblyError>)
    ensures
        match open_error(q) {
            Some(e) => r == Err::<WeblabAssignment, AssemblyError>(e),
            None => r is Ok && open_built(q, r->Ok_0),
        },
{
    if q.title.as_str().is_empty() {
        return Err(AssemblyError::MissingTitle);
    }
    if q.question_text.text.as_str().is_empty() {
        return Err(AssemblyError::MissingQuestion);
    }
    Ok(
        WeblabAssignment::Open(
            structure::OpenQuestion {
                title: q.title,
                assignment_text: q.question_text.text,
                expected_answer: q.answer.text,
                checklist: None,
            },
        ),
    )
}

fn assemble_fragment(f: QuestionFragment) -> (r: Result<WeblabAssignment, AssemblyError>)
    ensures
        match fragment_error(f) {
            Some(e) => r == Err::<WeblabAssignment, AssemblyError>(e),
            None => r is Ok && fragment_built(f, r->Ok_0),
        },
{
    match f {
        QuestionFragment::MultipleChoice(q) => mc_question(q),
        QuestionFragment::Open(q) => open_question(q),
    }
}

proof fn lemma_first_error_extends(s: Seq<QuestionFragment>, k: int)
    requires
        0 <= k <= s.len(),
        first_error(s.subrange(0, k)) is Some,
    ensures
        first_error(s) == first_error(s.subrange(0, k)),
    decreases s.len() - k,
{
    if k < s.len() {
        assert(s.subrange(0, k + 1).drop_last() == s.subrange(0, k));
        lemma_first_error_extends(s, k + 1);
    } else {
        assert(s.subrange(0, k) == s);
    }
}

/// Assembles every question of an inline list in order; the first question
/// that breaks a rule fails the whole list.
pub fn inline_question_list(list: InlineQuestionList) -> (r: Result<
    WeblabAssignment,
    AssemblyError,
>)
    ensures
        match first_error(list.questions@) {
            Some(e) => r == Err::<WeblabAssignment, AssemblyError>(e),
            None => r matches Ok(WeblabAssignment::InlineQuestionList(l)) && l.title@
                == list.title@ && l.assignment_text@ == list.question_text.text@
                && l.assignments@.len() == list.questions@.len() && forall|i: int|
                0 <= i < list.questions@.len() ==> fragment_built(
                    #[trigger] list.questions@[i],
                    l.assignments@[i],
                ),
        },
{
    let ghost all = list.questions@;
    let mut rest = list.questions;
    let mut assignments: Vec<WeblabAssignment> = Vec::new();
    let mut i: usize = 0;
    assert(all.len() == rest.len());
    while rest.len() > 0
        invariant
            all.len() <= usize::MAX,
            all == list.questions@,
            i + rest@.len() == all.len(),
            rest@ == all.subrange(i as int, all.len() as int),
            first_error(all.subrange(0, i as int)) is None,
            assignments@.len() == i,
            forall|k: int| 0 <= k < i ==> fragment_built(#[trigger] all[k], assignments@[k]),
        decreases rest@.len(),
    {
        let f = rest.remove(0);
        assert(f == all[i as int]);
        assert(all.subrange(0, i as int + 1).drop_last() == all.subrange(0, i as int));
        match assemble_fragment(f) {
            Ok(a) => {
                assignments.push(a);
            },
            Err(e) => {
                proof {
                    assert(fragment_error(all[i as int]) == Some(e));
                    assert(first_error(all.subrange(0, i as int + 1)) == Some(e));
                    lemma_first_error_extends(all, i as int + 1);
                }
                return Err(e);
            },
        }
        i = i + 1;
        assert(rest@ =~= all.subrange(i as int, all.len() as int));
    }
    assert(all.subrange(0, i as int) == all);
    Ok(
        WeblabAssignment::InlineQuestionList(
            structure::InlineQuestionList {
                title: list.title,
                assignment_text: list.question_text.text,
                assignments,
            },
        ),
    )
}

} // verus!
