use weblab::questions::{inline_question_list, mc_question, open_question, AssemblyError, DocString, InlineQuestionList, McAnswer, McQuestion, OpenQuestion, QuestionFragment};
use weblab::structure::{MCStyle, WeblabAssignment};

fn doc(text: &str) -> DocString {
    DocString { text: text.to_string() }
}

fn answer(text: &str, correct: bool) -> McAnswer {
    McAnswer { text: text.to_string(), correct }
}

fn mc(options: Vec<McAnswer>, expected: usize) -> McQuestion {
    McQuestion {
        title: "example mc".to_string(),
        question_text: doc("Pick one"),
        options,
        num_answers_expected: expected,
        randomize: true,
        explanation: doc(""),
    }
}

#[test]
fn mc_expect_one_of_two() {
    match mc_question(mc(vec![answer("A", false), answer("B", true)], 1)) {
        Ok(WeblabAssignment::MultipleChoice(q)) => {
            assert_eq!(q.style, MCStyle::NumCorrect(1));
            assert_eq!(q.options.len(), 2);
            assert_eq!(q.options[1].text, "B");
            assert!(q.options[1].is_correct);
            assert!(!q.options[0].is_correct);
            assert!(q.randomize);
            assert_eq!(q.title, "example mc");
            assert_eq!(q.assignment_text, "Pick one");
        }
        _ => panic!("expected a multiple-choice question"),
    }
}

#[test]
fn mc_expect_three_of_two_fails() {
    let r = mc_question(mc(vec![answer("A", false), answer("B", true)], 3));
    assert_eq!(r.err(), Some(AssemblyError::TooManyExpected { expected: 3, available: 2 }));
}

#[test]
fn mc_any_number() {
    match mc_question(mc(vec![answer("A", true), answer("B", true)], 0)) {
        Ok(WeblabAssignment::MultipleChoice(q)) => assert_eq!(q.style, MCStyle::AllThatApply),
        _ => panic!("expected a multiple-choice question"),
    }
    assert_eq!(MCStyle::default(), MCStyle::NumCorrect(1));
}

#[test]
fn mc_errors() {
    assert_eq!(mc_question(mc(vec![], 1)).err(), Some(AssemblyError::NoOptions));
    assert_eq!(mc_question(mc(vec![answer("A", false)], 1)).err(), Some(AssemblyError::NoCorrectOption));
    let mut q = mc(vec![answer("A", true)], 1);
    q.title = String::new();
    assert_eq!(mc_question(q).err(), Some(AssemblyError::MissingTitle));
    let mut q = mc(vec![answer("A", true)], 1);
    q.question_text = doc("");
    assert_eq!(mc_question(q).err(), Some(AssemblyError::MissingQuestionText));
}

fn open(title: &str, question: &str, ans: &str) -> OpenQuestion {
    OpenQuestion { title: title.to_string(), question_text: doc(question), answer: doc(ans) }
}

#[test]
fn open_question_assembles() {
    match open_question(open("example open", "Explain", "")) {
        Ok(WeblabAssignment::Open(o)) => {
            assert_eq!(o.title, "example open");
            assert_eq!(o.assignment_text, "Explain");
            assert_eq!(o.expected_answer, "");
            assert!(o.checklist.is_none());
        }
        _ => panic!("expected an open question"),
    }
    assert_eq!(open_question(open("", "Explain", "a")).err(), Some(AssemblyError::MissingTitle));
    assert_eq!(open_question(open("t", "", "a")).err(), Some(AssemblyError::MissingQuestion));
    assert_eq!(AssemblyError::MissingQuestion.message(), "expected question");
    assert_eq!(AssemblyError::MissingQuestionText.message(), "expected question text");
    assert_eq!(AssemblyError::MissingTitle.message(), "expected title");
}

#[test]
fn inline_list_assembles_in_order() {
    let list = InlineQuestionList {
        title: "example of inline question list".to_string(),
        question_text: doc("Several questions"),
        questions: vec![
            QuestionFragment::MultipleChoice(mc(vec![answer("not", true), answer("a bit", true), answer("lots", false)], 1)),
            QuestionFragment::Open(open("example open", "Explain", "while typing")),
        ],
    };
    match inline_question_list(list) {
        Ok(WeblabAssignment::InlineQuestionList(l)) => {
            assert_eq!(l.assignments.len(), 2);
            assert_eq!(l.assignments[0].title(), "example mc");
            assert_eq!(l.assignments[1].title(), "example open");
            assert_eq!(l.assignment_text, "Several questions");
        }
        _ => panic!("expected an inline list"),
    }
    let bad = InlineQuestionList {
        title: "t".to_string(),
        question_text: doc(""),
        questions: vec![
            QuestionFragment::Open(open("ok", "q", "")),
            QuestionFragment::MultipleChoice(mc(vec![answer("x", false)], 1)),
            QuestionFragment::Open(open("", "q", "")),
        ],
    };
    assert_eq!(inline_question_list(bad).err(), Some(AssemblyError::NoCorrectOption));
}

#[test]
fn doc_lines_are_trimmed_and_joined() {
    let d = DocString::from_lines(&vec![" Explain how".to_string(), "".to_string(), "  # Markdown".to_string()]);
    assert_eq!(d.text, "Explain how\n\n# Markdown");
    assert_eq!(DocString::from_lines(&vec![]).text, "");
}
