//! The metadata document that describes each exported node.
use vstd::prelude::*;
use crate::split::opt_view;
use crate::structure::{MCOption, MCStyle};

verus! {

#[derive(Debug, PartialEq)]
pub struct Alternative {
    pub text: String,
    pub correct: bool,
}

/// The description of a single question.
#[derive(Debug, PartialEq)]
pub struct Question {
    pub question_type: String,
    pub language: Option<String>,
    pub library_visible: Option<bool>,
    pub program_output_visible: Option<bool>,
    pub spec_test_details_visible: Option<bool>,
    pub docker_image: Option<String>,
    pub editor_language_id: Option<String>,
    pub editor_test_language_id: Option<String>,
    pub editor_library_language_id: Option<String>,
    pub solution_file: Option<String>,
    pub solution_template_file: Option<String>,
    pub spec_test_file: Option<String>,
    pub user_test_template_file: Option<String>,
    pub library_file: Option<String>,
    pub essay_answer_file: Option<String>,
    pub question_text_file: String,
    pub title: String,
    pub explanation: Option<String>,
    pub random_order: Option<bool>,
    pub num_answers_expected: Option<usize>,
    pub alternatives: Vec<Alternative>,
}

#[derive(Debug, PartialEq)]
pub struct Child {
    pub child_assignment_rel_path: String,
}

/// The description of a folder or an inline question list.
#[derive(Debug, PartialEq)]
pub struct Folder {
    pub title: String,
    pub children: Vec<Child>,
    pub display_inline: bool,
    pub description_file: Option<String>,
}

/// One metadata document: a question, or a folder.
#[derive(Debug, PartialEq)]
pub struct AssignmentData {
    pub question: Option<Question>,
    pub folder: Option<Folder>,
}

pub struct QuestionView {
    pub question_type: Seq<char>,
    pub language: Option<Seq<char>>,
    pub library_visible: Option<bool>,
    pub program_output_visible: Option<bool>,
    pub spec_test_details_visible: Option<bool>,
    pub docker_image: Option<Seq<char>>,
    pub editor_language_id: Option<Seq<char>>,
    pub editor_test_language_id: Option<Seq<char>>,
    pub editor_library_language_id: Option<Seq<char>>,
    pub solution_file: Option<Seq<char>>,
    pub solution_template_file: Option<Seq<char>>,
    pub spec_test_file: Option<Seq<char>>,
    pub user_test_template_file: Option<Seq<char>>,
    pub library_file: Option<Seq<char>>,
    pub essay_answer_file: Option<Seq<char>>,
    pub question_text_file: Seq<char>,
    pub title: Seq<char>,
    pub explanation: Option<Seq<char>>,
    pub random_order: Option<bool>,
    pub num_answers_expected: Option<usize>,
    pub alternatives: Seq<(Seq<char>, bool)>,
}

pub struct FolderView {
    pub title: Seq<char>,
    pub children: Seq<Seq<char>>,
    pub display_inline: bool,
    pub description_file: Option<Seq<char>>,
}

pub struct AssignmentDataView {
    pub question: Option<QuestionView>,
    pub folder: Option<FolderView>,
}

impl View for Question {
    type V = QuestionView;

    open spec fn view(&self) -> QuestionView {
        QuestionView {
            question_type: self.question_type@,
            language: opt_view(self.language),
            library_visible: self.library_visible,
            program_output_visible: self.program_output_visible,
            spec_test_details_visible: self.spec_test_details_visible,
            docker_image: opt_view(self.docker_image),
            editor_language_id: opt_view(self.editor_language_id),
            editor_test_language_id: opt_view(self.editor_test_language_id),
            editor_library_language_id: opt_view(self.editor_library_language_id),
            solution_file: opt_view(self.solution_file),
            solution_template_file: opt_view(self.solution_template_file),
            spec_test_file: opt_view(self.spec_test_file),
            user_test_template_file: opt_view(self.user_test_template_file),
            library_file: opt_view(self.library_file),
            essay_answer_file: opt_view(self.essay_answer_file),
            question_text_file: self.question_text_file@,
            title: self.title@,
            explanation: opt_view(self.explanation),
            random_order: self.random_order,
            num_answers_expected: self.num_answers_expected,
            alternatives: self.alternatives@.map_values(|a: Alternative| (a.text@, a.correct)),
        }
    }
}

impl View for Folder {
    type V = FolderView;

    open spec fn view(&self) -> FolderView {
        FolderView {
            title: self.title@,
            children: self.children@.map_values(|c: Child| c.child_assignment_rel_path@),
            display_inline: self.display_inline,
            description_file: opt_view(self.description_file),
        }
    }
}

impl View for AssignmentData {
    type V = AssignmentDataView;

    open spec fn view(&self) -> AssignmentDataView {
        AssignmentDataView { question: opt_view(self.question), folder: opt_view(self.folder) }
    }
}

/// A question description with every optional field absent.
pub open spec fn blank_question(question_type: Seq<char>, title: Seq<char>) -> QuestionView {
    QuestionView {
        question_type,
        language: None,
        library_visible: None,
        program_output_visible: None,
        spec_test_details_visible: None,
        docker_image: None,
        editor_language_id: None,
        editor_test_language_id: None,
        editor_library_language_id: None,
        solution_file: None,
        solution_template_file: None,
        spec_test_file: None,
        user_test_template_file: None,
        library_file: None,
        essay_answer_file: None,
        question_text_file: "question.md"@,
        title,
        explanation: None,
        random_order: None,
        num_answers_expected: None,
        alternatives: Seq::empty(),
    }
}

pub open spec fn folder_data(
    title: Seq<char>,
    paths: Seq<Seq<char>>,
    inline: bool,
    text: Seq<char>,
) -> AssignmentDataView {
    AssignmentDataView {
        question: None,
        folder: Some(
            FolderView {
                title,
                children: paths,
                display_inline: inline,
                description_file: if text.len() == 0 {
                    None
                } else {
                    Some("assignment_description.md"@)
                },
            },
        ),
    }
}

pub open spec fn programming_data(
    title: Seq<char>,
    library_visible: bool,
    program_output_visible: bool,
    spec_test_details_visible: bool,
) -> AssignmentDataView {
    AssignmentDataView {
        question: Some(
            QuestionView {
                language: Some("docker:cese4000-2022-rust"@),
                library_visible: Some(library_visible),
                program_output_visible: Some(program_output_visible),
                spec_test_details_visible: Some(spec_test_details_visible),
                docker_image: Some(Seq::empty()),
                editor_language_id: Some("rust"@),
                editor_test_language_id: Some("rust"@),
                editor_library_language_id: Some("rust"@),
                solution_file: Some("solution.rs"@),
                solution_template_file: Some("solution_template.rs"@),
                spec_test_file: Some("test.rs"@),
                user_test_template_file: Some("test_template.rs"@),
                library_file: Some("library.rs"@),
                ..blank_question("ProgrammingQuestion"@, title)
            },
        ),
        folder: None,
    }
}

/// The number of answers a style asks for, with 0 for any number.
pub open spec fn select_n(style: MCStyle) -> usize {
    match style {
        MCStyle::AllThatApply => 0,
        MCStyle::NumCorrect(n) => n,
    }
}

pub open spec fn mc_data(
    title: Seq<char>,
    explanation: Seq<char>,
    randomize: bool,
    style: MCStyle,
    options: Seq<MCOption>,
) -> AssignmentDataView {
    AssignmentDataView {
        question: Some(
            QuestionView {
                explanation: Some(explanation),
                random_order: Some(randomize),
                num_answers_expected: Some(select_n(style)),
                alternatives: options.map_values(|o: MCOption| (o.text@, o.is_correct)),
                ..blank_question("MultipleChoiceQuestion"@, title)
            },
        ),
        folder: None,
    }
}

pub open spec fn open_data(title: Seq<char>) -> AssignmentDataView {
    AssignmentDataView {
        question: Some(
            QuestionView {
                essay_answer_file: Some("answer.md"@),
                ..blank_question("EssayQuestion"@, title)
            },
        ),
        folder: None,
    }
}

fn some_text(s: &str) -> (r: Option<String>)
    ensures
        opt_view(r) == Some(s@),
{
    Some(s.to_owned())
}

fn blank(question_type: &str, title: &str) -> (r: Question)
    ensures
        r@ == blank_question(question_type@, title@),
{
    let r = Question {
        question_type: question_type.to_owned(),
        language: None,
        library_visible: None,
        program_output_visible: None,
        spec_test_details_visible: None,
        docker_image: None,
        editor_language_id: None,
        editor_test_language_id: None,
        editor_library_language_id: None,
        solution_file: None,
        solution_template_file: None,
        spec_test_file: None,
        user_test_template_file: None,
        library_file: None,
        essay_answer_file: None,
        question_text_file: "question.md".to_owned(),
        title: title.to_owned(),
        explanation: None,
        random_order: None,
        num_answers_expected: None,
        alternatives: Vec::new(),
    };
    assert(r.alternatives@.map_values(|a: Alternative| (a.text@, a.correct)) =~= Seq::empty());
    r
}

impl AssignmentData {
    /// The document of a folder whose children lie under `relative_paths`.
    pub fn new_folder(title: &str, relative_paths: &Vec<String>, inline: bool, assignment_text: &str) -> (r: Self)
        ensures
            r@ == folder_data(title@, relative_paths@.map_values(|p: String| p@), inline, assignment_text@),
    {
        let mut children: Vec<Child> = Vec::new();
        let mut i: usize = 0;
        while i < relative_paths.len()
            invariant
                i <= relative_paths@.len(),
                children@.len() == i,
                forall|k: int|
                    0 <= k < i ==> children@[k].child_assignment_rel_path@ == relative_paths@[k]@,
            decreases relative_paths@.len() - i,
        {
            children.push(Child { child_assignment_rel_path: relative_paths[i].clone() });
            i = i + 1;
        }
        assert(children@.map_values(|c: Child| c.child_assignment_rel_path@)
            =~= relative_paths@.map_values(|p: String| p@));
        let description_file = if assignment_text.is_empty() {
            None
        } else {
            some_text("assignment_description.md")
        };
        AssignmentData {
            question: None,
            folder: Some(
                Folder {
                    title: title.to_owned(),
                    children,
                    display_inline: inline,
                    description_file,
                },
            ),
        }
    }

    /// The document of a programming question.
    pub fn new_programming(
        title: &str,
        library_visible: bool,
        program_output_visible: bool,
        spec_test_details_visible: bool,
    ) -> (r: Self)
        ensures
            r@ == programming_data(
                title@,
                library_visible,
                program_output_visible,
                spec_test_details_visible,
            ),
    {
        let mut q = blank("ProgrammingQuestion", title);
        q.language = some_text("docker:cese4000-2022-rust");
        q.library_visible = Some(library_visible);
        q.program_output_visible = Some(program_output_visible);
        q.spec_test_details_visible = Some(spec_test_details_visible);
        q.docker_image = some_text("");
        q.editor_language_id = some_text("rust");
        q.editor_test_language_id = some_text("rust");
        q.editor_library_language_id = some_text("rust");
        q.solution_file = some_text("solution.rs");
        q.solution_template_file = some_text("solution_template.rs");
        q.spec_test_file = some_text("test.rs");
        q.user_test_template_file = some_text("test_template.rs");
        q.library_file = some_text("library.rs");
        proof {
            reveal_strlit("");
            assert(""@ =~= Seq::<char>::empty());
        }
        AssignmentData { question: Some(q), folder: None }
    }

    /// The document of a multiple-choice question.
    pub fn new_mc(
        title: &str,
        explanation: &str,
        randomize: bool,
        style: MCStyle,
        options: &Vec<MCOption>,
    ) -> (r: Self)
        ensures
            r@ == mc_data(title@, explanation@, randomize, style, options@),
    {
        let mut q = blank("MultipleChoiceQuestion", title);
        q.explanation = some_text(explanation);
        q.random_order = Some(randomize);
        q.num_answers_expected = Some(
            match style {
                MCStyle::AllThatApply => 0,
                MCStyle::NumCorrect(n) => n,
            },
        );
        let mut alternatives: Vec<Alternative> = Vec::new();
        let mut i: usize = 0;
        while i < options.len()
            invariant
                i <= options@.len(),
                alternatives@.len() == i,
                forall|k: int|
                    0 <= k < i ==> alternatives@[k].text@ == options@[k].text@
                        && alternatives@[k].correct == options@[k].is_correct,
            decreases options@.len() - i,
        {
            alternatives.push(
                Alternative { text: options[i].text.clone(), correct: options[i].is_correct },
            );
            i = i + 1;
        }
        assert(alternatives@.map_values(|a: Alternative| (a.text@, a.correct))
            =~= options@.map_values(|o: MCOption| (o.text@, o.is_correct)));
        q.alternatives = alternatives;
        AssignmentData { question: Some(q), folder: None }
    }

    /// The document of an open question.
    pub fn new_open(title: &str) -> (r: Self)
        ensures
            r@ == open_data(title@),
    {
        let mut q = blank("EssayQuestion", title);
        q.essay_answer_file = some_text("answer.md");
        AssignmentData { question: Some(q), folder: None }
    }
}

} // verus!
