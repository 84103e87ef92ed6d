use weblab::attr::{Span, ToAttrError};
use weblab::imports::ImportError;
use weblab::questions::AssemblyError;
use weblab::split::{Conditional, SplitError};
use weblab::junit::{convert_to_junit, Failure, TestCase, TestEventType, TestReportMessage};
use weblab::format::{doc_attributes_to_comments, rewrite_doc_pieces};
use weblab::export::{check_assignment_tree, plan_export, EntryContent, PlannedEntry, TreeError};
use weblab::metadata::{AssignmentData, Child};
use weblab::structure::{MCOption, MCQuestion, MCStyle, OpenQuestion, ProgrammingAssignment, WeblabAssignment, WeblabFolder};

fn sum_assignment() -> WeblabAssignment {
    WeblabAssignment::Programming(ProgrammingAssignment {
        title: "sum".to_string(),
        assignment_text: String::new(),
        library_visible: true,
        spectest_stdout_visible: false,
        test: "fn t(){assert!(true)}".to_string(),
        solution: "fn main(){1+1}".to_string(),
        library: None,
        test_template: String::new(),
        solution_template: String::new(),
        checklist: None,
    })
}

fn open(title: &str) -> WeblabAssignment {
    WeblabAssignment::Open(OpenQuestion {
        title: title.to_string(),
        assignment_text: "Why?".to_string(),
        expected_answer: "Because.".to_string(),
        checklist: None,
    })
}

fn folder(title: &str, children: Vec<WeblabAssignment>) -> WeblabAssignment {
    WeblabAssignment::Folder(WeblabFolder {
        title: title.to_string(),
        assignment_text: String::new(),
        assignments: children,
    })
}

fn path(p: &PlannedEntry) -> String {
    p.path.join("/")
}

fn find<'a>(plan: &'a [PlannedEntry], p: &str) -> &'a EntryContent {
    &plan.iter().find(|e| path(e) == p).expect("entry is planned").content
}

#[test]
fn duplicate_titles_fail_before_any_entry() {
    let tree = folder("course", vec![open("Exercise 1"), open("Exercise 1")]);
    let expected = TreeError::DuplicateTitle { folder: "course".to_string(), title: "Exercise 1".to_string() };
    assert_eq!(check_assignment_tree(&tree), Err(expected.clone()));
    assert_eq!(plan_export(&tree), Err(expected));
    let nested = folder("top", vec![folder("course", vec![open("a"), open("b"), open("a")])]);
    assert!(check_assignment_tree(&nested).is_err());
    assert!(check_assignment_tree(&folder("course", vec![open("a"), open("b")])).is_ok());
}

#[test]
fn programming_export_layout() {
    let plan = plan_export(&sum_assignment()).unwrap();
    let paths: Vec<String> = plan.iter().map(path).collect();
    assert_eq!(
        paths,
        vec![
            "sum",
            "sum/library.rs",
            "sum/solution.rs",
            "sum/solution_template.rs",
            "sum/test.rs",
            "sum/test_template.rs",
            "sum/question.md",
            "sum/assignment-data.json",
        ]
    );
    assert_eq!(plan[0].content, EntryContent::Directory);
    assert_eq!(*find(&plan, "sum/solution.rs"), EntryContent::Code("fn main(){1+1}".to_string()));
    assert_eq!(*find(&plan, "sum/test.rs"), EntryContent::Code("fn t(){assert!(true)}".to_string()));
    assert_eq!(*find(&plan, "sum/library.rs"), EntryContent::Code(String::new()));
    assert_eq!(*find(&plan, "sum/question.md"), EntryContent::Text(String::new()));
    match find(&plan, "sum/assignment-data.json") {
        EntryContent::Metadata(AssignmentData { question: Some(q), folder: None }) => {
            assert_eq!(q.library_visible, Some(false));
            assert_eq!(q.question_type, "ProgrammingQuestion");
            assert_eq!(q.title, "sum");
            assert_eq!(q.solution_file.as_deref(), Some("solution.rs"));
            assert_eq!(q.spec_test_file.as_deref(), Some("test.rs"));
        }
        _ => panic!("expected question metadata"),
    }
}

#[test]
fn export_is_repeatable() {
    let tree = folder("course", vec![sum_assignment(), open("Essay")]);
    assert_eq!(plan_export(&tree), plan_export(&tree));
}

#[test]
fn folder_export_layout() {
    let mut tree = folder("week/1", vec![open("Essay"), sum_assignment()]);
    if let WeblabAssignment::Folder(f) = &mut tree {
        f.assignment_text = "Intro".to_string();
    }
    let plan = plan_export(&tree).unwrap();
    assert_eq!(path(&plan[0]), "week1");
    match &plan[1].content {
        EntryContent::Metadata(AssignmentData { question: None, folder: Some(f) }) => {
            assert_eq!(f.title, "week/1");
            assert_eq!(
                f.children,
                vec![
                    Child { child_assignment_rel_path: "Essay".to_string() },
                    Child { child_assignment_rel_path: "sum".to_string() }
                ]
            );
            assert!(!f.display_inline);
            assert_eq!(f.description_file.as_deref(), Some("assignment_description.md"));
        }
        _ => panic!("expected folder metadata"),
    }
    assert_eq!(*find(&plan, "week1/assignment_description.md"), EntryContent::Text("Intro".to_string()));
    assert_eq!(*find(&plan, "week1/Essay/answer.md"), EntryContent::Text("Because.".to_string()));
    assert_eq!(*find(&plan, "week1/sum/solution.rs"), EntryContent::Code("fn main(){1+1}".to_string()));
}

#[test]
fn library_visibility_follows_the_library() {
    let mut a = sum_assignment();
    if let WeblabAssignment::Programming(p) = &mut a {
        p.library = Some("pub fn helper() {}".to_string());
    }
    let plan = plan_export(&a).unwrap();
    assert_eq!(*find(&plan, "sum/library.rs"), EntryContent::Code("pub fn helper() {}".to_string()));
    match find(&plan, "sum/assignment-data.json") {
        EntryContent::Metadata(AssignmentData { question: Some(q), .. }) => assert_eq!(q.library_visible, Some(true)),
        _ => panic!("expected question metadata"),
    }
}

#[test]
fn mc_metadata() {
    let q = WeblabAssignment::MultipleChoice(MCQuestion {
        title: "mc".to_string(),
        assignment_text: "Pick".to_string(),
        options: vec![
            MCOption { text: "A".to_string(), is_correct: false },
            MCOption { text: "B".to_string(), is_correct: true },
        ],
        randomize: true,
        style: MCStyle::AllThatApply,
    });
    let plan = plan_export(&q).unwrap();
    assert_eq!(plan.len(), 3);
    match &plan[2].content {
        EntryContent::Metadata(AssignmentData { question: Some(q), .. }) => {
            assert_eq!(q.question_type, "MultipleChoiceQuestion");
            assert_eq!(q.num_answers_expected, Some(0));
            assert_eq!(q.random_order, Some(true));
            assert_eq!(q.explanation.as_deref(), Some(""));
            assert_eq!(q.alternatives.len(), 2);
            assert_eq!(q.alternatives[1].text, "B");
            assert!(q.alternatives[1].correct);
        }
        _ => panic!("expected question metadata"),
    }
}

#[test]
fn metadata_constructors() {
    let d = AssignmentData::new_open("essay");
    let q = d.question.unwrap();
    assert_eq!(q.question_type, "EssayQuestion");
    assert_eq!(q.essay_answer_file.as_deref(), Some("answer.md"));
    assert_eq!(q.question_text_file, "question.md");
    assert!(d.folder.is_none());
    let f = AssignmentData::new_folder("f", &vec!["x".to_string()], true, "");
    let f = f.folder.unwrap();
    assert!(f.display_inline);
    assert_eq!(f.description_file, None);
    let p = AssignmentData::new_programming("p", true, false, true);
    let q = p.question.unwrap();
    assert_eq!(q.language.as_deref(), Some("docker:cese4000-2022-rust"));
    assert_eq!(q.spec_test_details_visible, Some(true));
    assert_eq!(q.docker_image.as_deref(), Some(""));
    let m = AssignmentData::new_mc("m", "why", false, MCStyle::NumCorrect(2), &vec![]);
    assert_eq!(m.question.unwrap().num_answers_expected, Some(2));
}

#[test]
fn doc_attributes_become_comments() {
    let code = "#[doc = \" Adds \\\"two\\\" numbers\"]\nfn add() {}\n#[doc=\"x\"]\n";
    assert_eq!(doc_attributes_to_comments(code), "/// Adds \"two\" numbers\nfn add() {}\n///x\n");
    assert_eq!(doc_attributes_to_comments("fn f() {}"), "fn f() {}");
    let r = rewrite_doc_pieces(
        &vec!["a".to_string(), "b".to_string(), "c".to_string()],
        &vec!["p\\q".to_string(), "".to_string()],
    );
    assert_eq!(r, "a///pqb///c");
}

#[test]
fn junit_keeps_the_last_status_of_each_test() {
    let msgs = vec![
        TestReportMessage::Suite,
        TestReportMessage::Test { event: TestEventType::Started { name: "a".to_string() } },
        TestReportMessage::Test { event: TestEventType::Started { name: "b".to_string() } },
        TestReportMessage::Test { event: TestEventType::Failed { name: "a".to_string() } },
        TestReportMessage::Test { event: TestEventType::Succeeded { name: "b".to_string() } },
        TestReportMessage::Test { event: TestEventType::Started { name: "c".to_string() } },
    ];
    let r = convert_to_junit(&msgs);
    assert_eq!(r.testsuites.len(), 1);
    let cases = &r.testsuites[0].testcases;
    assert_eq!(
        *cases,
        vec![
            TestCase { name: "a".to_string(), failure: Some(Failure { message: "failed".to_string() }) },
            TestCase { name: "b".to_string(), failure: None },
            TestCase { name: "c".to_string(), failure: None },
        ]
    );
    assert!(convert_to_junit(&vec![]).testsuites[0].testcases.is_empty());
}

#[test]
fn error_messages() {
    let e = TreeError::DuplicateTitle { folder: "course".to_string(), title: "Exercise 1".to_string() };
    assert_eq!(
        e.message(),
        "folder `course` contains multiple assignments with the name `Exercise 1`, which leads to ambiguity"
    );
    let e = AssemblyError::TooManyExpected { expected: 3, available: 2 };
    assert_eq!(e.message(), "you marked this question as requiring 3 but there are only 2 options");
    let e = AssemblyError::TooManyExpected { expected: 120, available: 10 };
    assert_eq!(e.message(), "you marked this question as requiring 120 but there are only 10 options");
    assert_eq!(
        SplitError::Import(ImportError::Forbidden("reqwest".to_string()), Span { line: 1, column: 1 }).message(),
        "reqwest cannot be imported in weblab and is therefore forbidden"
    );
    assert_eq!(SplitError::NoSpectest.message(), "assignment has no spectest");
    assert_eq!(
        SplitError::UnbracedConditional(Conditional::SolutionOnly, Span { line: 1, column: 1 }).message(),
        "use braces in solution_only"
    );
    assert_eq!(
        SplitError::Attribute(ToAttrError::ExpectedString(Span { line: 1, column: 1 })).message(),
        "expected string"
    );
}
