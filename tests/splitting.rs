use weblab::attr::{parse_attr, Attr, Marker, MarkerValue, ParseAttrStatus, RawAttribute, Span, ToAttrError};
use weblab::imports::{should_drop, ImportError, UseTree};
use weblab::programming::{process_programming_assignment, weblab};
use weblab::split::{Conditional, FindAnnotated, Item, ItemKind, SplitError, Status};
use weblab::structure::ProgrammingAssignment;

fn sp(line: usize) -> Span {
    Span { line, column: 1 }
}

fn flag(name: &str) -> Marker {
    Marker::Flag { name: name.to_string(), span: sp(1) }
}

fn named(name: &str, value: &str) -> Marker {
    Marker::Named {
        name: name.to_string(),
        value: MarkerValue::Str(value.to_string()),
        span: sp(1),
        value_span: sp(1),
    }
}

fn weblab_attr(markers: Vec<Marker>) -> RawAttribute {
    RawAttribute {
        path: "weblab".to_string(),
        markers,
        text: "#[weblab]".to_string(),
        span: sp(1),
    }
}

fn doc_attr(text: &str) -> RawAttribute {
    RawAttribute {
        path: "doc".to_string(),
        markers: vec![named("doc", text)],
        text: format!("///{}\n", text),
        span: sp(1),
    }
}

fn module(name: &str, attrs: Vec<RawAttribute>, children: Vec<Item>, line: usize) -> Item {
    Item {
        kind: ItemKind::Module { name: name.to_string() },
        attrs,
        head: format!("mod {} {{ ", name),
        children,
        tail: "} ".to_string(),
        span: sp(line),
    }
}

fn marked(name: &str, marker: &str, children: Vec<Item>, line: usize) -> Item {
    module(name, vec![weblab_attr(vec![flag(marker)])], children, line)
}

fn code(text: &str) -> Item {
    Item {
        kind: ItemKind::Code,
        attrs: vec![],
        head: text.to_string(),
        children: vec![],
        tail: String::new(),
        span: sp(1),
    }
}

fn conditional(which: Conditional, braced: bool, children: Vec<Item>) -> Item {
    Item {
        kind: ItemKind::Conditional { which, braced },
        attrs: vec![],
        head: String::new(),
        children,
        tail: String::new(),
        span: sp(7),
    }
}

fn import(tree: UseTree, text: &str) -> Item {
    Item {
        kind: ItemKind::Use { tree },
        attrs: vec![],
        head: text.to_string(),
        children: vec![],
        tail: String::new(),
        span: sp(3),
    }
}

fn name(n: &str) -> UseTree {
    UseTree::Name { ident: n.to_string() }
}

fn root(children: Vec<Item>) -> Item {
    module("assignment", vec![], children, 1)
}

fn assemble(children: Vec<Item>) -> Result<ProgrammingAssignment, SplitError> {
    weblab(&vec![flag("programming_assignment")], &root(children))
}

/// The definition of the first example assignment: a solution that prints,
/// a test that calls it, and an empty library.
#[test]
fn a_test() {
    let m = module(
        "assignment",
        vec![doc_attr(" This is an example assignment."), weblab_attr(vec![named("title", "test_1")])],
        vec![
            marked("solution", "solution", vec![code("pub fn main() { println!(\"main!\"); }")], 2),
            marked(
                "test",
                "test",
                vec![
                    import(UseTree::Path { ident: "super".to_string(), tree: Box::new(name("solution")) }, "use super::solution;"),
                    code("#[test] fn test() { solution::main(); }"),
                ],
                3,
            ),
            marked("library", "library", vec![], 4),
        ],
        1,
    );
    let a = weblab(&vec![flag("programming_assignment")], &m).unwrap();
    assert_eq!(a.title, "test_1");
    assert_eq!(a.assignment_text, "This is an example assignment.");
    assert_eq!(a.solution, "pub fn main() { println!(\"main!\"); }");
    assert_eq!(a.test, "use super::solution;#[test] fn test() { solution::main(); }");
    assert_eq!(a.library, Some(String::new()));
    assert_eq!(a.solution_template, "pub fn main() { println!(\"main!\"); }");
}

/// The second example: the solution returns "main" only in the reference
/// view, and the spec test expects "mains".
#[test]
fn c_test() {
    let body = vec![
        import(
            UseTree::Path {
                ident: "weblab".to_string(),
                tree: Box::new(UseTree::Group { items: vec![name("solution_only"), name("template_only")] }),
            },
            "use weblab::{solution_only, template_only};",
        ),
        code("pub fn main() -> &'static str {"),
        conditional(Conditional::SolutionOnly, true, vec![code("\"main\"")]),
        conditional(Conditional::TemplateOnly, true, vec![code("todo!()")]),
        code("}"),
    ];
    let a = assemble(vec![
        marked("solution", "solution", body, 2),
        marked(
            "test",
            "test",
            vec![code("#[test] fn test() { assert_eq!(solution::main(), \"mains\"); }")],
            3,
        ),
        marked("library", "library", vec![], 4),
    ])
    .unwrap();
    assert_eq!(a.solution, "pub fn main() -> &'static str {\"main\"}");
    assert_eq!(a.solution_template, "pub fn main() -> &'static str {todo!()}");
    assert!(a.test.contains("\"mains\""));
}

#[test]
fn simple_conversion() {
    let m = module(
        "xxx",
        vec![doc_attr(" description"), weblab_attr(vec![named("title", "yyy")])],
        vec![
            marked("solution", "solution", vec![], 2),
            marked("test", "test", vec![], 3),
            marked("library", "library", vec![], 4),
        ],
        1,
    );
    let a = weblab(&vec![flag("programming_assignment")], &m).unwrap();
    assert_eq!(a.title, "yyy");
    assert_eq!(a.assignment_text, "description");
}

#[test]
fn no_title() {
    let m = module(
        "aaa",
        vec![],
        vec![
            marked("solution", "solution", vec![], 2),
            marked("test", "test", vec![], 3),
            marked("library", "library", vec![], 4),
        ],
        1,
    );
    let a = weblab(&vec![flag("programming_assignment")], &m).unwrap();
    assert_eq!(a.title, "aaa");
}

#[test]
fn reference_view_fills_both_slots() {
    let a = assemble(vec![
        marked("solution", "solution", vec![code("fn f() {}")], 2),
        marked("test", "test", vec![code("fn t() {}")], 3),
    ])
    .unwrap();
    assert_eq!(a.solution, "fn f() {}");
    assert_eq!(a.test, "fn t() {}");
    assert_eq!(a.library, None);
    assert_eq!(a.test_template, "fn t() {}");
    assert!(!a.library_visible);
}

#[test]
fn solution_template_overrides_solution() {
    let a = assemble(vec![
        marked("solution", "solution", vec![code("fn f() {}")], 2),
        marked("solution_template", "solution_template", vec![code("fn f() { todo!() }")], 3),
        marked("test", "test", vec![code("fn t() {}")], 4),
    ])
    .unwrap();
    assert_eq!(a.solution, "fn f() {}");
    assert_eq!(a.solution_template, "fn f() { todo!() }");
    // a base block after a template block is a second block for the same slot
    let r = assemble(vec![
        marked("solution_template", "solution_template", vec![], 2),
        marked("solution", "solution", vec![], 3),
        marked("test", "test", vec![], 4),
    ]);
    assert_eq!(r, Err(SplitError::MultipleSolutionTemplates(sp(3))));
}

#[test]
fn template_status_is_certain_after_template_marker() {
    let mut t = FindAnnotated::template();
    t.observe(&vec![Attr::Solution], "base".to_string(), sp(1)).unwrap();
    t.observe(&vec![Attr::SolutionTemplate], "tmpl".to_string(), sp(2)).unwrap();
    match t {
        FindAnnotated::Template { solution: Status::Certain(s), .. } => assert_eq!(s, "tmpl"),
        _ => panic!("expected a certain solution template"),
    }
    assert_eq!(
        t_after_solution(),
        Err(SplitError::MultipleSolutionTemplates(sp(3)))
    );
}

fn t_after_solution() -> Result<(), SplitError> {
    let mut t = FindAnnotated::template();
    t.observe(&vec![Attr::SolutionTemplate], "tmpl".to_string(), sp(2))?;
    t.observe(&vec![Attr::Solution], "base".to_string(), sp(3))
}

#[test]
fn two_solution_templates_conflict() {
    let r = assemble(vec![
        marked("solution", "solution", vec![], 2),
        marked("a", "solution_template", vec![], 3),
        marked("b", "solution_template", vec![], 4),
        marked("test", "test", vec![], 5),
    ]);
    assert_eq!(r, Err(SplitError::MultipleSolutionTemplates(sp(4))));
    let r = assemble(vec![
        marked("a", "test_template", vec![], 2),
        marked("b", "test_template", vec![], 3),
        marked("solution", "solution", vec![], 4),
        marked("test", "test", vec![], 5),
    ]);
    assert_eq!(r, Err(SplitError::MultipleTestTemplates(sp(3))));
}

#[test]
fn duplicate_library_and_reference_blocks_conflict() {
    let r = assemble(vec![
        marked("l1", "library", vec![], 2),
        marked("l2", "library", vec![], 3),
        marked("solution", "solution", vec![], 4),
        marked("test", "test", vec![], 5),
    ]);
    assert_eq!(r, Err(SplitError::MultipleLibraries(sp(3))));
    let r = assemble(vec![
        marked("s1", "solution", vec![], 2),
        marked("s2", "solution", vec![], 3),
        marked("test", "test", vec![], 5),
    ]);
    assert_eq!(r, Err(SplitError::MultipleReferenceSolutions(sp(3))));
    let r = assemble(vec![
        marked("solution", "solution", vec![], 2),
        marked("t1", "test", vec![], 3),
        marked("t2", "test", vec![], 4),
    ]);
    assert_eq!(r, Err(SplitError::MultipleSpecTests(sp(4))));
}

#[test]
fn missing_blocks_are_reported() {
    assert_eq!(assemble(vec![marked("solution", "solution", vec![], 2)]), Err(SplitError::NoSpectest));
    assert_eq!(assemble(vec![marked("test", "test", vec![], 2)]), Err(SplitError::NoReferenceSolution));
}

#[test]
fn nested_blocks_are_found() {
    let a = assemble(vec![module(
        "inner",
        vec![],
        vec![marked("solution", "solution", vec![code("x")], 3), marked("test", "test", vec![code("y")], 4)],
        2,
    )])
    .unwrap();
    assert_eq!(a.solution, "x");
    assert_eq!(a.test, "y");
}

#[test]
fn allowed_imports_survive_in_both_views() {
    let a = assemble(vec![
        marked("solution", "solution", vec![import(name("serde"), "use serde;"), import(name("weblab"), "use weblab;")], 2),
        marked("test", "test", vec![import(UseTree::Rename { ident: "std".to_string(), rename: "s".to_string() }, "use std as s;")], 3),
    ])
    .unwrap();
    assert_eq!(a.solution, "use serde;");
    assert_eq!(a.solution_template, "use serde;");
    assert_eq!(a.test, "use std as s;");
    assert_eq!(a.test_template, "use std as s;");
}

#[test]
fn forbidden_imports_fail() {
    let r = assemble(vec![
        marked("solution", "solution", vec![import(name("reqwest"), "use reqwest;")], 2),
        marked("test", "test", vec![], 3),
    ]);
    assert_eq!(r, Err(SplitError::Import(ImportError::Forbidden("reqwest".to_string()), sp(3))));
    assert_eq!(should_drop(&name("crate")), Err(ImportError::CrateRelative));
    assert_eq!(should_drop(&name("super")), Ok(false));
    assert_eq!(should_drop(&UseTree::Glob), Ok(false));
    assert_eq!(should_drop(&name("weblab")), Ok(true));
    assert_eq!(should_drop(&name("itertools")), Ok(false));
    assert_eq!(should_drop(&UseTree::Group { items: vec![name("weblab"), name("std")] }), Err(ImportError::Mixed));
    assert_eq!(should_drop(&UseTree::Group { items: vec![name("weblab"), name("weblab")] }), Ok(true));
    assert_eq!(should_drop(&UseTree::Group { items: vec![name("std"), name("x")] }), Err(ImportError::Forbidden("x".to_string())));
}

#[test]
fn conditional_blocks_need_braces() {
    let r = assemble(vec![
        marked("solution", "solution", vec![conditional(Conditional::TemplateOnly, false, vec![code("todo!()")])], 2),
        marked("test", "test", vec![], 3),
    ]);
    assert_eq!(r, Err(SplitError::UnbracedConditional(Conditional::TemplateOnly, sp(7))));
}

#[test]
fn attribute_errors() {
    let bad = Marker::Named { name: "title".to_string(), value: MarkerValue::NotStr, span: sp(1), value_span: sp(9) };
    assert_eq!(Attr::from_marker(&bad), Err(ToAttrError::ExpectedString(sp(9))));
    assert_eq!(Attr::from_marker(&flag("solutions")), Err(ToAttrError::Unrecognized(sp(1))));
    assert_eq!(Attr::from_marker(&named("author", "x")), Err(ToAttrError::UnknownPayload(sp(1))));
    assert_eq!(Attr::from_marker(&named("description", "d")), Ok(Attr::Doc("d".to_string())));
    assert_eq!(Attr::from_marker(&flag("main")), Ok(Attr::Main));
    assert_eq!(Attr::from_marker(&Marker::Other { span: sp(5) }), Err(ToAttrError::Unrecognized(sp(5))));
    let r = assemble(vec![
        marked("solution", "solutoin", vec![], 2),
        marked("test", "test", vec![], 3),
    ]);
    assert_eq!(r, Err(SplitError::Attribute(ToAttrError::Unrecognized(sp(1)))));
    match parse_attr(weblab_attr(vec![])) {
        Err(e) => assert_eq!(e, ToAttrError::Malformed(sp(1))),
        Ok(_) => panic!("an empty marker list is malformed"),
    }
    match parse_attr(doc_attr(" text")) {
        Ok(ParseAttrStatus::Doc(a, back)) => {
            assert_eq!(a, Attr::Doc(" text".to_string()));
            assert_eq!(back.path, "doc");
        }
        _ => panic!("a doc line yields a description"),
    }
    match parse_attr(RawAttribute { path: "test".to_string(), markers: vec![], text: "#[test]".to_string(), span: sp(1) }) {
        Ok(ParseAttrStatus::NotParsed(back)) => assert_eq!(back.text, "#[test]"),
        _ => panic!("other lines are left alone"),
    }
}

#[test]
fn root_marker_must_come_first() {
    let m = root(vec![marked("solution", "solution", vec![], 2), marked("test", "test", vec![], 3)]);
    assert_eq!(weblab(&vec![flag("solution"), flag("programming_assignment")], &m), Err(SplitError::NotAnAssignmentRoot));
    assert_eq!(weblab(&vec![], &m), Err(SplitError::NotAnAssignmentRoot));
    assert!(weblab(&vec![flag("programming_assignment")], &m).is_ok());
}

#[test]
fn two_titles_fail() {
    let m = module(
        "m",
        vec![weblab_attr(vec![named("title", "a")])],
        vec![marked("solution", "solution", vec![], 2), marked("test", "test", vec![], 3)],
        1,
    );
    assert_eq!(process_programming_assignment(&vec![Attr::Title("b".to_string())], &m), Err(SplitError::MultipleTitles));
    let a = process_programming_assignment(&vec![], &m).unwrap();
    assert_eq!(a.title, "a");
}

#[test]
fn descriptions_are_trimmed_and_joined() {
    let m = module(
        "m",
        vec![doc_attr("   first"), doc_attr("\tsecond  ")],
        vec![marked("solution", "solution", vec![], 2), marked("test", "test", vec![], 3)],
        1,
    );
    let a = process_programming_assignment(&vec![], &m).unwrap();
    assert_eq!(a.assignment_text, "first\nsecond  ");
}

#[test]
fn kept_attributes_stay_in_code() {
    let mut item = code("fn t() {}");
    item.attrs = vec![
        RawAttribute { path: "test".to_string(), markers: vec![], text: "#[test] ".to_string(), span: sp(1) },
        weblab_attr(vec![flag("main")]),
    ];
    let a = assemble(vec![marked("solution", "solution", vec![], 2), marked("test", "test", vec![item], 3)]).unwrap();
    assert_eq!(a.test, "#[test] fn t() {}");
}

#[test]
fn conflicting_block_leaves_the_first_in_its_slot() {
    let mut t = FindAnnotated::template();
    let r = t.fold_children(&root(vec![
        marked("a", "solution_template", vec![code("first")], 2),
        marked("b", "solution_template", vec![code("second")], 3),
    ]));
    assert_eq!(r, Err(SplitError::MultipleSolutionTemplates(sp(3))));
    assert_eq!(t.solution(), Some("first".to_string()));
    assert!(matches!(t, FindAnnotated::Template { solution: Status::Certain(_), .. }));

    let mut t = FindAnnotated::template();
    let r = t.fold_children(&root(vec![
        marked("l1", "library", vec![code("one")], 2),
        marked("l2", "library", vec![code("two")], 3),
    ]));
    assert_eq!(r, Err(SplitError::MultipleLibraries(sp(3))));
    assert_eq!(t.library(), Some("one".to_string()));

    let mut t = FindAnnotated::reference();
    let r = t.fold_children(&root(vec![
        marked("t1", "test", vec![code("x")], 2),
        marked("t2", "test", vec![code("y")], 3),
    ]));
    assert_eq!(r, Err(SplitError::MultipleSpecTests(sp(3))));
    assert_eq!(t.test(), Some("x".to_string()));
}
