//! Validation of an assignment tree and the layout of its exported package.
use vstd::prelude::*;
use crate::metadata::{AssignmentData, AssignmentDataView, folder_data, mc_data, open_data, programming_data};
use crate::programming::or_empty;
use crate::split::opt_view;
use crate::structure::WeblabAssignment;

verus! {

broadcast use vstd::std_specs::vec::group_vec_axioms;

/// What `sanitize_filename` makes of a title.
pub uninterp spec fn sanitized(s: Seq<char>) -> Seq<char>;

/// Relies on `sanitize_filename::sanitize_with_options`: the title with the
/// characters that a path segment cannot hold removed. The options are fixed,
/// so the result depends on the title alone.
#[verifier::external_body]
fn sanitize_title(s: &str) -> (r: String)
    ensures
        r@ == sanitized(s@),
{
    sanitize_filename::sanitize_with_options(
        s,
        sanitize_filename::Options { windows: false, truncate: true, replacement: "" },
    )
}

/// Two children of one folder share a title.
#[derive(Clone, Debug, PartialEq, Eq)]
pub enum TreeError {
    DuplicateTitle { folder: String, title: String },
}

pub open spec fn titles_distinct(s: Seq<WeblabAssignment>) -> bool {
    forall|i: int, j: int| 0 <= i < j < s.len() ==> s[i].spec_title() != s[j].spec_title()
}

/// Every folder and inline list in the tree has children with distinct titles.
pub open spec fn tree_valid(node: WeblabAssignment) -> bool
    decreases node, 1nat, 0nat,
{
    match node {
        WeblabAssignment::Folder(f) => titles_distinct(f.assignments@) && children_valid(
            node,
            f.assignments.len() as nat,
        ),
        WeblabAssignment::InlineQuestionList(l) => titles_distinct(l.assignments@)
            && children_valid(node, l.assignments.len() as nat),
        _ => true,
    }
}

/// The first `n` children of `node` are valid trees.
pub open spec fn children_valid(node: WeblabAssignment, n: nat) -> bool
    decreases node, 0nat, n,
{
    match node {
        WeblabAssignment::Folder(f) => if n == 0 || n > f.assignments.len() {
            true
        } else {
            children_valid(node, (n - 1) as nat) && tree_valid(f.assignments[n - 1])
        },
        WeblabAssignment::InlineQuestionList(l) => if n == 0 || n > l.assignments.len() {
            true
        } else {
            children_valid(node, (n - 1) as nat) && tree_valid(l.assignments[n - 1])
        },
        _ => true,
    }
}

/// Some folder of the tree, titled `folder`, has two children titled `title`.
pub open spec fn names_duplicate(node: WeblabAssignment, folder: Seq<char>, title: Seq<char>) -> bool
    decreases node, 1nat, 0nat,
{
    match node {
        WeblabAssignment::Folder(f) => (f.title@ == folder && repeats(f.assignments@, title))
            || child_names_duplicate(node, f.assignments.len() as nat, folder, title),
        WeblabAssignment::InlineQuestionList(l) => (l.title@ == folder && repeats(
            l.assignments@,
            title,
        )) || child_names_duplicate(node, l.assignments.len() as nat, folder, title),
        _ => false,
    }
}

/// Two of `s` are titled `title`.
pub open spec fn repeats(s: Seq<WeblabAssignment>, title: Seq<char>) -> bool {
    exists|i: int, j: int|
        0 <= i < j < s.len() && s[i].spec_title() == title && s[j].spec_title() == title
}

/// One of the first `n` children of `node` holds such a folder.
pub open spec fn child_names_duplicate(
    node: WeblabAssignment,
    n: nat,
    folder: Seq<char>,
    title: Seq<char>,
) -> bool
    decreases node, 0nat, n,
{
    match node {
        WeblabAssignment::Folder(f) => if n == 0 || n > f.assignments.len() {
            false
        } else {
            child_names_duplicate(node, (n - 1) as nat, folder, title) || names_duplicate(
                f.assignments[n - 1],
                folder,
                title,
            )
        },
        WeblabAssignment::InlineQuestionList(l) => if n == 0 || n > l.assignments.len() {
            false
        } else {
            child_names_duplicate(node, (n - 1) as nat, folder, title) || names_duplicate(
                l.assignments[n - 1],
                folder,
                title,
            )
        },
        _ => false,
    }
}

proof fn lemma_child_names_duplicate(
    node: WeblabAssignment,
    n: nat,
    k: int,
    folder: Seq<char>,
    title: Seq<char>,
)
    requires
        n <= node.spec_children().len(),
        0 <= k < n,
        names_duplicate(node.spec_children()[k], folder, title),
    ensures
        child_names_duplicate(node, n, folder, title),
    decreases n,
{
    if k < n - 1 {
        lemma_child_names_duplicate(node, (n - 1) as nat, k, folder, title);
    }
}

proof fn lemma_children_valid(node: WeblabAssignment, n: nat)
    requires
        n <= node.spec_children().len(),
    ensures
        children_valid(node, n) <==> forall|k: int|
            0 <= k < n ==> tree_valid(#[trigger] node.spec_children()[k]),
    decreases n,
{
    if n > 0 {
        lemma_children_valid(node, (n - 1) as nat);
    }
}

fn same_text(a: &str, b: &str) -> (r: bool)
    ensures
        r == (a@ == b@),
{
    a.to_owned() == b.to_owned()
}

/// Checks that the children of one folder have distinct titles and are
/// valid trees themselves.
fn check_folder(title: &String, assignments: &Vec<WeblabAssignment>) -> (r: Result<(), TreeError>)
    ensures
        r is Ok <==> titles_distinct(assignments@) && forall|k: int|
            0 <= k < assignments@.len() ==> tree_valid(#[trigger] assignments@[k]),
        r matches Err(TreeError::DuplicateTitle { folder, title: t }) ==> (folder@ == title@
            && repeats(assignments@, t@)) || exists|k: int|
            0 <= k < assignments@.len() && names_duplicate(#[trigger] assignments@[k], folder@, t@),
    decreases assignments,
{
    let mut i: usize = 0;
    while i < assignments.len()
        invariant
            i <= assignments@.len(),
            titles_distinct(assignments@.subrange(0, i as int)),
            forall|k: int| 0 <= k < i ==> tree_valid(#[trigger] assignments@[k]),
        decreases assignments@.len() - i,
    {
        let t = assignments[i].title();
        let mut k: usize = 0;
        while k < i
            invariant
                k <= i < assignments@.len(),
                t@ == assignments@[i as int].spec_title(),
                forall|m: int| 0 <= m < k ==> assignments@[m].spec_title() != t@,
            decreases i - k,
        {
            if same_text(assignments[k].title(), t) {
                assert(assignments@.subrange(0, i as int + 1)[k as int] == assignments@[k as int]);
                let dup = t.to_owned();
                assert(repeats(assignments@, dup@)) by {
                    assert(0 <= k < i < assignments@.len() && assignments@[k as int].spec_title()
                        == dup@ && assignments@[i as int].spec_title() == dup@);
                }
                return Err(TreeError::DuplicateTitle { folder: title.clone(), title: dup });
            }
            k = k + 1;
        }
        match check_assignment_tree(&assignments[i]) {
            Ok(()) => {},
            Err(e) => {
                assert(names_duplicate(
                    assignments@[i as int],
                    e->DuplicateTitle_folder@,
                    e->DuplicateTitle_title@,
                ));
                return Err(e);
            },
        }
        i = i + 1;
        assert(titles_distinct(assignments@.subrange(0, i as int))) by {
            let s = assignments@.subrange(0, i as int);
            assert forall|a: int, b: int| 0 <= a < b < s.len() implies s[a].spec_title()
                != s[b].spec_title() by {
                if b < i - 1 {
                    assert(s[a] == assignments@.subrange(0, i - 1)[a]);
                    assert(s[b] == assignments@.subrange(0, i - 1)[b]);
                }
            }
        }
    }
    assert(assignments@.subrange(0, i as int) == assignments@);
    Ok(())
}

/// Checks, before anything is written, that no folder of the tree holds two
/// children with the same title.
pub fn check_assignment_tree(assignment: &WeblabAssignment) -> (r: Result<(), TreeError>)
    ensures
        r is Ok <==> tree_valid(*assignment),
        r matches Err(TreeError::DuplicateTitle { folder, title }) ==> names_duplicate(
            *assignment,
            folder@,
            title@,
        ),
    decreases assignment,
{
    match assignment {
        WeblabAssignment::Folder(f) => {
            let r = check_folder(&f.title, &f.assignments);
            proof {
                lemma_children_valid(*assignment, f.assignments.len() as nat);
                assert(assignment.spec_children() == f.assignments@);
                assert(tree_valid(*assignment) == (titles_distinct(f.assignments@)
                    && children_valid(*assignment, f.assignments.len() as nat)));
                if r is Err {
                    let folder = r->Err_0->DuplicateTitle_folder;
                    let title = r->Err_0->DuplicateTitle_title;
                    if !(folder@ == f.title@ && repeats(f.assignments@, title@)) {
                        let k = choose|k: int|
                            0 <= k < f.assignments@.len() && names_duplicate(
                                #[trigger] f.assignments@[k],
                                folder@,
                                title@,
                            );
                        lemma_child_names_duplicate(
                            *assignment,
                            f.assignments.len() as nat,
                            k,
                            folder@,
                            title@,
                        );
                    }
                }
            }
            r
        },
        WeblabAssignment::InlineQuestionList(l) => {
            let r = check_folder(&l.title, &l.assignments);
            proof {
                lemma_children_valid(*assignment, l.assignments.len() as nat);
                assert(assignment.spec_children() == l.assignments@);
                assert(tree_valid(*assignment) == (titles_distinct(l.assignments@)
                    && children_valid(*assignment, l.assignments.len() as nat)));
                if r is Err {
                    let folder = r->Err_0->DuplicateTitle_folder;
                    let title = r->Err_0->DuplicateTitle_title;
                    if !(folder@ == l.title@ && repeats(l.assignments@, title@)) {
                        let k = choose|k: int|
                            0 <= k < l.assignments@.len() && names_duplicate(
                                #[trigger] l.assignments@[k],
                                folder@,
                                title@,
                            );
                        lemma_child_names_duplicate(
                            *assignment,
                            l.assignments.len() as nat,
                            k,
                            folder@,
                            title@,
                        );
                    }
                }
            }
            r
        },
        _ => Ok(()),
    }
}

/// What to put at one path of the exported package.
#[derive(Debug, PartialEq)]
pub enum EntryContent {
    Directory,
    Text(String),
    /// Source code, to be passed through the code formatter when written.
    Code(String),
    Metadata(AssignmentData),
}

/// One step of an export: a path relative to the destination, as segments,
/// and what goes there.
#[derive(Debug, PartialEq)]
pub struct PlannedEntry {
    pub path: Vec<String>,
    pub content: EntryContent,
}

pub enum ContentView {
    Directory,
    Text(Seq<char>),
    Code(Seq<char>),
    Metadata(AssignmentDataView),
}

pub struct EntryView {
    pub path: Seq<Seq<char>>,
    pub content: ContentView,
}

impl View for EntryContent {
    type V = ContentView;

    open spec fn view(&self) -> ContentView {
        match self {
            EntryContent::Directory => ContentView::Directory,
            EntryContent::Text(t) => ContentView::Text(t@),
            EntryContent::Code(c) => ContentView::Code(c@),
            EntryContent::Metadata(m) => ContentView::Metadata(m@),
        }
    }
}

pub open spec fn path_view(p: Seq<String>) -> Seq<Seq<char>> {
    p.map_values(|s: String| s@)
}

impl View for PlannedEntry {
    type V = EntryView;

    open spec fn view(&self) -> EntryView {
        EntryView { path: path_view(self.path@), content: self.content@ }
    }
}

pub open spec fn entries_view(s: Seq<PlannedEntry>) -> Seq<EntryView> {
    s.map_values(|e: PlannedEntry| e@)
}

pub open spec fn file_at(dir: Seq<Seq<char>>, name: Seq<char>, content: ContentView) -> EntryView {
    EntryView { path: dir.push(name), content }
}

/// The directory of a node under `prefix`.
pub open spec fn node_dir(prefix: Seq<Seq<char>>, node: WeblabAssignment) -> Seq<Seq<char>> {
    prefix.push(sanitized(node.spec_title()))
}

pub open spec fn child_titles(s: Seq<WeblabAssignment>) -> Seq<Seq<char>> {
    s.map_values(|a: WeblabAssignment| a.spec_title())
}

/// The entries that export `node` under `prefix`, in the order of writing.
pub open spec fn plan_node(prefix: Seq<Seq<char>>, node: WeblabAssignment) -> Seq<EntryView>
    decreases node, 1nat, 0nat,
{
    let dir = node_dir(prefix, node);
    let here = EntryView { path: dir, content: ContentView::Directory };
    match node {
        WeblabAssignment::Programming(p) => seq![
            here,
            file_at(dir, "library.rs"@, ContentView::Code(or_empty(opt_view(p.library)))),
            file_at(dir, "solution.rs"@, ContentView::Code(p.solution@)),
            file_at(dir, "solution_template.rs"@, ContentView::Code(p.solution_template@)),
            file_at(dir, "test.rs"@, ContentView::Code(p.test@)),
            file_at(dir, "test_template.rs"@, ContentView::Code(p.test_template@)),
            file_at(dir, "question.md"@, ContentView::Text(p.assignment_text@)),
            file_at(
                dir,
                "assignment-data.json"@,
                ContentView::Metadata(
                    programming_data(p.title@, p.library_visible && p.library is Some, false, false),
                ),
            ),
        ],
        WeblabAssignment::Open(o) => seq![
            here,
            file_at(dir, "answer.md"@, ContentView::Text(o.expected_answer@)),
            file_at(dir, "question.md"@, ContentView::Text(o.assignment_text@)),
            file_at(dir, "assignment-data.json"@, ContentView::Metadata(open_data(o.title@))),
        ],
        WeblabAssignment::MultipleChoice(m) => seq![
            here,
            file_at(dir, "question.md"@, ContentView::Text(m.assignment_text@)),
            file_at(
                dir,
                "assignment-data.json"@,
                ContentView::Metadata(
                    mc_data(m.title@, Seq::empty(), m.randomize, m.style, m.options@),
                ),
            ),
        ],
        WeblabAssignment::Folder(f) => folder_head(dir, f.title@, child_titles(f.assignments@), false, f.assignment_text@)
            + plan_children(dir, node, f.assignments.len() as nat),
        WeblabAssignment::InlineQuestionList(l) => folder_head(dir, l.title@, child_titles(l.assignments@), true, l.assignment_text@)
            + plan_children(dir, node, l.assignments.len() as nat),
    }
}

/// The entries of a folder before those of its children.
pub open spec fn folder_head(
    dir: Seq<Seq<char>>,
    title: Seq<char>,
    titles: Seq<Seq<char>>,
    inline: bool,
    text: Seq<char>,
) -> Seq<EntryView> {
    seq![
        EntryView { path: dir, content: ContentView::Directory },
        file_at(dir, "assignment-data.json"@, ContentView::Metadata(folder_data(title, titles, inline, text))),
    ] + if text.len() == 0 {
        Seq::empty()
    } else {
        seq![file_at(dir, "assignment_description.md"@, ContentView::Text(text))]
    }
}

/// The entries of the first `n` children of `node`, under `dir`.
pub open spec fn plan_children(dir: Seq<Seq<char>>, node: WeblabAssignment, n: nat) -> Seq<EntryView>
    decreases node, 0nat, n,
{
    match node {
        WeblabAssignment::Folder(f) => if n == 0 || n > f.assignments.len() {
            Seq::empty()
        } else {
            plan_children(dir, node, (n - 1) as nat) + plan_node(dir, f.assignments[n - 1])
        },
        WeblabAssignment::InlineQuestionList(l) => if n == 0 || n > l.assignments.len() {
            Seq::empty()
        } else {
            plan_children(dir, node, (n - 1) as nat) + plan_node(dir, l.assignments[n - 1])
        },
        _ => Seq::empty(),
    }
}

fn copy_path(p: &Vec<String>) -> (r: Vec<String>)
    ensures
        path_view(r@) == path_view(p@),
{
    let mut r: Vec<String> = Vec::new();
    let mut i: usize = 0;
    while i < p.len()
        invariant
            i <= p@.len(),
            r@.len() == i,
            forall|k: int| 0 <= k < i ==> r@[k]@ == p@[k]@,
        decreases p@.len() - i,
    {
        r.push(p[i].clone());
        i = i + 1;
    }
    assert(path_view(r@) =~= path_view(p@));
    r
}

fn push_entry(out: &mut Vec<PlannedEntry>, dir: &Vec<String>, name: &str, content: EntryContent)
    ensures
        entries_view(final(out)@) == entries_view(old(out)@).push(
            file_at(path_view(dir@), name@, content@),
        ),
{
    let mut path = copy_path(dir);
    let ghost before = path@;
    path.push(name.to_owned());
    assert(path_view(path@) =~= path_view(before).push(name@));
    out.push(PlannedEntry { path, content });
    assert(entries_view(final(out)@) =~= entries_view(old(out)@).push(
        file_at(path_view(dir@), name@, content@),
    ));
}

fn push_dir(out: &mut Vec<PlannedEntry>, dir: &Vec<String>)
    ensures
        entries_view(final(out)@) == entries_view(old(out)@).push(
            EntryView { path: path_view(dir@), content: ContentView::Directory },
        ),
{
    let path = copy_path(dir);
    out.push(PlannedEntry { path, content: EntryContent::Directory });
    assert(entries_view(final(out)@) =~= entries_view(old(out)@).push(
        EntryView { path: path_view(dir@), content: ContentView::Directory },
    ));
}

fn titles_of(s: &Vec<WeblabAssignment>) -> (r: Vec<String>)
    ensures
        r@.map_values(|p: String| p@) == child_titles(s@),
{
    let mut r: Vec<String> = Vec::new();
    let mut i: usize = 0;
    while i < s.len()
        invariant
            i <= s@.len(),
            r@.len() == i,
            forall|k: int| 0 <= k < i ==> r@[k]@ == s@[k].spec_title(),
        decreases s@.len() - i,
    {
        r.push(s[i].title().to_owned());
        i = i + 1;
    }
    assert(r@.map_values(|p: String| p@) =~= child_titles(s@));
    r
}

fn plan_folder(
    dir: &Vec<String>,
    title: &String,
    text: &String,
    children: &Vec<WeblabAssignment>,
    inline: bool,
    out: &mut Vec<PlannedEntry>,
)
    ensures
        entries_view(final(out)@) == entries_view(old(out)@) + folder_head(
            path_view(dir@),
            title@,
            child_titles(children@),
            inline,
            text@,
        ),
{
    let ghost start = entries_view(out@);
    push_dir(out, dir);
    let titles = titles_of(children);
    let data = AssignmentData::new_folder(title.as_str(), &titles, inline, text.as_str());
    push_entry(out, dir, "assignment-data.json", EntryContent::Metadata(data));
    if !text.as_str().is_empty() {
        push_entry(out, dir, "assignment_description.md", EntryContent::Text(text.clone()));
    }
    assert(entries_view(out@) =~= start + folder_head(
        path_view(dir@),
        title@,
        child_titles(children@),
        inline,
        text@,
    ));
}

/// Appends the entries that export `node` under `prefix`.
fn plan_into(prefix: &Vec<String>, node: &WeblabAssignment, out: &mut Vec<PlannedEntry>)
    ensures
        entries_view(final(out)@) == entries_view(old(out)@) + plan_node(path_view(prefix@), *node),
    decreases node, 1nat,
{
    let ghost start = entries_view(out@);
    let mut dir = copy_path(prefix);
    dir.push(sanitize_title(node.title()));
    assert(path_view(dir@) =~= node_dir(path_view(prefix@), *node));
    match node {
        WeblabAssignment::Programming(p) => {
            push_dir(out, &dir);
            let library = match &p.library {
                Some(l) => l.clone(),
                None => String::new(),
            };
            push_entry(out, &dir, "library.rs", EntryContent::Code(library));
            push_entry(out, &dir, "solution.rs", EntryContent::Code(p.solution.clone()));
            push_entry(
                out,
                &dir,
                "solution_template.rs",
                EntryContent::Code(p.solution_template.clone()),
            );
            push_entry(out, &dir, "test.rs", EntryContent::Code(p.test.clone()));
            push_entry(out, &dir, "test_template.rs", EntryContent::Code(p.test_template.clone()));
            push_entry(out, &dir, "question.md", EntryContent::Text(p.assignment_text.clone()));
            // an assignment without a library never shows one
            let library_visible = p.library_visible && p.library.is_some();
            let data = AssignmentData::new_programming(p.title.as_str(), library_visible, false, false);
            push_entry(out, &dir, "assignment-data.json", EntryContent::Metadata(data));
            assert(entries_view(out@) =~= start + plan_node(path_view(prefix@), *node));
        },
        WeblabAssignment::Open(o) => {
            push_dir(out, &dir);
            push_entry(out, &dir, "answer.md", EntryContent::Text(o.expected_answer.clone()));
            push_entry(out, &dir, "question.md", EntryContent::Text(o.assignment_text.clone()));
            let data = AssignmentData::new_open(o.title.as_str());
            push_entry(out, &dir, "assignment-data.json", EntryContent::Metadata(data));
            assert(entries_view(out@) =~= start + plan_node(path_view(prefix@), *node));
        },
        WeblabAssignment::MultipleChoice(m) => {
            push_dir(out, &dir);
            push_entry(out, &dir, "question.md", EntryContent::Text(m.assignment_text.clone()));
            let data = AssignmentData::new_mc(m.title.as_str(), "", m.randomize, m.style, &m.options);
            proof {
                reveal_strlit("");
                assert(""@ =~= Seq::<char>::empty());
            }
            push_entry(out, &dir, "assignment-data.json", EntryContent::Metadata(data));
            assert(entries_view(out@) =~= start + plan_node(path_view(prefix@), *node));
        },
        WeblabAssignment::Folder(f) => {
            plan_folder(&dir, &f.title, &f.assignment_text, &f.assignments, false, out);
            plan_children_into(&dir, node, out);
            assert(entries_view(out@) =~= start + plan_node(path_view(prefix@), *node));
        },
        WeblabAssignment::InlineQuestionList(l) => {
            plan_folder(&dir, &l.title, &l.assignment_text, &l.assignments, true, out);
            plan_children_into(&dir, node, out);
            assert(entries_view(out@) =~= start + plan_node(path_view(prefix@), *node));
        },
    }
}

/// Appends the entries of the children of a folder `node` under `dir`.
fn plan_children_into(dir: &Vec<String>, node: &WeblabAssignment, out: &mut Vec<PlannedEntry>)
    ensures
        entries_view(final(out)@) == entries_view(old(out)@) + plan_children(
            path_view(dir@),
            *node,
            node.spec_children().len() as nat,
        ),
    decreases node, 0nat,
{
    let ghost start = entries_view(out@);
    let children = match node {
        WeblabAssignment::Folder(f) => &f.assignments,
        WeblabAssignment::InlineQuestionList(l) => &l.assignments,
        _ => {
            assert(entries_view(out@) =~= start + Seq::<EntryView>::empty());
            return;
        },
    };
    let mut i: usize = 0;
    while i < children.len()
        invariant
            i <= children@.len(),
            children@ == node.spec_children(),
            node is Folder || node is InlineQuestionList,
            entries_view(out@) == start + plan_children(path_view(dir@), *node, i as nat),
        decreases children@.len() - i,
    {
        plan_into(dir, &children[i], out);
        i = i + 1;
        assert(entries_view(out@) =~= start + plan_children(path_view(dir@), *node, i as nat));
    }
}

/// The whole export of a tree, relative to the destination: validated first,
/// so that nothing is planned for a tree with ambiguous titles.
pub fn plan_export(assignment: &WeblabAssignment) -> (r: Result<Vec<PlannedEntry>, TreeError>)
    ensures
        r is Ok <==> tree_valid(*assignment),
        r matches Ok(v) ==> entries_view(v@) == plan_node(Seq::empty(), *assignment),
        r matches Err(TreeError::DuplicateTitle { folder, title }) ==> names_duplicate(
            *assignment,
            folder@,
            title@,
        ),
{
    match check_assignment_tree(assignment) {
        Err(e) => Err(e),
        Ok(()) => {
            let mut out: Vec<PlannedEntry> = Vec::new();
            let root: Vec<String> = Vec::new();
            assert(path_view(root@) =~= Seq::<Seq<char>>::empty());
            plan_into(&root, assignment, &mut out);
            assert(entries_view(out@) =~= plan_node(Seq::empty(), *assignment));
            Ok(out)
        },
    }
}

/// Entries moved under `prefix`.
pub open spec fn relocate(prefix: Seq<Seq<char>>, s: Seq<EntryView>) -> Seq<EntryView> {
    s.map_values(|e: EntryView| EntryView { path: prefix + e.path, content: e.content })
}

proof fn lemma_relocate_concat(a: Seq<Seq<char>>, s: Seq<EntryView>, t: Seq<EntryView>)
    ensures
        relocate(a, s + t) == relocate(a, s) + relocate(a, t),
{
    assert(relocate(a, s + t) =~= relocate(a, s) + relocate(a, t));
}

proof fn lemma_plan_node_shift(a: Seq<Seq<char>>, b: Seq<Seq<char>>, node: WeblabAssignment)
    ensures
        plan_node(a + b, node) == relocate(a, plan_node(b, node)),
    decreases node, 1nat,
{
    let s = sanitized(node.spec_title());
    assert(node_dir(a + b, node) =~= a + node_dir(b, node));
    let d = node_dir(b, node);
    assert forall|name: Seq<char>| #[trigger] (a + d).push(name) == a + d.push(name) by {
        assert((a + d).push(name) =~= a + d.push(name));
    }
    match node {
        WeblabAssignment::Folder(f) => {
            lemma_plan_children_shift(a, d, node, f.assignments.len() as nat);
            let head = folder_head(d, f.title@, child_titles(f.assignments@), false, f.assignment_text@);
            lemma_relocate_concat(a, head, plan_children(d, node, f.assignments.len() as nat));
            assert(folder_head(a + d, f.title@, child_titles(f.assignments@), false, f.assignment_text@)
                =~= relocate(a, head));
        },
        WeblabAssignment::InlineQuestionList(l) => {
            lemma_plan_children_shift(a, d, node, l.assignments.len() as nat);
            let head = folder_head(d, l.title@, child_titles(l.assignments@), true, l.assignment_text@);
            lemma_relocate_concat(a, head, plan_children(d, node, l.assignments.len() as nat));
            assert(folder_head(a + d, l.title@, child_titles(l.assignments@), true, l.assignment_text@)
                =~= relocate(a, head));
        },
        _ => {
            assert(plan_node(a + b, node) =~= relocate(a, plan_node(b, node)));
        },
    }
}

proof fn lemma_plan_children_shift(
    a: Seq<Seq<char>>,
    d: Seq<Seq<char>>,
    node: WeblabAssignment,
    n: nat,
)
    ensures
        plan_children(a + d, node, n) == relocate(a, plan_children(d, node, n)),
    decreases node, 0nat, n,
{
    match node {
        WeblabAssignment::Folder(f) => {
            if n == 0 || n > f.assignments.len() {
                assert(relocate(a, Seq::<EntryView>::empty()) =~= Seq::<EntryView>::empty());
            } else {
                lemma_plan_children_shift(a, d, node, (n - 1) as nat);
                lemma_plan_node_shift(a, d, f.assignments[n - 1]);
                lemma_relocate_concat(
                    a,
                    plan_children(d, node, (n - 1) as nat),
                    plan_node(d, f.assignments[n - 1]),
                );
            }
        },
        WeblabAssignment::InlineQuestionList(l) => {
            if n == 0 || n > l.assignments.len() {
                assert(relocate(a, Seq::<EntryView>::empty()) =~= Seq::<EntryView>::empty());
            } else {
                lemma_plan_children_shift(a, d, node, (n - 1) as nat);
                lemma_plan_node_shift(a, d, l.assignments[n - 1]);
                lemma_relocate_concat(
                    a,
                    plan_children(d, node, (n - 1) as nat),
                    plan_node(d, l.assignments[n - 1]),
                );
            }
        },
        _ => {
            assert(relocate(a, Seq::<EntryView>::empty()) =~= Seq::<EntryView>::empty());
        },
    }
}

/// Exporting one tree to two destinations writes the same files with the same
/// contents, metadata documents included; the paths differ only by the
/// destination in front of them.
pub proof fn lemma_export_same_at_any_destination(
    d1: Seq<Seq<char>>,
    d2: Seq<Seq<char>>,
    tree: WeblabAssignment,
)
    ensures
        plan_node(d1, tree).len() == plan_node(d2, tree).len(),
        forall|k: int|
            0 <= k < plan_node(d1, tree).len() ==> {
                &&& #[trigger] plan_node(d1, tree)[k].content == plan_node(d2, tree)[k].content
                &&& plan_node(d1, tree)[k].path == d1 + plan_node(Seq::empty(), tree)[k].path
                &&& plan_node(d2, tree)[k].path == d2 + plan_node(Seq::empty(), tree)[k].path
            },
{
    lemma_plan_node_shift(d1, Seq::empty(), tree);
    lemma_plan_node_shift(d2, Seq::empty(), tree);
    assert(d1 + Seq::<Seq<char>>::empty() == d1);
    assert(d2 + Seq::<Seq<char>>::empty() == d2);
}

} // verus!
