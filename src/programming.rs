//! Assembling a programming assignment from the two views of its definition.
use vstd::prelude::*;
use crate::attr::{Attr, Marker, all_raw_attrs, attrs_of_all, markers_attrs, parse_attr_stream};
use crate::split::{FindAnnotated, Item, ItemKind, SplitError, Status, opt_view, split_spec};
use crate::structure::ProgrammingAssignment;

verus! {

/// The characters with the Unicode `White_Space` property.
pub open spec fn is_white_space(c: char) -> bool {
    ('\u{9}' <= c && c <= '\u{d}') || c == ' ' || c == '\u{85}' || c == '\u{a0}' || c
        == '\u{1680}' || ('\u{2000}' <= c && c <= '\u{200a}') || c == '\u{2028}' || c
        == '\u{2029}' || c == '\u{202f}' || c == '\u{205f}' || c == '\u{3000}'
}

/// A text without its leading white space.
pub open spec fn start_trimmed(s: Seq<char>) -> Seq<char>
    decreases s.len(),
{
    if s.len() > 0 && is_white_space(s[0]) {
        start_trimmed(s.skip(1))
    } else {
        s
    }
}

fn white_space(c: char) -> (r: bool)
    ensures
        r == is_white_space(c),
{
    ('\u{9}' <= c && c <= '\u{d}') || c == ' ' || c == '\u{85}' || c == '\u{a0}' || c
        == '\u{1680}' || ('\u{2000}' <= c && c <= '\u{200a}') || c == '\u{2028}' || c
        == '\u{2029}' || c == '\u{202f}' || c == '\u{205f}' || c == '\u{3000}'
}

/// A copy of `s` without its leading white space.
pub fn trim_start_of(s: &String) -> (r: String)
    ensures
        r@ == start_trimmed(s@),
{
    let t = s.as_str();
    let n = t.unicode_len();
    let mut i: usize = 0;
    assert(s@.skip(0) =~= s@);
    while i < n && white_space(t.get_char(i))
        invariant
            i <= n,
            n == s@.len(),
            t@ == s@,
            start_trimmed(s@) == start_trimmed(s@.skip(i as int)),
        decreases n - i,
    {
        assert(s@.skip(i as int).skip(1) =~= s@.skip(i as int + 1));
        i = i + 1;
    }
    assert(s@.subrange(i as int, n as int) =~= s@.skip(i as int));
    t.substring_char(i, n).to_owned()
}

pub open spec fn status_value<T>(s: Status<T>) -> Option<T> {
    match s {
        Status::Certain(x) => Some(x),
        Status::Maybe(x) => Some(x),
        Status::Unknown => None,
    }
}

pub open spec fn slot_test<T>(st: FindAnnotated<T>) -> Option<T> {
    match st {
        FindAnnotated::Template { test, .. } => status_value(test),
        FindAnnotated::Reference { test, .. } => test,
    }
}

pub open spec fn slot_solution<T>(st: FindAnnotated<T>) -> Option<T> {
    match st {
        FindAnnotated::Template { solution, .. } => status_value(solution),
        FindAnnotated::Reference { solution, .. } => solution,
    }
}

pub open spec fn slot_library<T>(st: FindAnnotated<T>) -> Option<T> {
    match st {
        FindAnnotated::Template { library, .. } => library,
        FindAnnotated::Reference { .. } => None,
    }
}

pub open spec fn or_empty(o: Option<Seq<char>>) -> Seq<char> {
    match o {
        Some(x) => x,
        None => Seq::empty(),
    }
}

pub open spec fn title_count(attrs: Seq<Attr>) -> nat
    decreases attrs.len(),
{
    if attrs.len() == 0 {
        0
    } else {
        title_count(attrs.drop_last()) + if attrs.last() is Title {
            1nat
        } else {
            0nat
        }
    }
}

/// The payload of the last `Title` in `attrs`.
pub open spec fn last_title(attrs: Seq<Attr>) -> Option<Seq<char>>
    decreases attrs.len(),
{
    if attrs.len() == 0 {
        None
    } else {
        match attrs.last() {
            Attr::Title(t) => Some(t@),
            _ => last_title(attrs.drop_last()),
        }
    }
}

/// The descriptions in `attrs`, each without its leading whitespace.
pub open spec fn doc_lines(attrs: Seq<Attr>) -> Seq<Seq<char>>
    decreases attrs.len(),
{
    if attrs.len() == 0 {
        Seq::empty()
    } else {
        match attrs.last() {
            Attr::Doc(d) => doc_lines(attrs.drop_last()).push(start_trimmed(d@)),
            _ => doc_lines(attrs.drop_last()),
        }
    }
}

/// Lines joined with a newline between each two.
pub open spec fn join_lines(lines: Seq<Seq<char>>) -> Seq<char>
    decreases lines.len(),
{
    if lines.len() == 0 {
        Seq::empty()
    } else if lines.len() == 1 {
        lines[0]
    } else {
        join_lines(lines.drop_last()) + seq!['\n'] + lines.last()
    }
}

pub open spec fn reference_start() -> FindAnnotated<Seq<char>> {
    FindAnnotated::Reference { solution: None, test: None }
}

pub open spec fn template_start() -> FindAnnotated<Seq<char>> {
    FindAnnotated::Template { solution: Status::Unknown, test: Status::Unknown, library: None }
}

/// The checks of a definition, in the order in which they are made: on
/// success, its markers and the two views.
pub open spec fn programming_check(attributes: Seq<Attr>, module: Item) -> Result<
    (Seq<Attr>, FindAnnotated<Seq<char>>, FindAnnotated<Seq<char>>),
    SplitError,
> {
    if !(module.kind is Module) {
        Err(SplitError::NotAnAssignmentRoot)
    } else {
        match all_raw_attrs(module.attrs@) {
            Err(e) => Err(SplitError::Attribute(e)),
            Ok(own) => match split_spec(reference_start(), module) {
                Err(e) => Err(e),
                Ok((rs, _)) => match split_spec(template_start(), module) {
                    Err(e) => Err(e),
                    Ok((ts, _)) => {
                        let attrs = attributes + own;
                        if title_count(attrs) > 1 {
                            Err(SplitError::MultipleTitles)
                        } else if slot_test(rs) is None {
                            Err(SplitError::NoSpectest)
                        } else if slot_solution(rs) is None {
                            Err(SplitError::NoReferenceSolution)
                        } else {
                            Ok((attrs, rs, ts))
                        }
                    },
                },
            },
        }
    }
}

/// What a successful assembly holds.
pub open spec fn assembled_from(
    p: ProgrammingAssignment,
    attrs: Seq<Attr>,
    name: Seq<char>,
    rs: FindAnnotated<Seq<char>>,
    ts: FindAnnotated<Seq<char>>,
) -> bool {
    &&& p.title@ == match last_title(attrs) {
        Some(t) => t,
        None => name,
    }
    &&& p.assignment_text@ == join_lines(doc_lines(attrs))
    &&& !p.library_visible
    &&& !p.spectest_stdout_visible
    &&& Some(p.test@) == slot_test(rs)
    &&& Some(p.solution@) == slot_solution(rs)
    &&& opt_view(p.library) == slot_library(ts)
    &&& p.test_template@ == or_empty(slot_test(ts))
    &&& p.solution_template@ == or_empty(slot_solution(ts))
    &&& p.checklist is None
}

impl FindAnnotated<String> {
    pub fn test(&self) -> (r: Option<String>)
        ensures
            opt_view(r) == slot_test(self@),
    {
        match self {
            FindAnnotated::Template { test, .. } => match test {
                Status::Certain(x) => Some(x.clone()),
                Status::Maybe(x) => Some(x.clone()),
                Status::Unknown => None,
            },
            FindAnnotated::Reference { test, .. } => match test {
                Some(x) => Some(x.clone()),
                None => None,
            },
        }
    }

    pub fn solution(&self) -> (r: Option<String>)
        ensures
            opt_view(r) == slot_solution(self@),
    {
        match self {
            FindAnnotated::Template { solution, .. } => match solution {
                Status::Certain(x) => Some(x.clone()),
                Status::Maybe(x) => Some(x.clone()),
                Status::Unknown => None,
            },
            FindAnnotated::Reference { solution, .. } => match solution {
                Some(x) => Some(x.clone()),
                None => None,
            },
        }
    }

    pub fn library(&self) -> (r: Option<String>)
        ensures
            opt_view(r) == slot_library(self@),
    {
        match self {
            FindAnnotated::Template { library, .. } => match library {
                Some(x) => Some(x.clone()),
                None => None,
            },
            FindAnnotated::Reference { .. } => None,
        }
    }
}

fn text_or_empty(o: Option<String>) -> (r: String)
    ensures
        r@ == or_empty(opt_view(o)),
{
    match o {
        Some(x) => x,
        None => String::new(),
    }
}

/// The number of titles, the last title and the joined descriptions.
fn title_and_text(attrs: &Vec<Attr>) -> (r: (usize, Option<String>, String))
    ensures
        r.0 == title_count(attrs@),
        opt_view(r.1) == last_title(attrs@),
        r.2@ == join_lines(doc_lines(attrs@)),
{
    let mut count: usize = 0;
    let mut title: Option<String> = None;
    let mut text = String::new();
    let mut lines: usize = 0;
    let mut i: usize = 0;
    while i < attrs.len()
        invariant
            i <= attrs@.len(),
            count == title_count(attrs@.subrange(0, i as int)),
            count <= i,
            lines <= i,
            lines == doc_lines(attrs@.subrange(0, i as int)).len(),
            opt_view(title) == last_title(attrs@.subrange(0, i as int)),
            text@ == join_lines(doc_lines(attrs@.subrange(0, i as int))),
        decreases attrs@.len() - i,
    {
        let ghost prefix = attrs@.subrange(0, i as int);
        assert(attrs@.subrange(0, i as int + 1).drop_last() == prefix);
        match &attrs[i] {
            Attr::Title(t) => {
                count = count + 1;
                title = Some(t.clone());
            },
            Attr::Doc(d) => {
                let line = trim_start_of(d);
                let ghost before = text@;
                proof {
                    reveal_strlit("\n");
                }
                if lines > 0 {
                    text.append("\n");
                }
                text.append(line.as_str());
                lines = lines + 1;
                proof {
                    let ls = doc_lines(prefix);
                    let next = ls.push(start_trimmed(d@));
                    assert(next.drop_last() == ls);
                    assert(next.last() == line@);
                    if ls.len() == 0 {
                        assert(next[0] == line@);
                        assert(text@ == line@);
                    } else {
                        assert("\n"@ == seq!['\n']);
                        assert(text@ == before + seq!['\n'] + line@);
                    }
                }
            },
            _ => {},
        }
        i = i + 1;
    }
    assert(attrs@.subrange(0, attrs@.len() as int) == attrs@);
    (count, title, text)
}

/// Builds a programming assignment from its definition module and the
/// markers given before it; fails at the first violation.
pub fn process_programming_assignment(attributes: &Vec<Attr>, module: &Item) -> (r: Result<
    ProgrammingAssignment,
    SplitError,
>)
    ensures
        match programming_check(attributes@, *module) {
            Err(e) => r == Err::<ProgrammingAssignment, SplitError>(e),
            Ok((attrs, rs, ts)) => r is Ok && assembled_from(
                r->Ok_0,
                attrs,
                module.kind->Module_name@,
                rs,
                ts,
            ),
        },
{
    let name = match &module.kind {
        ItemKind::Module { name } => name,
        _ => {
            return Err(SplitError::NotAnAssignmentRoot);
        },
    };
    let own = match attrs_of_all(&module.attrs) {
        Ok(a) => a,
        Err(e) => {
            return Err(SplitError::Attribute(e));
        },
    };
    let mut reference = FindAnnotated::reference();
    match reference.fold_children(module) {
        Ok(_) => {},
        Err(e) => {
            return Err(e);
        },
    }
    let mut template = FindAnnotated::template();
    match template.fold_children(module) {
        Ok(_) => {},
        Err(e) => {
            return Err(e);
        },
    }
    let mut attrs: Vec<Attr> = Vec::new();
    let mut i: usize = 0;
    while i < attributes.len()
        invariant
            i <= attributes@.len(),
            attrs@ == attributes@.subrange(0, i as int),
        decreases attributes@.len() - i,
    {
        attrs.push(attributes[i].copy());
        i = i + 1;
    }
    let mut own = own;
    let ghost own_view = own@;
    attrs.append(&mut own);
    assert(attributes@.subrange(0, attributes@.len() as int) == attributes@);
    assert(attrs@ == attributes@ + own_view);
    let (count, title, text) = title_and_text(&attrs);
    if count > 1 {
        return Err(SplitError::MultipleTitles);
    }
    let test = match reference.test() {
        Some(t) => t,
        None => {
            return Err(SplitError::NoSpectest);
        },
    };
    let solution = match reference.solution() {
        Some(s) => s,
        None => {
            return Err(SplitError::NoReferenceSolution);
        },
    };
    let title = match title {
        Some(t) => t,
        None => name.clone(),
    };
    Ok(
        ProgrammingAssignment {
            title,
            assignment_text: text,
            library_visible: false,
            spectest_stdout_visible: false,
            test,
            solution,
            library: template.library(),
            test_template: text_or_empty(template.test()),
            solution_template: text_or_empty(template.solution()),
            checklist: None,
        },
    )
}

/// The entry point of a definition: `markers` are those of the root marker
/// line, which must start with `programming_assignment`.
pub fn weblab(markers: &Vec<Marker>, module: &Item) -> (r: Result<
    ProgrammingAssignment,
    SplitError,
>)
    ensures
        match markers_attrs(markers@) {
            Err(e) => r == Err::<ProgrammingAssignment, SplitError>(SplitError::Attribute(e)),
            Ok(attrs) => if attrs.len() == 0 || attrs[0] != Attr::ProgrammingAssignment {
                r == Err::<ProgrammingAssignment, SplitError>(SplitError::NotAnAssignmentRoot)
            } else {
                match programming_check(attrs.drop_first(), *module) {
                    Err(e) => r == Err::<ProgrammingAssignment, SplitError>(e),
                    Ok((all, rs, ts)) => r is Ok && assembled_from(
                        r->Ok_0,
                        all,
                        module.kind->Module_name@,
                        rs,
                        ts,
                    ),
                }
            },
        },
{
    let mut attrs = match parse_attr_stream(markers) {
        Ok(a) => a,
        Err(e) => {
            return Err(SplitError::Attribute(e));
        },
    };
    if attrs.len() == 0 {
        return Err(SplitError::NotAnAssignmentRoot);
    }
    let first = attrs.remove(0);
    match first {
        Attr::ProgrammingAssignment => {},
        _ => {
            return Err(SplitError::NotAnAssignmentRoot);
        },
    }
    process_programming_assignment(&attrs, module)
}

} // verus!
