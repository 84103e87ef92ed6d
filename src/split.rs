//! Splitting one authored tree into the reference view and the template view.
use vstd::prelude::*;
use crate::attr::{Attr, RawAttribute, Span, ToAttrError, all_raw_attrs, attrs_of_all, is_weblab_attribute, text_is};
use crate::imports::{ImportError, UseTree, drop_verdict, should_drop};

verus! {

broadcast use vstd::std_specs::vec::group_vec_axioms;

/// A content block that appears in one view only.
#[derive(Clone, Copy, Debug, PartialEq, Eq, Structural)]
pub enum Conditional {
    TemplateOnly,
    SolutionOnly,
}

pub enum ItemKind {
    /// A module with a body; the body is the item's children.
    Module { name: String },
    /// An import.
    Use { tree: UseTree },
    /// A conditional block; its content is the item's children.
    Conditional { which: Conditional, braced: bool },
    /// Any other code; nested items are its children, between `head` and `tail`.
    Code,
}

/// A node of the authored tree.
pub struct Item {
    pub kind: ItemKind,
    pub attrs: Vec<RawAttribute>,
    pub head: String,
    pub children: Vec<Item>,
    pub tail: String,
    pub span: Span,
}

/// The promotion lattice of one slot: nothing seen, a base block seen, or a
/// template block seen.
#[derive(Clone, Debug, PartialEq, Eq)]
pub enum Status<T> {
    Certain(T),
    Maybe(T),
    Unknown,
}

/// What a traversal has found so far, in one of the two views.
#[derive(Clone, Debug, PartialEq, Eq)]
pub enum FindAnnotated<T> {
    Template { solution: Status<T>, test: Status<T>, library: Option<T> },
    Reference { solution: Option<T>, test: Option<T> },
}

/// Why a definition could not be split.
#[derive(Clone, Debug, PartialEq, Eq)]
pub enum SplitError {
    Attribute(ToAttrError),
    Import(ImportError, Span),
    UnbracedConditional(Conditional, Span),
    MultipleSolutionTemplates(Span),
    MultipleTestTemplates(Span),
    MultipleLibraries(Span),
    MultipleReferenceSolutions(Span),
    MultipleSpecTests(Span),
    NoSpectest,
    NoReferenceSolution,
    MultipleTitles,
    NotAnAssignmentRoot,
}

impl<T: View> View for Status<T> {
    type V = Status<T::V>;

    open spec fn view(&self) -> Status<T::V> {
        match self {
            Status::Certain(x) => Status::Certain(x.view()),
            Status::Maybe(x) => Status::Maybe(x.view()),
            Status::Unknown => Status::Unknown,
        }
    }
}

pub open spec fn opt_view<T: View>(o: Option<T>) -> Option<T::V> {
    match o {
        Some(x) => Some(x.view()),
        None => None,
    }
}

impl<T: View> View for FindAnnotated<T> {
    type V = FindAnnotated<T::V>;

    open spec fn view(&self) -> FindAnnotated<T::V> {
        match self {
            FindAnnotated::Template { solution, test, library } => FindAnnotated::Template {
                solution: solution.view(),
                test: test.view(),
                library: opt_view(*library),
            },
            FindAnnotated::Reference { solution, test } => FindAnnotated::Reference {
                solution: opt_view(*solution),
                test: opt_view(*test),
            },
        }
    }
}

pub open spec fn has_attr(attrs: Seq<Attr>, a: Attr) -> bool {
    exists|i: int| 0 <= i < attrs.len() && attrs[i] == a
}

/// One module with markers `attrs` and content `content` seen in state `st`.
pub open spec fn observe_spec<T>(st: FindAnnotated<T>, attrs: Seq<Attr>, content: T, span: Span) -> Result<
    FindAnnotated<T>,
    SplitError,
> {
    match st {
        FindAnnotated::Template { solution, test, library } => {
            if has_attr(attrs, Attr::SolutionTemplate) {
                if solution is Certain {
                    Err(SplitError::MultipleSolutionTemplates(span))
                } else {
                    Ok(FindAnnotated::Template { solution: Status::Certain(content), test, library })
                }
            } else if has_attr(attrs, Attr::Solution) {
                if solution is Unknown {
                    Ok(FindAnnotated::Template { solution: Status::Maybe(content), test, library })
                } else {
                    Err(SplitError::MultipleSolutionTemplates(span))
                }
            } else if has_attr(attrs, Attr::TestTemplate) {
                if test is Certain {
                    Err(SplitError::MultipleTestTemplates(span))
                } else {
                    Ok(FindAnnotated::Template { solution, test: Status::Certain(content), library })
                }
            } else if has_attr(attrs, Attr::Test) {
                if test is Unknown {
                    Ok(FindAnnotated::Template { solution, test: Status::Maybe(content), library })
                } else {
                    Err(SplitError::MultipleTestTemplates(span))
                }
            } else if has_attr(attrs, Attr::Library) {
                if library is None {
                    Ok(FindAnnotated::Template { solution, test, library: Some(content) })
                } else {
                    Err(SplitError::MultipleLibraries(span))
                }
            } else {
                Ok(st)
            }
        },
        FindAnnotated::Reference { solution, test } => {
            if has_attr(attrs, Attr::Solution) {
                if solution is None {
                    Ok(FindAnnotated::Reference { solution: Some(content), test })
                } else {
                    Err(SplitError::MultipleReferenceSolutions(span))
                }
            } else if has_attr(attrs, Attr::Test) {
                if test is None {
                    Ok(FindAnnotated::Reference { solution, test: Some(content) })
                } else {
                    Err(SplitError::MultipleSpecTests(span))
                }
            } else {
                Ok(st)
            }
        },
    }
}

/// `b` is a later state of the same traversal as `a`: the same view, and
/// every slot that `a` had settled still holds the same block (a `Maybe` slot
/// may still be promoted to `Certain`, but never emptied).
pub open spec fn slots_kept<T>(a: FindAnnotated<T>, b: FindAnnotated<T>) -> bool {
    match (a, b) {
        (
            FindAnnotated::Reference { solution: s1, test: t1 },
            FindAnnotated::Reference { solution: s2, test: t2 },
        ) => (s1 is Some ==> s2 == s1) && (t1 is Some ==> t2 == t1),
        (
            FindAnnotated::Template { solution: s1, test: t1, library: l1 },
            FindAnnotated::Template { solution: s2, test: t2, library: l2 },
        ) => {
            &&& (s1 is Certain ==> s2 == s1)
            &&& (s1 is Maybe ==> !(s2 is Unknown))
            &&& (t1 is Certain ==> t2 == t1)
            &&& (t1 is Maybe ==> !(t2 is Unknown))
            &&& (l1 is Some ==> l2 == l1)
        },
        _ => false,
    }
}

/// The source text of the attribute lines that stay in emitted code.
pub open spec fn kept_attr_text(s: Seq<RawAttribute>) -> Seq<char>
    decreases s.len(),
{
    if s.len() == 0 {
        Seq::empty()
    } else {
        kept_attr_text(s.drop_last()) + if is_weblab_attribute(s.last()) {
            Seq::<char>::empty()
        } else {
            s.last().text@
        }
    }
}

/// Whether a conditional block's content belongs to the view being built.
pub open spec fn conditional_kept<T>(st: FindAnnotated<T>, which: Conditional) -> bool {
    match which {
        Conditional::TemplateOnly => st is Template,
        Conditional::SolutionOnly => st is Reference,
    }
}

/// One item folded in state `st`: the new state and the item's text in the
/// view, or the first violation met.
pub open spec fn fold_item_spec(st: FindAnnotated<Seq<char>>, it: Item) -> Result<
    (FindAnnotated<Seq<char>>, Seq<char>),
    SplitError,
>
    decreases it, 1nat, 0nat,
{
    match all_raw_attrs(it.attrs@) {
        Err(e) => Err(SplitError::Attribute(e)),
        Ok(attrs) => match it.kind {
            ItemKind::Conditional { which, braced } => {
                if !braced {
                    Err(SplitError::UnbracedConditional(which, it.span))
                } else if !conditional_kept(st, which) {
                    Ok((st, Seq::empty()))
                } else {
                    fold_children_spec(st, it, it.children.len() as nat)
                }
            },
            ItemKind::Use { tree } => match drop_verdict(tree) {
                Err(e) => Err(SplitError::Import(e, it.span)),
                Ok(true) => Ok((st, Seq::empty())),
                Ok(false) => match fold_children_spec(st, it, it.children.len() as nat) {
                    Err(e) => Err(e),
                    Ok((st1, inner)) => Ok(
                        (st1, kept_attr_text(it.attrs@) + it.head@ + inner + it.tail@),
                    ),
                },
            },
            ItemKind::Module { name: _ } => match fold_children_spec(
                st,
                it,
                it.children.len() as nat,
            ) {
                Err(e) => Err(e),
                Ok((st1, inner)) => match observe_spec(st1, attrs, inner, it.span) {
                    Err(e) => Err(e),
                    Ok(st2) => Ok((st2, kept_attr_text(it.attrs@) + it.head@ + inner + it.tail@)),
                },
            },
            ItemKind::Code => match fold_children_spec(st, it, it.children.len() as nat) {
                Err(e) => Err(e),
                Ok((st1, inner)) => Ok(
                    (st1, kept_attr_text(it.attrs@) + it.head@ + inner + it.tail@),
                ),
            },
        },
    }
}

/// The first `n` children of `it` folded in order from state `st`.
pub open spec fn fold_children_spec(st: FindAnnotated<Seq<char>>, it: Item, n: nat) -> Result<
    (FindAnnotated<Seq<char>>, Seq<char>),
    SplitError,
>
    decreases it, 0nat, n,
{
    if n == 0 || n > it.children.len() {
        Ok((st, Seq::empty()))
    } else {
        match fold_children_spec(st, it, (n - 1) as nat) {
            Err(e) => Err(e),
            Ok((st1, text)) => match fold_item_spec(st1, it.children[n - 1]) {
                Err(e) => Err(e),
                Ok((st2, more)) => Ok((st2, text + more)),
            },
        }
    }
}

/// The body of `root` folded in one view.
pub open spec fn split_spec(st: FindAnnotated<Seq<char>>, root: Item) -> Result<
    (FindAnnotated<Seq<char>>, Seq<char>),
    SplitError,
> {
    fold_children_spec(st, root, root.children.len() as nat)
}

fn is_flag(a: &Attr, flag: &Attr) -> (r: bool)
    requires
        !(flag is Title),
        !(flag is Doc),
    ensures
        r == (*a == *flag),
{
    match (a, flag) {
        (Attr::ProgrammingAssignment, Attr::ProgrammingAssignment) => true,
        (Attr::Solution, Attr::Solution) => true,
        (Attr::SolutionTemplate, Attr::SolutionTemplate) => true,
        (Attr::Test, Attr::Test) => true,
        (Attr::TestTemplate, Attr::TestTemplate) => true,
        (Attr::Library, Attr::Library) => true,
        (Attr::Main, Attr::Main) => true,
        _ => false,
    }
}

/// Whether `attrs` holds the flag attribute `flag`.
pub fn contains_flag(attrs: &Vec<Attr>, flag: &Attr) -> (r: bool)
    requires
        !(flag is Title),
        !(flag is Doc),
    ensures
        r == has_attr(attrs@, *flag),
{
    let mut i: usize = 0;
    while i < attrs.len()
        invariant
            i <= attrs@.len(),
            !(flag is Title),
            !(flag is Doc),
            forall|j: int| 0 <= j < i ==> attrs@[j] != *flag,
        decreases attrs@.len() - i,
    {
        if is_flag(&attrs[i], flag) {
            return true;
        }
        i = i + 1;
    }
    false
}

impl FindAnnotated<String> {
    /// The state in which a reference view starts.
    pub fn reference() -> (r: Self)
        ensures
            r@ == (FindAnnotated::<Seq<char>>::Reference { solution: None, test: None }),
    {
        FindAnnotated::Reference { solution: None, test: None }
    }

    /// The state in which a template view starts.
    pub fn template() -> (r: Self)
        ensures
            r@ == (FindAnnotated::<Seq<char>>::Template {
                solution: Status::Unknown,
                test: Status::Unknown,
                library: None,
            }),
    {
        FindAnnotated::Template { solution: Status::Unknown, test: Status::Unknown, library: None }
    }

    pub fn is_reference(&self) -> (r: bool)
        ensures
            r == (self is Reference),
    {
        match self {
            FindAnnotated::Template { .. } => false,
            FindAnnotated::Reference { .. } => true,
        }
    }

    pub fn is_template(&self) -> (r: bool)
        ensures
            r == (self is Template),
    {
        !self.is_reference()
    }

    /// Records a module with markers `attrs` and content `content`.
    pub fn observe(&mut self, attrs: &Vec<Attr>, content: String, span: Span) -> (r: Result<
        (),
        SplitError,
    >)
        ensures
            match observe_spec(old(self)@, attrs@, content@, span) {
                Ok(st) => r is Ok && final(self)@ == st,
                Err(e) => r == Err::<(), SplitError>(e) && final(self)@ == old(self)@,
            },
            slots_kept(old(self)@, final(self)@),
    {
        let is_ref = self.is_reference();
        if is_ref {
            let has_solution = contains_flag(attrs, &Attr::Solution);
            let has_test = contains_flag(attrs, &Attr::Test);
            match self {
                FindAnnotated::Reference { solution, test } => {
                    if has_solution {
                        if solution.is_none() {
                            *solution = Some(content);
                            Ok(())
                        } else {
                            Err(SplitError::MultipleReferenceSolutions(span))
                        }
                    } else if has_test {
                        if test.is_none() {
                            *test = Some(content);
                            Ok(())
                        } else {
                            Err(SplitError::MultipleSpecTests(span))
                        }
                    } else {
                        Ok(())
                    }
                },
                FindAnnotated::Template { .. } => Ok(()),
            }
        } else {
            let has_solution_template = contains_flag(attrs, &Attr::SolutionTemplate);
            let has_solution = contains_flag(attrs, &Attr::Solution);
            let has_test_template = contains_flag(attrs, &Attr::TestTemplate);
            let has_test = contains_flag(attrs, &Attr::Test);
            let has_library = contains_flag(attrs, &Attr::Library);
            match self {
                FindAnnotated::Template { solution, test, library } => {
                    if has_solution_template {
                        if solution.is_certain() {
                            Err(SplitError::MultipleSolutionTemplates(span))
                        } else {
                            *solution = Status::Certain(content);
                            Ok(())
                        }
                    } else if has_solution {
                        if solution.is_unknown() {
                            *solution = Status::Maybe(content);
                            Ok(())
                        } else {
                            Err(SplitError::MultipleSolutionTemplates(span))
                        }
                    } else if has_test_template {
                        if test.is_certain() {
                            Err(SplitError::MultipleTestTemplates(span))
                        } else {
                            *test = Status::Certain(content);
                            Ok(())
                        }
                    } else if has_test {
                        if test.is_unknown() {
                            *test = Status::Maybe(content);
                            Ok(())
                        } else {
                            Err(SplitError::MultipleTestTemplates(span))
                        }
                    } else if has_library {
                        if library.is_none() {
                            *library = Some(content);
                            Ok(())
                        } else {
                            Err(SplitError::MultipleLibraries(span))
                        }
                    } else {
                        Ok(())
                    }
                },
                FindAnnotated::Reference { .. } => Ok(()),
            }
        }
    }
}

impl<T> Status<T> {
    pub fn is_certain(&self) -> (r: bool)
        ensures
            r == (self is Certain),
    {
        match self {
            Status::Certain(_) => true,
            _ => false,
        }
    }

    pub fn is_unknown(&self) -> (r: bool)
        ensures
            r == (self is Unknown),
    {
        match self {
            Status::Unknown => true,
            _ => false,
        }
    }
}

/// The source text of the attribute lines that stay in emitted code.
fn kept_attrs(attrs: &Vec<RawAttribute>) -> (r: String)
    ensures
        r@ == kept_attr_text(attrs@),
{
    let mut out = String::new();
    let mut i: usize = 0;
    while i < attrs.len()
        invariant
            i <= attrs@.len(),
            out@ == kept_attr_text(attrs@.subrange(0, i as int)),
        decreases attrs@.len() - i,
    {
        assert(attrs@.subrange(0, i as int + 1).drop_last() == attrs@.subrange(0, i as int));
        if !text_is(&attrs[i].path, "weblab") {
            out.append(attrs[i].text.as_str());
        }
        i = i + 1;
    }
    assert(attrs@.subrange(0, attrs@.len() as int) == attrs@);
    out
}

/// An item's text in a view, around the text of its folded children.
fn render(it: &Item, inner: &String) -> (r: String)
    ensures
        r@ == kept_attr_text(it.attrs@) + it.head@ + inner@ + it.tail@,
{
    let mut out = kept_attrs(&it.attrs);
    out.append(it.head.as_str());
    out.append(inner.as_str());
    out.append(it.tail.as_str());
    out
}

/// The state in which folding `it` from `st` ends: the new state on success,
/// and on a violation the state just before it, as a conflicting block
/// leaves the slots as they were.
pub open spec fn fold_item_stop(st: FindAnnotated<Seq<char>>, it: Item) -> FindAnnotated<Seq<char>>
    decreases it, 1nat, 0nat,
{
    match all_raw_attrs(it.attrs@) {
        Err(_) => st,
        Ok(attrs) => match it.kind {
            ItemKind::Conditional { which, braced } => if !braced || !conditional_kept(st, which) {
                st
            } else {
                fold_children_stop(st, it, it.children.len() as nat)
            },
            ItemKind::Use { tree } => match drop_verdict(tree) {
                Ok(false) => fold_children_stop(st, it, it.children.len() as nat),
                _ => st,
            },
            ItemKind::Module { name: _ } => match fold_children_spec(
                st,
                it,
                it.children.len() as nat,
            ) {
                Err(_) => fold_children_stop(st, it, it.children.len() as nat),
                Ok((st1, inner)) => match observe_spec(st1, attrs, inner, it.span) {
                    Err(_) => st1,
                    Ok(st2) => st2,
                },
            },
            ItemKind::Code => fold_children_stop(st, it, it.children.len() as nat),
        },
    }
}

/// The state in which folding the first `n` children of `it` from `st` ends.
pub open spec fn fold_children_stop(st: FindAnnotated<Seq<char>>, it: Item, n: nat) -> FindAnnotated<
    Seq<char>,
>
    decreases it, 0nat, n,
{
    if n == 0 || n > it.children.len() {
        st
    } else {
        match fold_children_spec(st, it, (n - 1) as nat) {
            Err(_) => fold_children_stop(st, it, (n - 1) as nat),
            Ok((st1, _)) => fold_item_stop(st1, it.children[n - 1]),
        }
    }
}

proof fn lemma_fold_item_stop_ok(st: FindAnnotated<Seq<char>>, it: Item)
    ensures
        fold_item_spec(st, it) matches Ok((s2, _)) ==> fold_item_stop(st, it) == s2,
    decreases it, 1nat,
{
    lemma_fold_children_stop_ok(st, it, it.children.len() as nat);
}

proof fn lemma_fold_children_stop_ok(st: FindAnnotated<Seq<char>>, it: Item, n: nat)
    ensures
        fold_children_spec(st, it, n) matches Ok((s2, _)) ==> fold_children_stop(st, it, n) == s2,
    decreases it, 0nat, n,
{
    if n > 0 && n <= it.children.len() {
        lemma_fold_children_stop_ok(st, it, (n - 1) as nat);
        if let Ok((st1, _)) = fold_children_spec(st, it, (n - 1) as nat) {
            lemma_fold_item_stop_ok(st1, it.children[n - 1]);
        }
    }
}

proof fn lemma_fold_children_stop_err(st: FindAnnotated<Seq<char>>, it: Item, k: nat)
    requires
        k <= it.children.len(),
        fold_children_spec(st, it, k) is Err,
    ensures
        fold_children_stop(st, it, it.children.len() as nat) == fold_children_stop(st, it, k),
    decreases it.children.len() - k,
{
    if k < it.children.len() {
        lemma_fold_children_stop_err(st, it, k + 1);
    }
}

proof fn lemma_fold_children_err_extends(st: FindAnnotated<Seq<char>>, it: Item, k: nat)
    requires
        k <= it.children.len(),
        fold_children_spec(st, it, k) is Err,
    ensures
        fold_children_spec(st, it, it.children.len() as nat) == fold_children_spec(st, it, k),
    decreases it.children.len() - k,
{
    if k < it.children.len() {
        lemma_fold_children_err_extends(st, it, k + 1);
    }
}

impl FindAnnotated<String> {
    /// Folds one item into this view: records the slots that it marks and
    /// returns its text in the view.
    pub fn fold_item(&mut self, it: &Item) -> (r: Result<String, SplitError>)
        ensures
            match fold_item_spec(old(self)@, *it) {
                Ok((st, t)) => r is Ok && r->Ok_0@ == t && final(self)@ == st,
                Err(e) => r == Err::<String, SplitError>(e),
            },
            final(self)@ == fold_item_stop(old(self)@, *it),
            slots_kept(old(self)@, final(self)@),
        decreases it, 1nat,
    {
        let attrs = match attrs_of_all(&it.attrs) {
            Ok(a) => a,
            Err(e) => {
                return Err(SplitError::Attribute(e));
            },
        };
        match &it.kind {
            ItemKind::Conditional { which, braced } => {
                if !*braced {
                    return Err(SplitError::UnbracedConditional(*which, it.span));
                }
                let kept = match which {
                    Conditional::TemplateOnly => self.is_template(),
                    Conditional::SolutionOnly => self.is_reference(),
                };
                if !kept {
                    return Ok(String::new());
                }
                self.fold_children(it)
            },
            ItemKind::Use { tree } => match should_drop(tree) {
                Err(e) => Err(SplitError::Import(e, it.span)),
                Ok(true) => Ok(String::new()),
                Ok(false) => match self.fold_children(it) {
                    Err(e) => Err(e),
                    Ok(inner) => Ok(render(it, &inner)),
                },
            },
            ItemKind::Module { name: _ } => match self.fold_children(it) {
                Err(e) => Err(e),
                Ok(inner) => {
                    let text = render(it, &inner);
                    match self.observe(&attrs, inner, it.span) {
                        Err(e) => Err(e),
                        Ok(()) => Ok(text),
                    }
                },
            },
            ItemKind::Code => match self.fold_children(it) {
                Err(e) => Err(e),
                Ok(inner) => Ok(render(it, &inner)),
            },
        }
    }

    /// Folds the children of `it` in order and returns their joined text.
    pub fn fold_children(&mut self, it: &Item) -> (r: Result<String, SplitError>)
        ensures
            match fold_children_spec(old(self)@, *it, it.children.len() as nat) {
                Ok((st, t)) => r is Ok && r->Ok_0@ == t && final(self)@ == st,
                Err(e) => r == Err::<String, SplitError>(e),
            },
            final(self)@ == fold_children_stop(old(self)@, *it, it.children.len() as nat),
            slots_kept(old(self)@, final(self)@),
        decreases it, 0nat,
    {
        let ghost st0 = self@;
        let mut out = String::new();
        let mut i: usize = 0;
        while i < it.children.len()
            invariant
                i <= it.children@.len(),
                st0 == old(self)@,
                slots_kept(st0, self@),
                self@ == fold_children_stop(st0, *it, i as nat),
                fold_children_spec(st0, *it, i as nat) == Ok::<
                    (FindAnnotated<Seq<char>>, Seq<char>),
                    SplitError,
                >((self@, out@)),
            decreases it.children@.len() - i,
        {
            let ghost before = self@;
            match self.fold_item(&it.children[i]) {
                Ok(t) => {
                    out.append(t.as_str());
                },
                Err(e) => {
                    proof {
                        assert(fold_item_spec(before, it.children[i as int]) == Err::<
                            (FindAnnotated<Seq<char>>, Seq<char>),
                            SplitError,
                        >(e));
                        assert(fold_children_spec(st0, *it, i as nat + 1) == Err::<
                            (FindAnnotated<Seq<char>>, Seq<char>),
                            SplitError,
                        >(e));
                        lemma_fold_children_err_extends(st0, *it, i as nat + 1);
                        lemma_fold_children_stop_err(st0, *it, i as nat + 1);
                    }
                    return Err(e);
                },
            }
            proof {
                lemma_fold_children_stop_ok(st0, *it, i as nat + 1);
            }
            i = i + 1;
        }
        proof {
            lemma_fold_children_stop_ok(st0, *it, i as nat);
        }
        Ok(out)
    }
}

/// A sequence of module observations applied in order from `st`.
pub open spec fn observe_all<T>(st: FindAnnotated<T>, obs: Seq<(Seq<Attr>, T, Span)>) -> Result<
    FindAnnotated<T>,
    SplitError,
>
    decreases obs.len(),
{
    if obs.len() == 0 {
        Ok(st)
    } else {
        match observe_all(st, obs.drop_last()) {
            Err(e) => Err(e),
            Ok(st1) => observe_spec(st1, obs.last().0, obs.last().1, obs.last().2),
        }
    }
}

proof fn lemma_observe_all_err_extends<T>(
    st: FindAnnotated<T>,
    obs: Seq<(Seq<Attr>, T, Span)>,
    k: int,
)
    requires
        0 <= k <= obs.len(),
        observe_all(st, obs.subrange(0, k)) is Err,
    ensures
        observe_all(st, obs) is Err,
    decreases obs.len() - k,
{
    if k < obs.len() {
        assert(obs.subrange(0, k + 1).drop_last() == obs.subrange(0, k));
        lemma_observe_all_err_extends(st, obs, k + 1);
    } else {
        assert(obs.subrange(0, k) == obs);
    }
}

/// A template-view state whose solution slot is `Certain`.
pub open spec fn solution_certain<T>(st: FindAnnotated<T>) -> bool {
    st matches FindAnnotated::Template { solution: Status::Certain(_), .. }
}

pub open spec fn test_certain<T>(st: FindAnnotated<T>) -> bool {
    st matches FindAnnotated::Template { test: Status::Certain(_), .. }
}

/// Observations from `k` on, applied to a state whose solution slot is `Certain`,
/// leave it `Certain` when they succeed.
pub proof fn lemma_solution_certain_persists<T>(
    st: FindAnnotated<T>,
    obs: Seq<(Seq<Attr>, T, Span)>,
    k: int,
)
    requires
        0 <= k <= obs.len(),
        observe_all(st, obs.subrange(0, k)) matches Ok(s) && solution_certain(s),
    ensures
        observe_all(st, obs) matches Ok(s) ==> solution_certain(s),
    decreases obs.len() - k,
{
    if k < obs.len() {
        assert(obs.subrange(0, k + 1).drop_last() == obs.subrange(0, k));
        if observe_all(st, obs.subrange(0, k + 1)) is Ok {
            lemma_solution_certain_persists(st, obs, k + 1);
        } else {
            lemma_observe_all_err_extends(st, obs, k + 1);
        }
    } else {
        assert(obs.subrange(0, k) == obs);
    }
}

proof fn lemma_test_certain_persists<T>(
    st: FindAnnotated<T>,
    obs: Seq<(Seq<Attr>, T, Span)>,
    k: int,
)
    requires
        0 <= k <= obs.len(),
        observe_all(st, obs.subrange(0, k)) matches Ok(s) && test_certain(s),
    ensures
        observe_all(st, obs) matches Ok(s) ==> test_certain(s),
    decreases obs.len() - k,
{
    if k < obs.len() {
        assert(obs.subrange(0, k + 1).drop_last() == obs.subrange(0, k));
        if observe_all(st, obs.subrange(0, k + 1)) is Ok {
            lemma_test_certain_persists(st, obs, k + 1);
        } else {
            lemma_observe_all_err_extends(st, obs, k + 1);
        }
    } else {
        assert(obs.subrange(0, k) == obs);
    }
}

/// In the template view, once a solution-template block has been seen, a
/// successful traversal ends with the solution slot `Certain`, whatever other
/// solution blocks came before or after it.
pub proof fn lemma_template_solution_certain<T>(
    st: FindAnnotated<T>,
    obs: Seq<(Seq<Attr>, T, Span)>,
    i: int,
)
    requires
        st is Template,
        0 <= i < obs.len(),
        has_attr(obs[i].0, Attr::SolutionTemplate),
    ensures
        observe_all(st, obs) matches Ok(s) ==> solution_certain(s),
{
    lemma_template_stays_template(st, obs.subrange(0, i));
    assert(obs.subrange(0, i + 1).drop_last() == obs.subrange(0, i));
    if observe_all(st, obs.subrange(0, i + 1)) is Ok {
        lemma_solution_certain_persists(st, obs, i + 1);
    } else {
        lemma_observe_all_err_extends(st, obs, i + 1);
    }
}

pub proof fn lemma_template_stays_template<T>(st: FindAnnotated<T>, obs: Seq<(Seq<Attr>, T, Span)>)
    requires
        st is Template,
    ensures
        observe_all(st, obs) matches Ok(s) ==> s is Template,
    decreases obs.len(),
{
    if obs.len() > 0 {
        lemma_template_stays_template(st, obs.drop_last());
    }
}

proof fn lemma_reference_stays_reference<T>(st: FindAnnotated<T>, obs: Seq<(Seq<Attr>, T, Span)>)
    requires
        st is Reference,
    ensures
        observe_all(st, obs) matches Ok(s) ==> s is Reference,
    decreases obs.len(),
{
    if obs.len() > 0 {
        lemma_reference_stays_reference(st, obs.drop_last());
    }
}

/// Two solution-template blocks in one template traversal always conflict,
/// in whichever order they and the other blocks are met.
pub proof fn lemma_two_solution_templates_conflict<T>(
    st: FindAnnotated<T>,
    obs: Seq<(Seq<Attr>, T, Span)>,
    i: int,
    j: int,
)
    requires
        st is Template,
        0 <= i < j < obs.len(),
        has_attr(obs[i].0, Attr::SolutionTemplate),
        has_attr(obs[j].0, Attr::SolutionTemplate),
    ensures
        observe_all(st, obs) is Err,
{
    let pre = obs.subrange(0, j + 1);
    assert(pre[i] == obs[i]);
    lemma_template_solution_certain(st, obs.subrange(0, j), i);
    assert(pre.drop_last() == obs.subrange(0, j));
    assert(observe_all(st, pre) is Err);
    lemma_observe_all_err_extends(st, obs, j + 1);
}

/// Two test-template blocks that carry no solution marker always conflict in
/// a template traversal, in whichever order the blocks are met.
pub proof fn lemma_two_test_templates_conflict<T>(
    st: FindAnnotated<T>,
    obs: Seq<(Seq<Attr>, T, Span)>,
    i: int,
    j: int,
)
    requires
        st is Template,
        0 <= i < j < obs.len(),
        has_attr(obs[i].0, Attr::TestTemplate),
        has_attr(obs[j].0, Attr::TestTemplate),
        !has_attr(obs[i].0, Attr::SolutionTemplate) && !has_attr(obs[i].0, Attr::Solution),
        !has_attr(obs[j].0, Attr::SolutionTemplate) && !has_attr(obs[j].0, Attr::Solution),
    ensures
        observe_all(st, obs) is Err,
{
    let pre_i = obs.subrange(0, i + 1);
    lemma_template_stays_template(st, obs.subrange(0, i));
    assert(pre_i.drop_last() == obs.subrange(0, i));
    let mid = obs.subrange(0, j);
    assert(mid.subrange(0, i + 1) == pre_i);
    if observe_all(st, pre_i) is Ok {
        lemma_test_certain_persists(st, mid, i + 1);
    } else {
        lemma_observe_all_err_extends(st, mid, i + 1);
    }
    let pre_j = obs.subrange(0, j + 1);
    assert(pre_j.drop_last() == mid);
    assert(observe_all(st, pre_j) is Err);
    lemma_observe_all_err_extends(st, obs, j + 1);
}

/// Observations from `k` on keep filled reference slots filled.
proof fn lemma_reference_slots_persist<T>(
    st: FindAnnotated<T>,
    obs: Seq<(Seq<Attr>, T, Span)>,
    k: int,
)
    requires
        0 <= k <= obs.len(),
        observe_all(st, obs.subrange(0, k)) is Ok,
        observe_all(st, obs.subrange(0, k))->Ok_0 is Reference,
    ensures
        observe_all(st, obs) matches Ok(s) ==> {
            let s0 = observe_all(st, obs.subrange(0, k))->Ok_0;
            &&& s is Reference
            &&& s0->Reference_solution is Some ==> s->Reference_solution is Some
            &&& s0->Reference_test is Some ==> s->Reference_test is Some
        },
    decreases obs.len() - k,
{
    if k < obs.len() {
        assert(obs.subrange(0, k + 1).drop_last() == obs.subrange(0, k));
        if observe_all(st, obs.subrange(0, k + 1)) is Ok {
            lemma_reference_slots_persist(st, obs, k + 1);
        } else {
            lemma_observe_all_err_extends(st, obs, k + 1);
        }
    } else {
        assert(obs.subrange(0, k) == obs);
    }
}

/// A successful reference traversal that met a solution block and a separate
/// test block ends with both slots filled.
pub proof fn lemma_reference_slots_filled<T>(
    st: FindAnnotated<T>,
    obs: Seq<(Seq<Attr>, T, Span)>,
    i: int,
    j: int,
)
    requires
        st is Reference,
        0 <= i < obs.len(),
        0 <= j < obs.len(),
        has_attr(obs[i].0, Attr::Solution),
        has_attr(obs[j].0, Attr::Test),
        !has_attr(obs[j].0, Attr::Solution),
    ensures
        observe_all(st, obs) matches Ok(s) ==> s matches FindAnnotated::Reference {
            solution: Some(_),
            test: Some(_),
        },
{
    lemma_reference_stays_reference(st, obs);
    lemma_slot_filled_at(st, obs, i);
    lemma_slot_filled_at(st, obs, j);
}

proof fn lemma_slot_filled_at<T>(st: FindAnnotated<T>, obs: Seq<(Seq<Attr>, T, Span)>, i: int)
    requires
        st is Reference,
        0 <= i < obs.len(),
    ensures
        observe_all(st, obs) matches Ok(s) ==> {
            &&& has_attr(obs[i].0, Attr::Solution) ==> s->Reference_solution is Some
            &&& has_attr(obs[i].0, Attr::Test) && !has_attr(obs[i].0, Attr::Solution)
                ==> s->Reference_test is Some
        },
{
    lemma_reference_stays_reference(st, obs.subrange(0, i));
    lemma_reference_stays_reference(st, obs.subrange(0, i + 1));
    assert(obs.subrange(0, i + 1).drop_last() == obs.subrange(0, i));
    if observe_all(st, obs.subrange(0, i + 1)) is Ok {
        lemma_reference_slots_persist(st, obs, i + 1);
    } else {
        lemma_observe_all_err_extends(st, obs, i + 1);
    }
}

} // verus!
