//! What a traversal of an authored tree records in its slots, and the laws of
//! the slot lattice stated over whole trees.
use vstd::prelude::*;
use crate::attr::{Attr, Span, all_raw_attrs};
use crate::imports::{UseTree, allowed_crate, drop_verdict, lemma_import_legality};
use crate::programming::{reference_start, template_start};
use crate::split::{
    Conditional, FindAnnotated, Item, ItemKind, Status, fold_children_spec, fold_item_spec,
    fold_children_stop, fold_item_stop, kept_attr_text,
    has_attr, lemma_reference_slots_filled, lemma_template_solution_certain,
    lemma_two_solution_templates_conflict, lemma_two_test_templates_conflict, observe_all,
    observe_spec, solution_certain, split_spec, lemma_solution_certain_persists, lemma_template_stays_template,
};

verus! {

broadcast use vstd::std_specs::vec::group_vec_axioms;

/// The slots of a state, without their contents.
pub open spec fn shape<T>(st: FindAnnotated<T>) -> FindAnnotated<()> {
    match st {
        FindAnnotated::Template { solution, test, library } => FindAnnotated::Template {
            solution: status_shape(solution),
            test: status_shape(test),
            library: match library {
                Some(_) => Some(()),
                None => None,
            },
        },
        FindAnnotated::Reference { solution, test } => FindAnnotated::Reference {
            solution: match solution {
                Some(_) => Some(()),
                None => None,
            },
            test: match test {
                Some(_) => Some(()),
                None => None,
            },
        },
    }
}

pub open spec fn status_shape<T>(s: Status<T>) -> Status<()> {
    match s {
        Status::Certain(_) => Status::Certain(()),
        Status::Maybe(_) => Status::Maybe(()),
        Status::Unknown => Status::Unknown,
    }
}

pub open spec fn kept_in(reference: bool, which: Conditional) -> bool {
    match which {
        Conditional::TemplateOnly => !reference,
        Conditional::SolutionOnly => reference,
    }
}

/// The modules that a traversal of `it` meets in one view, in the order in
/// which it records them: each with its markers and its place.
pub open spec fn item_modules(reference: bool, it: Item) -> Seq<(Seq<Attr>, (), Span)>
    decreases it, 1nat, 0nat,
{
    match it.kind {
        ItemKind::Conditional { which, braced: _ } => if kept_in(reference, which) {
            children_modules(reference, it, it.children.len() as nat)
        } else {
            Seq::empty()
        },
        ItemKind::Use { tree } => if drop_verdict(tree) == Ok::<bool, crate::imports::ImportError>(
            true,
        ) {
            Seq::empty()
        } else {
            children_modules(reference, it, it.children.len() as nat)
        },
        ItemKind::Module { name: _ } => children_modules(
            reference,
            it,
            it.children.len() as nat,
        ).push((all_raw_attrs(it.attrs@)->Ok_0, (), it.span)),
        ItemKind::Code => children_modules(reference, it, it.children.len() as nat),
    }
}

pub open spec fn children_modules(reference: bool, it: Item, n: nat) -> Seq<(Seq<Attr>, (), Span)>
    decreases it, 0nat, n,
{
    if n == 0 || n > it.children.len() {
        Seq::empty()
    } else {
        children_modules(reference, it, (n - 1) as nat) + item_modules(reference, it.children[n - 1])
    }
}

/// The modules met in the body of a definition's root, in one view.
pub open spec fn root_modules(reference: bool, root: Item) -> Seq<(Seq<Attr>, (), Span)> {
    children_modules(reference, root, root.children.len() as nat)
}

proof fn lemma_observe_shape<T>(st: FindAnnotated<T>, attrs: Seq<Attr>, c: T, span: Span)
    ensures
        match observe_spec(st, attrs, c, span) {
            Ok(s) => observe_spec(shape(st), attrs, (), span) == Ok::<
                FindAnnotated<()>,
                crate::split::SplitError,
            >(shape(s)),
            Err(e) => observe_spec(shape(st), attrs, (), span) == Err::<
                FindAnnotated<()>,
                crate::split::SplitError,
            >(e),
        },
{
}

proof fn lemma_observe_all_concat<T>(
    st: FindAnnotated<T>,
    a: Seq<(Seq<Attr>, T, Span)>,
    b: Seq<(Seq<Attr>, T, Span)>,
)
    ensures
        observe_all(st, a + b) == match observe_all(st, a) {
            Ok(s) => observe_all(s, b),
            Err(e) => Err(e),
        },
    decreases b.len(),
{
    if b.len() == 0 {
        assert(a + b == a);
    } else {
        assert((a + b).drop_last() == a + b.drop_last());
        lemma_observe_all_concat(st, a, b.drop_last());
    }
}

proof fn lemma_fold_item_modules(st: FindAnnotated<Seq<char>>, it: Item)
    ensures
        fold_item_spec(st, it) matches Ok((s2, _)) ==> {
            &&& observe_all(shape(st), item_modules(st is Reference, it)) == Ok::<
                FindAnnotated<()>,
                crate::split::SplitError,
            >(shape(s2))
            &&& (s2 is Reference <==> st is Reference)
        },
    decreases it, 1nat,
{
    let n = it.children.len() as nat;
    lemma_fold_children_modules(st, it, n);
    if let Ok((s2, _)) = fold_item_spec(st, it) {
        match it.kind {
            ItemKind::Module { name: _ } => {
                let inner = fold_children_spec(st, it, n)->Ok_0;
                let attrs = all_raw_attrs(it.attrs@)->Ok_0;
                lemma_observe_shape(inner.0, attrs, inner.1, it.span);
                let pre = children_modules(st is Reference, it, n);
                let x = (attrs, (), it.span);
                assert(pre.push(x).drop_last() == pre);
                assert(pre.push(x).last() == x);
                assert(observe_all(shape(st), pre) == Ok::<
                    FindAnnotated<()>,
                    crate::split::SplitError,
                >(shape(inner.0)));
                assert(observe_spec(inner.0, attrs, inner.1, it.span) == Ok::<
                    FindAnnotated<Seq<char>>,
                    crate::split::SplitError,
                >(s2));
            },
            ItemKind::Conditional { which, braced: _ } => {
                if !kept_in(st is Reference, which) {
                    assert(observe_all(shape(st), Seq::<(Seq<Attr>, (), Span)>::empty()) == Ok::<
                        FindAnnotated<()>,
                        crate::split::SplitError,
                    >(shape(st)));
                }
            },
            ItemKind::Use { tree } => {
                if drop_verdict(tree) == Ok::<bool, crate::imports::ImportError>(true) {
                    assert(observe_all(shape(st), Seq::<(Seq<Attr>, (), Span)>::empty()) == Ok::<
                        FindAnnotated<()>,
                        crate::split::SplitError,
                    >(shape(st)));
                }
            },
            _ => {},
        }
    }
}

proof fn lemma_fold_children_modules(st: FindAnnotated<Seq<char>>, it: Item, n: nat)
    ensures
        fold_children_spec(st, it, n) matches Ok((s2, _)) ==> {
            &&& observe_all(shape(st), children_modules(st is Reference, it, n)) == Ok::<
                FindAnnotated<()>,
                crate::split::SplitError,
            >(shape(s2))
            &&& (s2 is Reference <==> st is Reference)
        },
    decreases it, 0nat, n,
{
    if n == 0 || n > it.children.len() {
    } else {
        lemma_fold_children_modules(st, it, (n - 1) as nat);
        if let Ok((s1, _)) = fold_children_spec(st, it, (n - 1) as nat) {
            lemma_fold_item_modules(s1, it.children[n - 1]);
            lemma_observe_all_concat(
                shape(st),
                children_modules(st is Reference, it, (n - 1) as nat),
                item_modules(st is Reference, it.children[n - 1]),
            );
        }
    }
}

/// In the template view of a definition, a successful split that met a
/// solution-template block ends with the solution slot `Certain`, never
/// `Maybe`, whatever solution blocks come with it.
pub proof fn lemma_split_template_solution_certain(root: Item, i: int)
    requires
        0 <= i < root_modules(false, root).len(),
        has_attr(root_modules(false, root)[i].0, Attr::SolutionTemplate),
    ensures
        split_spec(template_start(), root) matches Ok((s, _)) ==> s matches FindAnnotated::Template {
            solution: Status::Certain(_),
            ..
        },
{
    let n = root.children.len() as nat;
    lemma_fold_children_modules(template_start(), root, n);
    lemma_template_solution_certain(shape(template_start()), root_modules(false, root), i);
}

/// Two solution-template blocks met in the template view of a definition
/// always make the split fail, in whichever order the blocks stand.
pub proof fn lemma_split_two_solution_templates(root: Item, i: int, j: int)
    requires
        0 <= i < j < root_modules(false, root).len(),
        has_attr(root_modules(false, root)[i].0, Attr::SolutionTemplate),
        has_attr(root_modules(false, root)[j].0, Attr::SolutionTemplate),
    ensures
        split_spec(template_start(), root) is Err,
{
    let n = root.children.len() as nat;
    lemma_fold_children_modules(template_start(), root, n);
    lemma_two_solution_templates_conflict(shape(template_start()), root_modules(false, root), i, j);
}

/// Two test-template blocks without solution markers, met in the template
/// view of a definition, always make the split fail.
pub proof fn lemma_split_two_test_templates(root: Item, i: int, j: int)
    requires
        0 <= i < j < root_modules(false, root).len(),
        has_attr(root_modules(false, root)[i].0, Attr::TestTemplate),
        has_attr(root_modules(false, root)[j].0, Attr::TestTemplate),
        !has_attr(root_modules(false, root)[i].0, Attr::SolutionTemplate),
        !has_attr(root_modules(false, root)[i].0, Attr::Solution),
        !has_attr(root_modules(false, root)[j].0, Attr::SolutionTemplate),
        !has_attr(root_modules(false, root)[j].0, Attr::Solution),
    ensures
        split_spec(template_start(), root) is Err,
{
    let n = root.children.len() as nat;
    lemma_fold_children_modules(template_start(), root, n);
    lemma_two_test_templates_conflict(shape(template_start()), root_modules(false, root), i, j);
}

/// A definition whose reference view meets a solution block and a separate
/// test block, and splits without conflict, has both reference slots filled.
pub proof fn lemma_split_reference_filled(root: Item, i: int, j: int)
    requires
        0 <= i < root_modules(true, root).len(),
        0 <= j < root_modules(true, root).len(),
        has_attr(root_modules(true, root)[i].0, Attr::Solution),
        has_attr(root_modules(true, root)[j].0, Attr::Test),
        !has_attr(root_modules(true, root)[j].0, Attr::Solution),
    ensures
        split_spec(reference_start(), root) matches Ok((s, _)) ==> s matches FindAnnotated::Reference {
            solution: Some(_),
            test: Some(_),
        },
{
    let n = root.children.len() as nat;
    lemma_fold_children_modules(reference_start(), root, n);
    lemma_reference_slots_filled(shape(reference_start()), root_modules(true, root), i, j);
}

/// The crate that an import names first, for the forms that name one.
pub open spec fn import_root(t: UseTree) -> Option<Seq<char>> {
    match t {
        UseTree::Path { ident, tree: _ } => Some(ident@),
        UseTree::Name { ident } => Some(ident@),
        UseTree::Rename { ident, rename: _ } => Some(ident@),
        _ => None,
    }
}

/// An import of an allowed crate passes through the split unchanged, in the
/// reference view and in the template view alike, and records nothing.
pub proof fn lemma_allowed_import_survives(st: FindAnnotated<Seq<char>>, it: Item)
    requires
        it.kind is Use,
        import_root(it.kind->Use_tree) matches Some(name) && allowed_crate(name),
        all_raw_attrs(it.attrs@) is Ok,
        it.children.len() == 0,
    ensures
        fold_item_spec(st, it) == Ok::<(FindAnnotated<Seq<char>>, Seq<char>), crate::split::SplitError>(
            (st, kept_attr_text(it.attrs@) + it.head@ + it.tail@),
        ),
{
    let tree = it.kind->Use_tree;
    match tree {
        UseTree::Path { ident, tree: rest } => {
            lemma_import_legality(ident, ident, rest);
        },
        UseTree::Name { ident } => {
            lemma_import_legality(ident, ident, Box::new(UseTree::Glob));
        },
        UseTree::Rename { ident, rename } => {
            lemma_import_legality(ident, rename, Box::new(UseTree::Glob));
        },
        _ => {},
    }
    assert(kept_attr_text(it.attrs@) + it.head@ + Seq::<char>::empty() + it.tail@
        =~= kept_attr_text(it.attrs@) + it.head@ + it.tail@);
}

/// The items that a traversal of `it` reads in one view are free of the
/// violations that do not depend on the slots: their markers parse, their
/// imports are allowed and their conditional blocks are braced.
pub open spec fn item_clean(reference: bool, it: Item) -> bool
    decreases it, 1nat, 0nat,
{
    &&& all_raw_attrs(it.attrs@) is Ok
    &&& match it.kind {
        ItemKind::Conditional { which, braced } => braced && (kept_in(reference, which)
            ==> children_clean(reference, it, it.children.len() as nat)),
        ItemKind::Use { tree } => drop_verdict(tree) is Ok && (drop_verdict(tree) != Ok::<
            bool,
            crate::imports::ImportError,
        >(true) ==> children_clean(reference, it, it.children.len() as nat)),
        _ => children_clean(reference, it, it.children.len() as nat),
    }
}

pub open spec fn children_clean(reference: bool, it: Item, n: nat) -> bool
    decreases it, 0nat, n,
{
    if n == 0 || n > it.children.len() {
        true
    } else {
        children_clean(reference, it, (n - 1) as nat) && item_clean(reference, it.children[n - 1])
    }
}

/// On clean items the fold fails only where the slot lattice does.
proof fn lemma_clean_fold_item(st: FindAnnotated<Seq<char>>, it: Item)
    requires
        item_clean(st is Reference, it),
        observe_all(shape(st), item_modules(st is Reference, it)) is Ok,
    ensures
        fold_item_spec(st, it) is Ok,
    decreases it, 1nat,
{
    let n = it.children.len() as nat;
    match it.kind {
        ItemKind::Conditional { which, braced: _ } => {
            if kept_in(st is Reference, which) {
                lemma_clean_fold_children(st, it, n);
            }
        },
        ItemKind::Use { tree } => {
            if drop_verdict(tree) != Ok::<bool, crate::imports::ImportError>(true) {
                lemma_clean_fold_children(st, it, n);
            }
        },
        ItemKind::Module { name: _ } => {
            let pre = children_modules(st is Reference, it, n);
            let attrs = all_raw_attrs(it.attrs@)->Ok_0;
            let x = (attrs, (), it.span);
            assert(pre.push(x).drop_last() == pre);
            assert(pre.push(x).last() == x);
            assert(observe_all(shape(st), pre) is Ok);
            lemma_clean_fold_children(st, it, n);
            lemma_fold_children_modules(st, it, n);
            let inner = fold_children_spec(st, it, n)->Ok_0;
            lemma_observe_shape(inner.0, attrs, inner.1, it.span);
        },
        ItemKind::Code => {
            lemma_clean_fold_children(st, it, n);
        },
    }
}

proof fn lemma_clean_fold_children(st: FindAnnotated<Seq<char>>, it: Item, n: nat)
    requires
        children_clean(st is Reference, it, n),
        observe_all(shape(st), children_modules(st is Reference, it, n)) is Ok,
    ensures
        fold_children_spec(st, it, n) is Ok,
    decreases it, 0nat, n,
{
    if n == 0 || n > it.children.len() {
    } else {
        let pre = children_modules(st is Reference, it, (n - 1) as nat);
        let last = item_modules(st is Reference, it.children[n - 1]);
        lemma_observe_all_concat(shape(st), pre, last);
        lemma_clean_fold_children(st, it, (n - 1) as nat);
        lemma_fold_children_modules(st, it, (n - 1) as nat);
        let s1 = fold_children_spec(st, it, (n - 1) as nat)->Ok_0.0;
        lemma_clean_fold_item(s1, it.children[n - 1]);
    }
}

/// Observations marked as a solution block.
pub open spec fn solution_blocks(obs: Seq<(Seq<Attr>, (), Span)>) -> nat
    decreases obs.len(),
{
    if obs.len() == 0 {
        0
    } else {
        solution_blocks(obs.drop_last()) + if has_attr(obs.last().0, Attr::Solution) {
            1nat
        } else {
            0nat
        }
    }
}

/// Observations marked as a test block and not as a solution block.
pub open spec fn test_blocks(obs: Seq<(Seq<Attr>, (), Span)>) -> nat
    decreases obs.len(),
{
    if obs.len() == 0 {
        0
    } else {
        test_blocks(obs.drop_last()) + if has_attr(obs.last().0, Attr::Test) && !has_attr(
            obs.last().0,
            Attr::Solution,
        ) {
            1nat
        } else {
            0nat
        }
    }
}

proof fn lemma_reference_counts(obs: Seq<(Seq<Attr>, (), Span)>)
    requires
        solution_blocks(obs) <= 1,
        test_blocks(obs) <= 1,
    ensures
        observe_all(shape(reference_start()), obs) == Ok::<FindAnnotated<()>, crate::split::SplitError>(
            FindAnnotated::Reference {
                solution: if solution_blocks(obs) == 1 {
                    Some(())
                } else {
                    None
                },
                test: if test_blocks(obs) == 1 {
                    Some(())
                } else {
                    None
                },
            },
        ),
    decreases obs.len(),
{
    if obs.len() > 0 {
        lemma_reference_counts(obs.drop_last());
    }
}

/// A definition whose reference view meets exactly one solution block and
/// exactly one separate test block, and whose items are otherwise free of
/// violations, splits without error and fills both reference slots.
pub proof fn lemma_reference_view_filled(root: Item)
    requires
        children_clean(true, root, root.children.len() as nat),
        solution_blocks(root_modules(true, root)) == 1,
        test_blocks(root_modules(true, root)) == 1,
    ensures
        split_spec(reference_start(), root) matches Ok((s, _)) && s matches FindAnnotated::Reference {
            solution: Some(_),
            test: Some(_),
        },
{
    let n = root.children.len() as nat;
    lemma_reference_counts(root_modules(true, root));
    lemma_clean_fold_children(reference_start(), root, n);
    lemma_fold_children_modules(reference_start(), root, n);
}

/// Which slot a module with markers `a` fills in the template view, in the
/// order in which the markers are tested: 0 solution template, 1 solution,
/// 2 test template, 3 test, 4 library, 5 none.
pub open spec fn template_kind(a: Seq<Attr>) -> nat {
    if has_attr(a, Attr::SolutionTemplate) {
        0
    } else if has_attr(a, Attr::Solution) {
        1
    } else if has_attr(a, Attr::TestTemplate) {
        2
    } else if has_attr(a, Attr::Test) {
        3
    } else if has_attr(a, Attr::Library) {
        4
    } else {
        5
    }
}

/// The observations of kind `k`.
pub open spec fn kind_count(obs: Seq<(Seq<Attr>, (), Span)>, k: nat) -> nat
    decreases obs.len(),
{
    if obs.len() == 0 {
        0
    } else {
        kind_count(obs.drop_last(), k) + if template_kind(obs.last().0) == k {
            1nat
        } else {
            0nat
        }
    }
}

/// No base block comes after the template block of its slot.
pub open spec fn bases_first(obs: Seq<(Seq<Attr>, (), Span)>) -> bool
    decreases obs.len(),
{
    if obs.len() == 0 {
        true
    } else {
        &&& bases_first(obs.drop_last())
        &&& template_kind(obs.last().0) == 1 ==> kind_count(obs.drop_last(), 0) == 0
        &&& template_kind(obs.last().0) == 3 ==> kind_count(obs.drop_last(), 2) == 0
    }
}

pub open spec fn at_most_one_each(obs: Seq<(Seq<Attr>, (), Span)>) -> bool {
    forall|k: nat| k < 5 ==> #[trigger] kind_count(obs, k) <= 1
}

pub open spec fn slot_shape(certain: nat, maybe: nat) -> Status<()> {
    if certain == 1 {
        Status::Certain(())
    } else if maybe == 1 {
        Status::Maybe(())
    } else {
        Status::Unknown
    }
}

proof fn lemma_template_counts(obs: Seq<(Seq<Attr>, (), Span)>)
    requires
        at_most_one_each(obs),
        bases_first(obs),
    ensures
        observe_all(shape(template_start()), obs) == Ok::<FindAnnotated<()>, crate::split::SplitError>(
            FindAnnotated::Template {
                solution: slot_shape(kind_count(obs, 0), kind_count(obs, 1)),
                test: slot_shape(kind_count(obs, 2), kind_count(obs, 3)),
                library: if kind_count(obs, 4) == 1 {
                    Some(())
                } else {
                    None
                },
            },
        ),
    decreases obs.len(),
{
    if obs.len() > 0 {
        let pre = obs.drop_last();
        assert forall|k: nat| k < 5 implies #[trigger] kind_count(pre, k) <= 1 by {
            assert(kind_count(obs, k) <= 1);
        }
        lemma_template_counts(pre);
        assert(kind_count(obs, 0) <= 1 && kind_count(obs, 1) <= 1 && kind_count(obs, 2) <= 1
            && kind_count(obs, 3) <= 1 && kind_count(obs, 4) <= 1);
    }
}

/// A definition whose template view meets exactly one solution block and,
/// after it, exactly one solution-template block, with at most one block for
/// each other slot and no base block after its template block, and whose
/// items are otherwise free of violations, splits without error in the
/// template view, and its solution slot is `Certain`.
pub proof fn lemma_template_view_certain(root: Item)
    requires
        children_clean(false, root, root.children.len() as nat),
        at_most_one_each(root_modules(false, root)),
        bases_first(root_modules(false, root)),
        kind_count(root_modules(false, root), 0) == 1,
        kind_count(root_modules(false, root), 1) == 1,
    ensures
        split_spec(template_start(), root) matches Ok((s, _)) && s matches FindAnnotated::Template {
            solution: Status::Certain(_),
            ..
        },
{
    let n = root.children.len() as nat;
    lemma_template_counts(root_modules(false, root));
    lemma_clean_fold_children(template_start(), root, n);
    lemma_fold_children_modules(template_start(), root, n);
}

/// A solution block met after a solution-template block in the template view
/// always makes the split fail.
pub proof fn lemma_split_solution_after_template(root: Item, i: int, j: int)
    requires
        0 <= i < j < root_modules(false, root).len(),
        has_attr(root_modules(false, root)[i].0, Attr::SolutionTemplate),
        has_attr(root_modules(false, root)[j].0, Attr::Solution),
    ensures
        split_spec(template_start(), root) is Err,
{
    let n = root.children.len() as nat;
    let obs = root_modules(false, root);
    lemma_fold_children_modules(template_start(), root, n);
    lemma_template_solution_certain(shape(template_start()), obs.subrange(0, j), i);
    let pre = obs.subrange(0, j + 1);
    assert(pre.drop_last() == obs.subrange(0, j));
    assert(observe_all(shape(template_start()), pre) is Err);
    lemma_observe_all_concat(shape(template_start()), pre, obs.subrange(j + 1, obs.len() as int));
    assert(pre + obs.subrange(j + 1, obs.len() as int) == obs);
}

/// The state that observations reach when applied in order until the first
/// one that conflicts, which leaves the state as it was.
pub open spec fn observe_until<T>(st: FindAnnotated<T>, obs: Seq<(Seq<Attr>, T, Span)>) -> FindAnnotated<T>
    decreases obs.len(),
{
    if obs.len() == 0 {
        st
    } else {
        match observe_all(st, obs.drop_last()) {
            Err(_) => observe_until(st, obs.drop_last()),
            Ok(s1) => match observe_spec(s1, obs.last().0, obs.last().1, obs.last().2) {
                Err(_) => s1,
                Ok(s2) => s2,
            },
        }
    }
}

proof fn lemma_observe_until_concat<T>(
    st: FindAnnotated<T>,
    a: Seq<(Seq<Attr>, T, Span)>,
    b: Seq<(Seq<Attr>, T, Span)>,
)
    ensures
        observe_until(st, a + b) == match observe_all(st, a) {
            Ok(s1) => observe_until(s1, b),
            Err(_) => observe_until(st, a),
        },
    decreases b.len(),
{
    if b.len() == 0 {
        assert(a + b == a);
        lemma_observe_until_ok(st, a);
    } else {
        assert((a + b).drop_last() == a + b.drop_last());
        lemma_observe_until_concat(st, a, b.drop_last());
        lemma_observe_all_concat(st, a, b.drop_last());
    }
}

proof fn lemma_observe_until_ok<T>(st: FindAnnotated<T>, obs: Seq<(Seq<Attr>, T, Span)>)
    ensures
        observe_all(st, obs) matches Ok(s) ==> observe_until(st, obs) == s,
{
}

proof fn lemma_clean_stop_item(st: FindAnnotated<Seq<char>>, it: Item)
    requires
        item_clean(st is Reference, it),
    ensures
        shape(fold_item_stop(st, it)) == observe_until(shape(st), item_modules(st is Reference, it)),
    decreases it, 1nat,
{
    let n = it.children.len() as nat;
    lemma_fold_item_modules(st, it);
    lemma_fold_children_modules(st, it, n);
    match it.kind {
        ItemKind::Conditional { which, braced: _ } => {
            if kept_in(st is Reference, which) {
                lemma_clean_stop_children(st, it, n);
            }
        },
        ItemKind::Use { tree } => {
            if drop_verdict(tree) != Ok::<bool, crate::imports::ImportError>(true) {
                lemma_clean_stop_children(st, it, n);
            }
        },
        ItemKind::Module { name: _ } => {
            lemma_clean_stop_children(st, it, n);
            let pre = children_modules(st is Reference, it, n);
            let attrs = all_raw_attrs(it.attrs@)->Ok_0;
            let x = (attrs, (), it.span);
            assert(pre.push(x).drop_last() == pre);
            assert(pre.push(x).last() == x);
            if fold_children_spec(st, it, n) is Ok {
                let inner = fold_children_spec(st, it, n)->Ok_0;
                lemma_observe_shape(inner.0, attrs, inner.1, it.span);
            } else {
                if observe_all(shape(st), pre) is Ok {
                    lemma_clean_fold_children(st, it, n);
                }
            }
        },
        ItemKind::Code => {
            lemma_clean_stop_children(st, it, n);
        },
    }
}

proof fn lemma_clean_stop_children(st: FindAnnotated<Seq<char>>, it: Item, n: nat)
    requires
        children_clean(st is Reference, it, n),
    ensures
        shape(fold_children_stop(st, it, n)) == observe_until(
            shape(st),
            children_modules(st is Reference, it, n),
        ),
    decreases it, 0nat, n,
{
    if n == 0 || n > it.children.len() {
    } else {
        let pre = children_modules(st is Reference, it, (n - 1) as nat);
        let last = item_modules(st is Reference, it.children[n - 1]);
        lemma_observe_until_concat(shape(st), pre, last);
        lemma_clean_stop_children(st, it, (n - 1) as nat);
        lemma_fold_children_modules(st, it, (n - 1) as nat);
        if fold_children_spec(st, it, (n - 1) as nat) is Ok {
            let s1 = fold_children_spec(st, it, (n - 1) as nat)->Ok_0.0;
            lemma_clean_stop_item(s1, it.children[n - 1]);
        } else {
            if observe_all(shape(st), pre) is Ok {
                lemma_clean_fold_children(st, it, (n - 1) as nat);
            }
        }
    }
}

proof fn lemma_until_keeps_certain<T>(st: FindAnnotated<T>, obs: Seq<(Seq<Attr>, T, Span)>)
    requires
        solution_certain(st),
    ensures
        solution_certain(observe_until(st, obs)),
    decreases obs.len(),
{
    if obs.len() > 0 {
        lemma_until_keeps_certain(st, obs.drop_last());
        lemma_solution_certain_persists(st, obs.drop_last(), 0);
        assert(obs.drop_last().subrange(0, 0) =~= Seq::<(Seq<Attr>, T, Span)>::empty());
    }
}

/// In a template view whose items are free of other violations, a second
/// solution-template block makes the split fail, and where the fold stops
/// the solution slot is still `Certain`, provided the traversal met the
/// first such block without a conflict.
pub proof fn lemma_split_second_template_keeps_first(root: Item, i: int, j: int)
    requires
        children_clean(false, root, root.children.len() as nat),
        0 <= i < j < root_modules(false, root).len(),
        has_attr(root_modules(false, root)[i].0, Attr::SolutionTemplate),
        has_attr(root_modules(false, root)[j].0, Attr::SolutionTemplate),
        observe_all(shape(template_start()), root_modules(false, root).subrange(0, i + 1)) is Ok,
    ensures
        split_spec(template_start(), root) is Err,
        fold_children_stop(template_start(), root, root.children.len() as nat) matches FindAnnotated::Template {
            solution: Status::Certain(_),
            ..
        },
{
    let n = root.children.len() as nat;
    let obs = root_modules(false, root);
    lemma_split_two_solution_templates(root, i, j);
    lemma_clean_stop_children(template_start(), root, n);
    let pre = obs.subrange(0, i + 1);
    let rest = obs.subrange(i + 1, obs.len() as int);
    assert(pre + rest == obs);
    lemma_observe_until_concat(shape(template_start()), pre, rest);
    lemma_template_stays_template(shape(template_start()), obs.subrange(0, i));
    assert(pre.drop_last() == obs.subrange(0, i));
    let s1 = observe_all(shape(template_start()), pre)->Ok_0;
    assert(solution_certain(s1));
    lemma_until_keeps_certain(s1, rest);
}

} // verus!
