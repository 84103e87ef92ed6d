//! Which imports of an authored assignment may appear in exported code.
use vstd::prelude::*;
use crate::attr::text_is;

verus! {

broadcast use vstd::std_specs::vec::group_vec_axioms;

/// The shape of a `use` item, as far as the filter reads it.
pub enum UseTree {
    /// `name::rest`
    Path { ident: String, tree: Box<UseTree> },
    /// `name`
    Name { ident: String },
    /// `name as other`
    Rename { ident: String, rename: String },
    /// `*`
    Glob,
    /// `{a, b, ...}`
    Group { items: Vec<UseTree> },
}

/// Why an import cannot be exported.
#[derive(Clone, Debug, PartialEq, Eq)]
pub enum ImportError {
    /// An import relative to the project root.
    CrateRelative,
    /// A crate that the grading environment does not provide.
    Forbidden(String),
    /// A group whose names are partly kept and partly dropped.
    Mixed,
}

/// The external crates that exported code may import.
pub open spec fn allowed_crate(name: Seq<char>) -> bool {
    name == "serde"@ || name == "lazy_static"@ || name == "async-trait"@ || name == "futures"@
        || name == "tokio"@ || name == "log"@ || name == "pretty_env_logger"@ || name == "rand"@
        || name == "regex"@ || name == "serde_json"@ || name == "itertools"@ || name
        == "parking_lot"@ || name == "petgraph"@ || name == "quickcheck"@ || name
        == "quickcheck_macros"@ || name == "std"@ || name == "core"@ || name == "alloc"@ || name
        == "test"@
}

/// The name under which the authoring library itself is imported.
pub open spec fn is_own_namespace(name: Seq<char>) -> bool {
    name == "weblab"@
}

/// The verdict on an import that starts with `ident`: `Ok(true)` drops it,
/// `Ok(false)` keeps it.
pub open spec fn ident_verdict(ident: String) -> Result<bool, ImportError> {
    if is_own_namespace(ident@) {
        Ok(true)
    } else if allowed_crate(ident@) {
        Ok(false)
    } else if ident@ == "crate"@ {
        Err(ImportError::CrateRelative)
    } else if ident@ == "super"@ {
        Ok(false)
    } else {
        Err(ImportError::Forbidden(ident))
    }
}

/// The verdict on a whole `use` tree.
pub open spec fn drop_verdict(t: UseTree) -> Result<bool, ImportError>
    decreases t, 1nat, 0nat,
{
    match t {
        UseTree::Path { ident, tree: _ } => ident_verdict(ident),
        UseTree::Name { ident } => ident_verdict(ident),
        UseTree::Rename { ident, rename: _ } => ident_verdict(ident),
        UseTree::Glob => Ok(false),
        UseTree::Group { items } => match group_scan(t, items.len() as nat) {
            Err(e) => Err(e),
            Ok((all_dropped, all_kept)) => if all_dropped {
                Ok(true)
            } else if all_kept {
                Ok(false)
            } else {
                Err(ImportError::Mixed)
            },
        },
    }
}

/// For the first `n` members of a group: whether all are dropped and whether
/// all are kept, or the first member's error.
pub open spec fn group_scan(t: UseTree, n: nat) -> Result<(bool, bool), ImportError>
    decreases t, 0nat, n,
{
    match t {
        UseTree::Group { items } => if n == 0 || n > items.len() {
            Ok((true, true))
        } else {
            match group_scan(t, (n - 1) as nat) {
                Err(e) => Err(e),
                Ok((all_dropped, all_kept)) => match drop_verdict(items[n - 1]) {
                    Err(e) => Err(e),
                    Ok(b) => Ok((all_dropped && b, all_kept && !b)),
                },
            }
        },
        _ => Ok((true, true)),
    }
}

/// Whether `name` is one of the importable external crates.
pub fn is_allowed_crate(name: &String) -> (r: bool)
    ensures
        r == allowed_crate(name@),
{
    text_is(name, "serde") || text_is(name, "lazy_static") || text_is(name, "async-trait")
        || text_is(name, "futures") || text_is(name, "tokio") || text_is(name, "log")
        || text_is(name, "pretty_env_logger") || text_is(name, "rand") || text_is(name, "regex")
        || text_is(name, "serde_json") || text_is(name, "itertools") || text_is(
        name,
        "parking_lot",
    ) || text_is(name, "petgraph") || text_is(name, "quickcheck") || text_is(
        name,
        "quickcheck_macros",
    ) || text_is(name, "std") || text_is(name, "core") || text_is(name, "alloc") || text_is(
        name,
        "test",
    )
}

fn ident_should_drop(ident: &String) -> (r: Result<bool, ImportError>)
    ensures
        r == ident_verdict(*ident),
{
    if text_is(ident, "weblab") {
        Ok(true)
    } else if is_allowed_crate(ident) {
        Ok(false)
    } else if text_is(ident, "crate") {
        Err(ImportError::CrateRelative)
    } else if text_is(ident, "super") {
        Ok(false)
    } else {
        Err(ImportError::Forbidden(ident.clone()))
    }
}

/// Decides whether an import is dropped from exported code (`Ok(true)`),
/// kept (`Ok(false)`), or not allowed there at all.
pub fn should_drop(t: &UseTree) -> (r: Result<bool, ImportError>)
    ensures
        r == drop_verdict(*t),
    decreases t,
{
    match t {
        UseTree::Path { ident, tree: _ } => ident_should_drop(ident),
        UseTree::Name { ident } => ident_should_drop(ident),
        UseTree::Rename { ident, rename: _ } => ident_should_drop(ident),
        UseTree::Glob => Ok(false),
        UseTree::Group { items } => {
            let mut all_dropped = true;
            let mut all_kept = true;
            let mut i: usize = 0;
            while i < items.len()
                invariant
                    i <= items@.len(),
                    *t == (UseTree::Group { items: *items }),
                    group_scan(*t, i as nat) == Ok::<(bool, bool), ImportError>(
                        (all_dropped, all_kept),
                    ),
                decreases items@.len() - i,
            {
                match should_drop(&items[i]) {
                    Ok(b) => {
                        all_dropped = all_dropped && b;
                        all_kept = all_kept && !b;
                    },
                    Err(e) => {
                        proof {
                            lemma_group_scan_err_extends(*t, i as nat + 1);
                        }
                        return Err(e);
                    },
                }
                i = i + 1;
            }
            if all_dropped {
                Ok(true)
            } else if all_kept {
                Ok(false)
            } else {
                Err(ImportError::Mixed)
            }
        },
    }
}

proof fn lemma_group_scan_err_extends(t: UseTree, k: nat)
    requires
        t is Group,
        k <= t->Group_items@.len(),
        group_scan(t, k) is Err,
    ensures
        group_scan(t, t->Group_items@.len() as nat) == group_scan(t, k),
    decreases t->Group_items@.len() - k,
{
    if k < t->Group_items@.len() {
        lemma_group_scan_err_extends(t, k + 1);
    }
}

/// Every crate of the allow-list is kept as it is, under any of the three
/// import forms; and every other name but the project root, the parent scope
/// and the authoring library's own is refused.
pub proof fn lemma_import_legality(ident: String, rename: String, tree: Box<UseTree>)
    ensures
        allowed_crate(ident@) ==> {
            &&& drop_verdict(UseTree::Name { ident }) == Ok::<bool, ImportError>(false)
            &&& drop_verdict(UseTree::Path { ident, tree }) == Ok::<bool, ImportError>(false)
            &&& drop_verdict(UseTree::Rename { ident, rename }) == Ok::<bool, ImportError>(false)
        },
        !allowed_crate(ident@) && ident@ != "crate"@ && ident@ != "super"@ && !is_own_namespace(
            ident@,
        ) ==> {
            &&& drop_verdict(UseTree::Name { ident }) is Err
            &&& drop_verdict(UseTree::Path { ident, tree }) is Err
            &&& drop_verdict(UseTree::Rename { ident, rename }) is Err
        },
{
    reveal_strlit("weblab");
    reveal_strlit("serde");
    reveal_strlit("lazy_static");
    reveal_strlit("async-trait");
    reveal_strlit("futures");
    reveal_strlit("tokio");
    reveal_strlit("log");
    reveal_strlit("pretty_env_logger");
    reveal_strlit("rand");
    reveal_strlit("regex");
    reveal_strlit("serde_json");
    reveal_strlit("itertools");
    reveal_strlit("parking_lot");
    reveal_strlit("petgraph");
    reveal_strlit("quickcheck");
    reveal_strlit("quickcheck_macros");
    reveal_strlit("std");
    reveal_strlit("core");
    reveal_strlit("alloc");
    reveal_strlit("test");
    if allowed_crate(ident@) {
        assert(ident@.len() != "weblab"@.len());
    }
}

} // verus!
