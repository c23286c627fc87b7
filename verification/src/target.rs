//! The branch against which "merged" is judged.
//!
//! Where the user names none, the branch `main` is taken if it exists, else `master` if that
//! exists, else `main` all the same: the listing then fails by itself.
use vstd::prelude::*;
use vstd::string::StringExecFns;

verus! {

/// The target where the user named none, given which of `main` and `master` exist.
pub open spec fn default_target(main_exists: bool, master_exists: bool) -> Seq<char> {
    if main_exists {
        "main"@
    } else if master_exists {
        "master"@
    } else {
        "main"@
    }
}

/// The target: the branch that the user named, or else the default.
pub open spec fn resolved_target(
    supplied: Option<Seq<char>>,
    main_exists: bool,
    master_exists: bool,
) -> Seq<char> {
    match supplied {
        Some(name) => name,
        None => default_target(main_exists, master_exists),
    }
}

/// The target where the user named none.
pub fn default_branch(main_exists: bool, master_exists: bool) -> (target: String)
    ensures
        target@ == default_target(main_exists, master_exists),
{
    if !main_exists && master_exists {
        String::from_str("master")
    } else {
        String::from_str("main")
    }
}

/// The target of a run.
pub fn resolve_target(supplied: Option<String>, main_exists: bool, master_exists: bool) -> (target:
    String)
    ensures
        target@ == resolved_target(
            match supplied {
                Some(name) => Some(name@),
                None => None,
            },
            main_exists,
            master_exists,
        ),
{
    match supplied {
        Some(name) => name,
        None => default_branch(main_exists, master_exists),
    }
}

} // verus!
