//! Finding the project that encloses a directory, and adding worktrees to it.
use vstd::prelude::*;
use crate::command::{str_texts, texts};
use crate::error::ShakeError;
use crate::plan::{actions, push_step, run_at, Action, Operation, Plan, Step};

verus! {

/// `i` is the nearest level that holds a bare store, where `has_store[i]`
/// tells whether the directory `i` levels above the start holds one.
pub open spec fn is_nearest(has_store: Seq<bool>, i: int) -> bool {
    &&& 0 <= i < has_store.len()
    &&& has_store[i]
    &&& forall|j: int| 0 <= j < i ==> !has_store[j]
}

/// The number of levels to climb from the start to the project root: the
/// first level, walking upward, whose directory holds a bare store.
pub fn nearest_root(has_store: &Vec<bool>) -> (r: Option<usize>)
    ensures
        match r {
            Some(i) => is_nearest(has_store@, i as int),
            None => forall|i: int| 0 <= i < has_store@.len() ==> !has_store@[i],
        },
{
    let mut i: usize = 0;
    while i < has_store.len()
        invariant
            i <= has_store@.len(),
            forall|j: int| 0 <= j < i ==> !has_store@[j],
        decreases has_store@.len() - i,
    {
        if has_store[i] {
            return Some(i);
        }
        i = i + 1;
    }
    None
}

/// The root of the project enclosing `start`, a directory given by its
/// components from the filesystem root. `has_store[i]` tells whether the
/// directory `i` levels above `start` holds a bare store, up to the
/// filesystem root itself.
pub fn project_root(start: &Vec<String>, has_store: &Vec<bool>) -> (r: Result<Vec<String>, ShakeError>)
    requires
        has_store@.len() == start@.len() + 1,
    ensures
        match r {
            Ok(root) => {
                &&& root@.len() <= start@.len()
                &&& is_nearest(has_store@, start@.len() - root@.len())
                &&& texts(root@) == texts(start@).subrange(0, root@.len() as int)
            },
            Err(e) => {
                &&& e == ShakeError::NoEnclosingProject
                &&& forall|i: int| 0 <= i < has_store@.len() ==> !has_store@[i]
            },
        },
{
    match nearest_root(has_store) {
        None => Err(ShakeError::NoEnclosingProject),
        Some(up) => {
            let keep = start.len() - up;
            let mut root: Vec<String> = Vec::new();
            let mut k: usize = 0;
            while k < keep
                invariant
                    keep <= start@.len(),
                    k <= keep,
                    root@.len() == k,
                    forall|j: int| 0 <= j < k ==> #[trigger] root@[j]@ == start@[j]@,
                decreases keep - k,
            {
                root.push(start[k].clone());
                k = k + 1;
            }
            assert(texts(root@) =~= texts(start@).subrange(0, keep as int));
            Ok(root)
        },
    }
}

/// The command that adds the worktree for `branch`, run from the project root.
pub open spec fn checkout_argv(branch: Seq<char>, b: bool, force: bool) -> Seq<Seq<char>> {
    if !b {
        seq!["git"@, "worktree"@, "add"@, "-f"@, branch, branch]
    } else if force {
        seq!["git"@, "worktree"@, "add"@, "-B"@, branch, branch]
    } else {
        seq!["git"@, "worktree"@, "add"@, "-b"@, branch, branch]
    }
}

/// The plan, run from the project root, that adds the worktree `branch`:
/// for the existing branch of that name, or with `b` for a new branch,
/// which `force` lets replace an existing one.
pub fn checkout(branch: &str, b: bool, force: bool) -> (p: Plan)
    ensures
        p.operation == Operation::Checkout,
        p.actions() == seq![Action::Exec(seq![], checkout_argv(branch@, b, force))],
        p.scratch_from == p.scratch_until,
{
    let root: Vec<String> = Vec::new();
    assert(texts(root@) =~= seq![]);
    let step = if !b {
        let a = ["git", "worktree", "add", "-f", branch, branch];
        assert(str_texts(a@) =~= checkout_argv(branch@, b, force));
        run_at(&root, &a)
    } else if force {
        let a = ["git", "worktree", "add", "-B", branch, branch];
        assert(str_texts(a@) =~= checkout_argv(branch@, b, force));
        run_at(&root, &a)
    } else {
        let a = ["git", "worktree", "add", "-b", branch, branch];
        assert(str_texts(a@) =~= checkout_argv(branch@, b, force));
        run_at(&root, &a)
    };
    let mut steps: Vec<Step> = Vec::new();
    push_step(&mut steps, step);
    assert(actions(steps@) =~= seq![step@]);
    Plan { operation: Operation::Checkout, steps, scratch: Vec::new(), scratch_from: 0, scratch_until: 0 }
}

} // verus!
