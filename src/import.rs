//! Importing a remote repository as a project: a bare clone beside one
//! worktree for the requested branch.
use vstd::prelude::*;
use crate::command::{str_texts, texts};
use crate::error::ShakeError;
use crate::plan::{actions, copy_path, push_step, run_at, Action, Operation, Plan, Step};
use crate::remote::{project_name, project_name_of};

verus! {

/// The steps that import `uri` into the directory `name` with a worktree for `branch`.
pub open spec fn clone_actions(name: Seq<char>, uri: Seq<char>, branch: Seq<char>) -> Seq<Action> {
    seq![
        Action::MakeDir(seq![name]),
        Action::Exec(seq![name], seq!["git"@, "clone"@, "--bare"@, uri, ".git"@]),
        Action::Exec(seq![name], seq!["git"@, "worktree"@, "add"@, branch]),
    ]
}

/// The plan that imports the remote `uri` with a first worktree for `branch`.
/// Fails with `InvalidUri`, before any step, when `uri` names no project.
/// A failure of the clone or of the worktree removes the project directory.
pub fn clone(uri: &str, branch: &str) -> (r: Result<Plan, ShakeError>)
    ensures
        match r {
            Ok(p) => {
                &&& project_name_of(uri@) is Some
                &&& p.operation == Operation::Clone
                &&& p.actions() == clone_actions(project_name_of(uri@)->0, uri@, branch@)
                &&& texts(p.scratch@) == seq![project_name_of(uri@)->0]
                &&& p.scratch_from == 1
                &&& p.scratch_until == 3
            },
            Err(e) => project_name_of(uri@) is None && e == ShakeError::InvalidUri,
        },
{
    let name = match project_name(uri) {
        Ok(n) => n,
        Err(e) => return Err(e),
    };
    let mut dir: Vec<String> = Vec::new();
    dir.push(name);
    let ghost n = project_name_of(uri@)->0;
    assert(texts(dir@) =~= seq![n]);
    let mut steps: Vec<Step> = Vec::new();
    let s0 = Step::CreateDir { path: copy_path(&dir) };
    let a = ["git", "clone", "--bare", uri, ".git"];
    assert(str_texts(a@) =~= seq!["git"@, "clone"@, "--bare"@, uri@, ".git"@]);
    let s1 = run_at(&dir, &a);
    let a = ["git", "worktree", "add", branch];
    assert(str_texts(a@) =~= seq!["git"@, "worktree"@, "add"@, branch@]);
    let s2 = run_at(&dir, &a);
    push_step(&mut steps, s0);
    push_step(&mut steps, s1);
    push_step(&mut steps, s2);
    assert(actions(steps@) =~= clone_actions(n, uri@, branch@));
    Ok(Plan { operation: Operation::Clone, steps, scratch: dir, scratch_from: 1, scratch_until: 3 })
}

/// When a step of an import fails, each directory that the steps before it
/// created is removed again, and nothing else is removed: no project
/// directory is left behind. A failed clone and a failed worktree are told apart.
pub proof fn clone_failure_cleanup(p: Plan, uri: Seq<char>, branch: Seq<char>, k: int)
    requires
        project_name_of(uri) is Some,
        p.operation == Operation::Clone,
        p.actions() == clone_actions(project_name_of(uri)->0, uri, branch),
        texts(p.scratch@) == seq![project_name_of(uri)->0],
        p.scratch_from == 1,
        p.scratch_until == 3,
        0 <= k < p.actions().len(),
    ensures
        forall|i: int|
            0 <= i < k && #[trigger] p.actions()[i] is MakeDir ==> p.recovery(k) == seq![
                Action::RemoveTree(p.actions()[i]->MakeDir_0),
            ],
        forall|i: int| 0 <= i < k ==> !(#[trigger] p.actions()[i] is RemoveTree),
        k == 0 ==> p.recovery(k).len() == 0,
        k == 1 ==> p.failure(k) == ShakeError::CloneFailed,
        k == 2 ==> p.failure(k) == ShakeError::WorktreeFailed,
{
    let a = p.actions();
    assert(a.len() == 3);
    assert forall|i: int| 0 <= i < k && #[trigger] a[i] is MakeDir implies p.recovery(k) == seq![
        Action::RemoveTree(a[i]->MakeDir_0),
    ] by {
        assert(i == 0);
    }
}

} // verus!
