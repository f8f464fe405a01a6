use shake::{clone, Operation, ShakeError, Step};

fn render(step: &Step) -> String {
    match step {
        Step::CreateDir { path } => format!("mkdir {}", path.join("/")),
        Step::CreateFile { path } => format!("touch {}", path.join("/")),
        Step::RemoveDirAll { path } => format!("rm -r {}", path.join("/")),
        Step::Run { dir, command } => format!("[{}] {} {}", dir.join("/"), command.program, command.args.join(" ")),
    }
}

#[test]
fn clone_plan_for_default_branch() {
    let plan = clone("git@github.com:user/repo.git", "main").unwrap();
    assert_eq!(plan.operation, Operation::Clone);
    assert_eq!(
        plan.steps.iter().map(render).collect::<Vec<_>>(),
        vec![
            "mkdir repo",
            "[repo] git clone --bare git@github.com:user/repo.git .git",
            "[repo] git worktree add main",
        ]
    );
}

#[test]
fn clone_plan_for_other_branch() {
    let plan = clone("host:team/tool", "dev").unwrap();
    assert_eq!(render(&plan.steps[2]), "[tool] git worktree add dev");
}

#[test]
fn clone_of_malformed_uri_plans_nothing() {
    assert!(matches!(clone("nocolon", "main"), Err(ShakeError::InvalidUri)));
    assert!(matches!(clone("host:noslash", "main"), Err(ShakeError::InvalidUri)));
}

#[test]
fn failed_clone_removes_project_directory() {
    let plan = clone("host:u/unreachable.git", "main").unwrap();
    let (undo, err) = plan.on_failure(1);
    assert_eq!(err, ShakeError::CloneFailed);
    assert_eq!(undo.iter().map(render).collect::<Vec<_>>(), vec!["rm -r unreachable"]);
}

#[test]
fn failed_worktree_removes_project_directory() {
    let plan = clone("host:u/r.git", "missing").unwrap();
    let (undo, err) = plan.on_failure(2);
    assert_eq!(err, ShakeError::WorktreeFailed);
    assert_eq!(undo.iter().map(render).collect::<Vec<_>>(), vec!["rm -r r"]);
}

#[test]
fn failed_mkdir_removes_nothing() {
    let plan = clone("host:u/r.git", "main").unwrap();
    let (undo, err) = plan.on_failure(0);
    assert!(undo.is_empty());
    assert_eq!(err, ShakeError::StepFailed { step: 0 });
}
