use shake::command::CommandBuilder;
use shake::{checkout, nearest_root, project_root, Operation, ShakeError, Step};

fn parts(p: &[&str]) -> Vec<String> {
    p.iter().map(|s| s.to_string()).collect()
}

fn argv(step: &Step) -> Vec<String> {
    match step {
        Step::Run { dir, command } => {
            assert!(dir.is_empty());
            let mut v = vec![command.program.clone()];
            v.extend(command.args.iter().cloned());
            v
        }
        _ => panic!("not a command"),
    }
}

#[test]
fn discovery_from_nested_directory_finds_root() {
    // root/.git is a bare store; the walk starts in root/main/sub1/sub2.
    let start = parts(&["home", "root", "main", "sub1", "sub2"]);
    let has_store = vec![false, false, false, true, false, false];
    assert_eq!(project_root(&start, &has_store).unwrap(), parts(&["home", "root"]));
}

#[test]
fn discovery_at_root_itself() {
    let start = parts(&["root"]);
    assert_eq!(project_root(&start, &vec![true, false]).unwrap(), parts(&["root"]));
}

#[test]
fn discovery_picks_nearest_store() {
    let start = parts(&["a", "b", "c"]);
    assert_eq!(project_root(&start, &vec![false, true, true, false]).unwrap(), parts(&["a", "b"]));
    assert_eq!(nearest_root(&vec![false, true, true]), Some(1));
}

#[test]
fn discovery_outside_any_project() {
    let start = parts(&["tmp", "x"]);
    assert_eq!(project_root(&start, &vec![false, false, false]), Err(ShakeError::NoEnclosingProject));
    assert_eq!(nearest_root(&vec![]), None);
}

#[test]
fn checkout_existing_branch_forces_path_reuse() {
    let plan = checkout("feature", false, false);
    assert_eq!(plan.operation, Operation::Checkout);
    assert_eq!(argv(&plan.steps[0]), parts(&["git", "worktree", "add", "-f", "feature", "feature"]));
    assert!(plan.on_failure(0).0.is_empty());
}

#[test]
fn checkout_new_branch_without_force_refuses_collision() {
    let plan = checkout("feature", true, false);
    assert_eq!(argv(&plan.steps[0]), parts(&["git", "worktree", "add", "-b", "feature", "feature"]));
}

#[test]
fn checkout_new_branch_with_force_rebinds() {
    let plan = checkout("feature", true, true);
    assert_eq!(argv(&plan.steps[0]), parts(&["git", "worktree", "add", "-B", "feature", "feature"]));
    assert_eq!(argv(&checkout("x", false, true).steps[0]), parts(&["git", "worktree", "add", "-f", "x", "x"]));
}

#[test]
fn command_builder_collects_arguments() {
    let mut b = CommandBuilder::new();
    b.args(&["git", "worktree"]);
    b.arg("add");
    let c = b.into_command();
    assert_eq!(c.program, "git");
    assert_eq!(c.args, parts(&["worktree", "add"]));
}
