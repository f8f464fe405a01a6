use shake::{init, new, Bootstrap, Operation, Plan, ShakeError, Step};

fn flags(cargo: bool, go: bool, lfs: bool, rye: bool, npm: bool, dotnet: bool) -> Bootstrap {
    Bootstrap { cargo, go, lfs, rye, npm, dotnet }
}

fn none() -> Bootstrap {
    flags(false, false, false, false, false, false)
}

fn render(step: &Step) -> String {
    match step {
        Step::CreateDir { path } => format!("mkdir {}", path.join("/")),
        Step::CreateFile { path } => format!("touch {}", path.join("/")),
        Step::RemoveDirAll { path } => format!("rm -r {}", path.join("/")),
        Step::Run { dir, command } => {
            let mut s = format!("[{}] {}", dir.join("/"), command.program);
            for a in &command.args {
                s.push(' ');
                s.push_str(a);
            }
            s
        }
    }
}

fn rendered(plan: &Plan) -> Vec<String> {
    plan.steps.iter().map(render).collect()
}

#[test]
fn test_init() {
    let plan = init("test_init", none());
    assert_eq!(plan.operation, Operation::Init);
    assert_eq!(
        rendered(&plan),
        vec![
            "[] git init --bare .git --initial-branch main",
            "mkdir temp",
            "[temp] git init --initial-branch main",
            "touch temp/README.md",
            "[temp] git add .",
            "[temp] git commit -m initial commit",
            "[temp] git remote add origin ../.git",
            "[temp] git push -u origin main",
            "rm -r temp",
            "[] git worktree add main",
            "[main] git remote remove origin",
        ]
    );
}

#[test]
fn test_new() {
    let plan = new("test_new", none());
    assert_eq!(plan.operation, Operation::New);
    let r = rendered(&plan);
    assert_eq!(r.len(), 12);
    assert_eq!(r[0], "mkdir test_new");
    assert_eq!(r[1], "[test_new] git init --bare .git --initial-branch main");
    assert_eq!(r[4], "touch test_new/temp/README.md");
    assert_eq!(r[9], "rm -r test_new/temp");
    assert_eq!(r[10], "[test_new] git worktree add main");
    assert_eq!(r[11], "[test_new/main] git remote remove origin");
}

#[test]
fn test_cargo() {
    let plan = new("test_cargo", flags(true, false, false, false, false, false));
    let r = rendered(&plan);
    assert_eq!(r.len(), 13);
    assert_eq!(r[5], "[test_cargo/temp] cargo init");
    assert_eq!(r[6], "[test_cargo/temp] git add .");
}

#[test]
fn go_module_is_named_after_project() {
    let plan = init("widget", flags(false, true, false, false, false, false));
    assert_eq!(rendered(&plan)[4], "[temp] go mod init changeme/widget");
}

#[test]
fn every_flag_in_order_before_commit() {
    let plan = init("p", flags(true, true, true, true, true, true));
    let r = rendered(&plan);
    assert_eq!(
        r[4..10].to_vec(),
        vec![
            "[temp] cargo init",
            "[temp] go mod init changeme/p",
            "[temp] rye init --script",
            "[temp] npm init -y",
            "[temp] dotnet new",
            "[temp] git lfs install",
        ]
    );
    assert_eq!(r[11], "[temp] git commit -m initial commit");
}

#[test]
fn each_flag_alone_adds_only_its_initializer() {
    let expected = [
        "[temp] cargo init",
        "[temp] go mod init changeme/p",
        "[temp] git lfs install",
        "[temp] rye init --script",
        "[temp] npm init -y",
        "[temp] dotnet new",
    ];
    for k in 0..6 {
        let mut on = [false; 6];
        on[k] = true;
        let plan = init("p", flags(on[0], on[1], on[2], on[3], on[4], on[5]));
        let r = rendered(&plan);
        assert_eq!(r.len(), 12);
        assert_eq!(r[4], expected[k]);
        for (j, e) in expected.iter().enumerate() {
            if j != k {
                assert!(!r.contains(&e.to_string()));
            }
        }
    }
}

#[test]
fn init_failure_in_staging_removes_it() {
    let plan = init("p", none());
    let (undo, err) = plan.on_failure(4);
    assert_eq!(err, ShakeError::StepFailed { step: 4 });
    assert_eq!(undo.iter().map(render).collect::<Vec<_>>(), vec!["rm -r temp"]);
}

#[test]
fn init_failure_before_staging_removes_nothing() {
    let plan = init("p", none());
    assert!(plan.on_failure(0).0.is_empty());
    assert!(plan.on_failure(1).0.is_empty());
}

#[test]
fn init_failure_after_staging_removed_keeps_project() {
    let plan = init("p", none());
    let (undo, err) = plan.on_failure(9);
    assert!(undo.is_empty());
    assert_eq!(err, ShakeError::StepFailed { step: 9 });
    assert!(plan.on_failure(8).0.is_empty());
    assert_eq!(plan.on_failure(7).0.len(), 1);
}

#[test]
fn new_failure_in_staging_removes_nested_staging() {
    let plan = new("p", flags(false, false, false, false, true, false));
    let (undo, _) = plan.on_failure(5);
    assert_eq!(undo.iter().map(render).collect::<Vec<_>>(), vec!["rm -r p/temp"]);
    assert!(plan.on_failure(2).0.is_empty());
}
