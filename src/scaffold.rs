//! Building a new project: a bare store, a first commit made in a staging
//! repository, and a first worktree named `main`.
use vstd::prelude::*;
use crate::command::{below, str_texts, texts};
use crate::plan::{actions, copy_path, lemma_add_assoc, lemma_add_push, push_step, run_at, Action, Operation, Plan, Step};

verus! {

/// The ecosystem initializers to run before the first commit.
#[derive(Debug, Clone, Copy, PartialEq, Eq, Structural)]
pub struct Bootstrap {
    pub cargo: bool,
    pub go: bool,
    pub lfs: bool,
    pub rye: bool,
    pub npm: bool,
    pub dotnet: bool,
}

#[derive(Debug, Clone, Copy, PartialEq, Eq, Structural)]
pub enum Ecosystem {
    Cargo,
    Go,
    Rye,
    Npm,
    Dotnet,
    Lfs,
}

impl Bootstrap {
    pub open spec fn enabled(self, e: Ecosystem) -> bool {
        match e {
            Ecosystem::Cargo => self.cargo,
            Ecosystem::Go => self.go,
            Ecosystem::Rye => self.rye,
            Ecosystem::Npm => self.npm,
            Ecosystem::Dotnet => self.dotnet,
            Ecosystem::Lfs => self.lfs,
        }
    }
}

/// The staging repository's directory under a project root.
pub open spec fn staging(root: Seq<Seq<char>>) -> Seq<Seq<char>> {
    root.push("temp"@)
}

/// The command that initializes an ecosystem in the staging repository.
pub open spec fn hook_argv(name: Seq<char>, e: Ecosystem) -> Seq<Seq<char>> {
    match e {
        Ecosystem::Cargo => seq!["cargo"@, "init"@],
        Ecosystem::Go => seq!["go"@, "mod"@, "init"@, "changeme/"@ + name],
        Ecosystem::Rye => seq!["rye"@, "init"@, "--script"@],
        Ecosystem::Npm => seq!["npm"@, "init"@, "-y"@],
        Ecosystem::Dotnet => seq!["dotnet"@, "new"@],
        Ecosystem::Lfs => seq!["git"@, "lfs"@, "install"@],
    }
}

pub open spec fn hook(root: Seq<Seq<char>>, name: Seq<char>, e: Ecosystem) -> Action {
    Action::Exec(staging(root), hook_argv(name, e))
}

pub open spec fn opt(on: bool, a: Action) -> Seq<Action> {
    if on {
        seq![a]
    } else {
        seq![]
    }
}

/// The initializers of the enabled ecosystems.
pub open spec fn hooks(root: Seq<Seq<char>>, name: Seq<char>, f: Bootstrap) -> Seq<Action> {
    opt(f.cargo, hook(root, name, Ecosystem::Cargo)) + opt(f.go, hook(root, name, Ecosystem::Go))
        + opt(f.rye, hook(root, name, Ecosystem::Rye)) + opt(f.npm, hook(root, name, Ecosystem::Npm))
        + opt(f.dotnet, hook(root, name, Ecosystem::Dotnet)) + opt(
        f.lfs,
        hook(root, name, Ecosystem::Lfs),
    )
}

pub open spec fn create_store(root: Seq<Seq<char>>) -> Action {
    Action::Exec(root, seq!["git"@, "init"@, "--bare"@, ".git"@, "--initial-branch"@, "main"@])
}

pub open spec fn readme(root: Seq<Seq<char>>) -> Action {
    Action::MakeFile(staging(root).push("README.md"@))
}

pub open spec fn commit(root: Seq<Seq<char>>) -> Action {
    Action::Exec(staging(root), seq!["git"@, "commit"@, "-m"@, "initial commit"@])
}

pub open spec fn add_main(root: Seq<Seq<char>>) -> Action {
    Action::Exec(root, seq!["git"@, "worktree"@, "add"@, "main"@])
}

/// The start of a scaffold: the store, the staging repository, the readme.
pub open spec fn scaffold_head(root: Seq<Seq<char>>) -> Seq<Action> {
    seq![
        create_store(root),
        Action::MakeDir(staging(root)),
        Action::Exec(staging(root), seq!["git"@, "init"@, "--initial-branch"@, "main"@]),
        readme(root),
    ]
}

/// The end of a scaffold, after the initializers: the first commit reaches the store, the
/// staging repository goes, the `main` worktree comes.
pub open spec fn scaffold_tail(root: Seq<Seq<char>>) -> Seq<Action> {
    seq![
        Action::Exec(staging(root), seq!["git"@, "add"@, "."@]),
        commit(root),
        Action::Exec(staging(root), seq!["git"@, "remote"@, "add"@, "origin"@, "../.git"@]),
        Action::Exec(staging(root), seq!["git"@, "push"@, "-u"@, "origin"@, "main"@]),
        Action::RemoveTree(staging(root)),
        add_main(root),
        Action::Exec(root.push("main"@), seq!["git"@, "remote"@, "remove"@, "origin"@]),
    ]
}

/// Everything that scaffolds the project rooted at `root`, named `name`.
pub open spec fn scaffold_actions(root: Seq<Seq<char>>, name: Seq<char>, f: Bootstrap) -> Seq<
    Action,
> {
    scaffold_head(root) + hooks(root, name, f) + scaffold_tail(root)
}

/// Position of the first commit in a scaffold.
pub open spec fn commit_at(root: Seq<Seq<char>>, name: Seq<char>, f: Bootstrap) -> int {
    4 + hooks(root, name, f).len() as int + 1
}

/// Position of the staging removal in a scaffold.
pub open spec fn staging_removal(root: Seq<Seq<char>>, name: Seq<char>, f: Bootstrap) -> int {
    4 + hooks(root, name, f).len() as int + 4
}

/// The staging directory under `root`.
fn staging_dir(root: &Vec<String>) -> (r: Vec<String>)
    ensures
        texts(r@) == staging(texts(root@)),
{
    let sub = ["temp"];
    let r = below(root, &sub);
    assert(texts(r@) =~= staging(texts(root@)));
    r
}

/// Appends the step for `e` when `on` holds.
fn add_hook(steps: &mut Vec<Step>, stage: &Vec<String>, name: &str, e: Ecosystem, on: bool)
    ensures
        actions(final(steps)@) == actions(old(steps)@) + opt(on, Action::Exec(texts(stage@), hook_argv(name@, e))),
{
    let ghost start = actions(steps@);
    if on {
        let step = match e {
            Ecosystem::Cargo => {
                let a = ["cargo", "init"];
                assert(str_texts(a@) =~= hook_argv(name@, e));
                run_at(stage, &a)
            },
            Ecosystem::Go => {
                let pkg = String::from_str("changeme/").concat(name);
                let a = ["go", "mod", "init", pkg.as_str()];
                assert(str_texts(a@) =~= hook_argv(name@, e));
                run_at(stage, &a)
            },
            Ecosystem::Rye => {
                let a = ["rye", "init", "--script"];
                assert(str_texts(a@) =~= hook_argv(name@, e));
                run_at(stage, &a)
            },
            Ecosystem::Npm => {
                let a = ["npm", "init", "-y"];
                assert(str_texts(a@) =~= hook_argv(name@, e));
                run_at(stage, &a)
            },
            Ecosystem::Dotnet => {
                let a = ["dotnet", "new"];
                assert(str_texts(a@) =~= hook_argv(name@, e));
                run_at(stage, &a)
            },
            Ecosystem::Lfs => {
                let a = ["git", "lfs", "install"];
                assert(str_texts(a@) =~= hook_argv(name@, e));
                run_at(stage, &a)
            },
        };
        push_step(steps, step);
        proof {
            lemma_add_push(start, seq![], step@);
            assert(seq![].push(step@) =~= seq![step@]);
        }
    } else {
        assert(start + seq![] =~= start);
    }
}

fn add_hooks(steps: &mut Vec<Step>, root: &Vec<String>, name: &str, f: Bootstrap)
    ensures
        actions(final(steps)@) == actions(old(steps)@) + hooks(texts(root@), name@, f),
{
    let ghost r = texts(root@);
    let ghost start = actions(steps@);
    let stage = staging_dir(root);
    let ghost o1 = opt(f.cargo, hook(r, name@, Ecosystem::Cargo));
    let ghost o2 = opt(f.go, hook(r, name@, Ecosystem::Go));
    let ghost o3 = opt(f.rye, hook(r, name@, Ecosystem::Rye));
    let ghost o4 = opt(f.npm, hook(r, name@, Ecosystem::Npm));
    let ghost o5 = opt(f.dotnet, hook(r, name@, Ecosystem::Dotnet));
    let ghost o6 = opt(f.lfs, hook(r, name@, Ecosystem::Lfs));
    add_hook(steps, &stage, name, Ecosystem::Cargo, f.cargo);
    add_hook(steps, &stage, name, Ecosystem::Go, f.go);
    proof { lemma_add_assoc(start, o1, o2); }
    add_hook(steps, &stage, name, Ecosystem::Rye, f.rye);
    proof { lemma_add_assoc(start, o1 + o2, o3); }
    add_hook(steps, &stage, name, Ecosystem::Npm, f.npm);
    proof { lemma_add_assoc(start, o1 + o2 + o3, o4); }
    add_hook(steps, &stage, name, Ecosystem::Dotnet, f.dotnet);
    proof { lemma_add_assoc(start, o1 + o2 + o3 + o4, o5); }
    add_hook(steps, &stage, name, Ecosystem::Lfs, f.lfs);
    proof { lemma_add_assoc(start, o1 + o2 + o3 + o4 + o5, o6); }
}

fn add_head(steps: &mut Vec<Step>, root: &Vec<String>, stage: &Vec<String>)
    requires
        texts(stage@) == staging(texts(root@)),
    ensures
        actions(final(steps)@) == actions(old(steps)@) + scaffold_head(texts(root@)),
{
    let ghost r = texts(root@);
    let ghost start = actions(steps@);
    let a = ["git", "init", "--bare", ".git", "--initial-branch", "main"];
    assert(str_texts(a@) =~= seq!["git"@, "init"@, "--bare"@, ".git"@, "--initial-branch"@, "main"@]);
    let s0 = run_at(root, &a);
    push_step(steps, s0);
    let s1 = Step::CreateDir { path: copy_path(stage) };
    push_step(steps, s1);
    let a = ["git", "init", "--initial-branch", "main"];
    assert(str_texts(a@) =~= seq!["git"@, "init"@, "--initial-branch"@, "main"@]);
    let s2 = run_at(stage, &a);
    push_step(steps, s2);
    let file = ["README.md"];
    let readme_path = below(stage, &file);
    assert(texts(readme_path@) =~= staging(r).push("README.md"@));
    let s3 = Step::CreateFile { path: readme_path };
    push_step(steps, s3);
    assert(actions(steps@) =~= start + seq![s0@, s1@, s2@, s3@]);
}

fn add_tail(steps: &mut Vec<Step>, root: &Vec<String>, stage: Vec<String>)
    requires
        texts(stage@) == staging(texts(root@)),
    ensures
        actions(final(steps)@) == actions(old(steps)@) + scaffold_tail(texts(root@)),
{
    let ghost r = texts(root@);
    let ghost start = actions(steps@);
    let a = ["git", "add", "."];
    assert(str_texts(a@) =~= seq!["git"@, "add"@, "."@]);
    let s0 = run_at(&stage, &a);
    let a = ["git", "commit", "-m", "initial commit"];
    assert(str_texts(a@) =~= seq!["git"@, "commit"@, "-m"@, "initial commit"@]);
    let s1 = run_at(&stage, &a);
    let a = ["git", "remote", "add", "origin", "../.git"];
    assert(str_texts(a@) =~= seq!["git"@, "remote"@, "add"@, "origin"@, "../.git"@]);
    let s2 = run_at(&stage, &a);
    let a = ["git", "push", "-u", "origin", "main"];
    assert(str_texts(a@) =~= seq!["git"@, "push"@, "-u"@, "origin"@, "main"@]);
    let s3 = run_at(&stage, &a);
    let s4 = Step::RemoveDirAll { path: stage };
    let a = ["git", "worktree", "add", "main"];
    assert(str_texts(a@) =~= seq!["git"@, "worktree"@, "add"@, "main"@]);
    let s5 = run_at(root, &a);
    let sub = ["main"];
    let main_dir = below(root, &sub);
    assert(texts(main_dir@) =~= r.push("main"@));
    let a = ["git", "remote", "remove", "origin"];
    assert(str_texts(a@) =~= seq!["git"@, "remote"@, "remove"@, "origin"@]);
    let s6 = run_at(&main_dir, &a);
    let ghost tail = seq![s0@, s1@, s2@, s3@, s4@, s5@, s6@];
    assert(tail =~= scaffold_tail(r));
    push_step(steps, s0);
    push_step(steps, s1);
    push_step(steps, s2);
    push_step(steps, s3);
    push_step(steps, s4);
    push_step(steps, s5);
    push_step(steps, s6);
    assert(actions(steps@) =~= start + tail);
}

/// The scaffold steps for the project rooted at `root`, appended to `steps`.
fn add_scaffold(steps: &mut Vec<Step>, root: &Vec<String>, name: &str, f: Bootstrap)
    ensures
        actions(final(steps)@) == actions(old(steps)@) + scaffold_actions(texts(root@), name@, f),
{
    let ghost r = texts(root@);
    let ghost start = actions(steps@);
    let stage = staging_dir(root);
    add_head(steps, root, &stage);
    add_hooks(steps, root, name, f);
    proof { lemma_add_assoc(start, scaffold_head(r), hooks(r, name@, f)); }
    add_tail(steps, root, stage);
    proof { lemma_add_assoc(start, scaffold_head(r) + hooks(r, name@, f), scaffold_tail(r)); }
}

/// The plan that scaffolds a project in the directory it starts from, whose
/// name is `name`. A failure while the staging repository exists removes it.
pub fn init(name: &str, flags: Bootstrap) -> (p: Plan)
    ensures
        p.operation == Operation::Init,
        p.actions() == scaffold_actions(seq![], name@, flags),
        texts(p.scratch@) == staging(seq![]),
        p.scratch_from == 2,
        p.scratch_until == staging_removal(seq![], name@, flags),
{
    let root: Vec<String> = Vec::new();
    assert(texts(root@) =~= seq![]);
    let mut steps: Vec<Step> = Vec::new();
    add_scaffold(&mut steps, &root, name, flags);
    assert(actions(steps@) =~= scaffold_actions(seq![], name@, flags));
    let until = steps.len() - 3;
    Plan {
        operation: Operation::Init,
        steps,
        scratch: staging_dir(&root),
        scratch_from: 2,
        scratch_until: until,
    }
}

/// The plan that creates the directory `name` and scaffolds a project named
/// `name` in it. A failure while the staging repository exists removes it.
pub fn new(name: &str, flags: Bootstrap) -> (p: Plan)
    ensures
        p.operation == Operation::New,
        p.actions() == seq![Action::MakeDir(seq![name@])] + scaffold_actions(
            seq![name@],
            name@,
            flags,
        ),
        texts(p.scratch@) == staging(seq![name@]),
        p.scratch_from == 3,
        p.scratch_until == 1 + staging_removal(seq![name@], name@, flags),
{
    let mut root: Vec<String> = Vec::new();
    root.push(String::from_str(name));
    assert(texts(root@) =~= seq![name@]);
    let mut steps: Vec<Step> = Vec::new();
    push_step(&mut steps, Step::CreateDir { path: copy_path(&root) });
    add_scaffold(&mut steps, &root, name, flags);
    assert(actions(steps@) =~= seq![Action::MakeDir(seq![name@])] + scaffold_actions(
        seq![name@],
        name@,
        flags,
    ));
    assert(actions(steps@).len() == steps@.len());
    let until = steps.len() - 3;
    Plan {
        operation: Operation::New,
        steps,
        scratch: staging_dir(&root),
        scratch_from: 3,
        scratch_until: until,
    }
}

proof fn lemma_contains_add(s: Seq<Action>, t: Seq<Action>, x: Action)
    ensures
        (s + t).contains(x) <==> s.contains(x) || t.contains(x),
{
    if (s + t).contains(x) {
        let i = choose|i: int| 0 <= i < (s + t).len() && (s + t)[i] == x;
        if i >= s.len() {
            assert(t[i - s.len()] == x);
        }
    }
    if s.contains(x) {
        let i = choose|i: int| 0 <= i < s.len() && s[i] == x;
        assert((s + t)[i] == x);
    }
    if t.contains(x) {
        let i = choose|i: int| 0 <= i < t.len() && t[i] == x;
        assert((s + t)[s.len() + i] == x);
    }
}

proof fn lemma_programs_differ()
    ensures
        "git"@ != "cargo"@,
        "git"@ != "go"@,
        "git"@ != "rye"@,
        "git"@ != "npm"@,
        "git"@ != "dotnet"@,
        "cargo"@ != "go"@,
        "cargo"@ != "rye"@,
        "cargo"@ != "npm"@,
        "cargo"@ != "dotnet"@,
        "go"@ != "rye"@,
        "go"@ != "npm"@,
        "go"@ != "dotnet"@,
        "rye"@ != "npm"@,
        "rye"@ != "dotnet"@,
        "npm"@ != "dotnet"@,
        "add"@ != "lfs"@,
{
    reveal_strlit("git");
    reveal_strlit("cargo");
    reveal_strlit("go");
    reveal_strlit("rye");
    reveal_strlit("npm");
    reveal_strlit("dotnet");
    reveal_strlit("add");
    reveal_strlit("lfs");
    assert("git"@[1] != "go"@[1]);
    assert("git"@[0] != "cargo"@[0]);
    assert("git"@[0] != "rye"@[0]);
    assert("git"@[0] != "npm"@[0]);
    assert("git"@[0] != "dotnet"@[0]);
    assert("cargo"@[0] != "go"@[0]);
    assert("cargo"@[0] != "rye"@[0]);
    assert("cargo"@[0] != "npm"@[0]);
    assert("cargo"@[0] != "dotnet"@[0]);
    assert("go"@[0] != "rye"@[0]);
    assert("go"@[0] != "npm"@[0]);
    assert("go"@[0] != "dotnet"@[0]);
    assert("rye"@[0] != "npm"@[0]);
    assert("rye"@[0] != "dotnet"@[0]);
    assert("npm"@[0] != "dotnet"@[0]);
    assert("add"@[0] != "lfs"@[0]);
}

proof fn lemma_hooks_distinct(name: Seq<char>, e1: Ecosystem, e2: Ecosystem)
    ensures
        hook_argv(name, e1) == hook_argv(name, e2) ==> e1 == e2,
{
    lemma_programs_differ();
    if hook_argv(name, e1) == hook_argv(name, e2) {
        assert(hook_argv(name, e1)[0] == hook_argv(name, e2)[0]);
    }
}

/// No step of a scaffold outside the initializers is the initializer of `e`.
proof fn lemma_hook_only_in_hooks(root: Seq<Seq<char>>, name: Seq<char>, e: Ecosystem)
    ensures
        !scaffold_head(root).contains(hook(root, name, e)),
        !scaffold_tail(root).contains(hook(root, name, e)),
{
    lemma_programs_differ();
    let h = hook(root, name, e);
    assert(staging(root).len() != root.len());
    assert(root.push("main"@).len() != staging(root).len() || root.push("main"@) != staging(root))
        by {
        reveal_strlit("main");
        reveal_strlit("temp");
        assert("main"@[0] != "temp"@[0]);
        assert(root.push("main"@).last() != staging(root).last());
    }
    let hd = scaffold_head(root);
    assert forall|i: int| 0 <= i < hd.len() implies hd[i] != h by {
        if i == 2 {
            assert(hd[2]->Exec_1[0] == "git"@);
            if e == Ecosystem::Lfs {
                reveal_strlit("init");
                reveal_strlit("lfs");
                assert(hd[2]->Exec_1[1] != h->Exec_1[1]) by {
                    assert("init"@[0] != "lfs"@[0]);
                }
            }
        }
    }
    let tl = scaffold_tail(root);
    assert forall|i: int| 0 <= i < tl.len() implies tl[i] != h by {
        if i < 2 {
            let t = tl[i]->Exec_1;
            let g = hook_argv(name, e);
            if t.len() == g.len() && t[0] == g[0] {
                assert(i == 0 && e == Ecosystem::Lfs);
                assert(t[1] != g[1]);
            }
        }
    }
}

/// The initializers of exactly the enabled ecosystems.
proof fn lemma_hooks_select(root: Seq<Seq<char>>, name: Seq<char>, f: Bootstrap, e: Ecosystem)
    ensures
        hooks(root, name, f).contains(hook(root, name, e)) <==> f.enabled(e),
{
    let x = hook(root, name, e);
    let o1 = opt(f.cargo, hook(root, name, Ecosystem::Cargo));
    let o2 = opt(f.go, hook(root, name, Ecosystem::Go));
    let o3 = opt(f.rye, hook(root, name, Ecosystem::Rye));
    let o4 = opt(f.npm, hook(root, name, Ecosystem::Npm));
    let o5 = opt(f.dotnet, hook(root, name, Ecosystem::Dotnet));
    let o6 = opt(f.lfs, hook(root, name, Ecosystem::Lfs));
    lemma_contains_add(o1 + o2 + o3 + o4 + o5, o6, x);
    lemma_contains_add(o1 + o2 + o3 + o4, o5, x);
    lemma_contains_add(o1 + o2 + o3, o4, x);
    lemma_contains_add(o1 + o2, o3, x);
    lemma_contains_add(o1, o2, x);
    lemma_hooks_distinct(name, e, Ecosystem::Cargo);
    lemma_hooks_distinct(name, e, Ecosystem::Go);
    lemma_hooks_distinct(name, e, Ecosystem::Rye);
    lemma_hooks_distinct(name, e, Ecosystem::Npm);
    lemma_hooks_distinct(name, e, Ecosystem::Dotnet);
    lemma_hooks_distinct(name, e, Ecosystem::Lfs);
    assert(o1.contains(x) <==> f.cargo && e == Ecosystem::Cargo) by {
        if o1.contains(x) { assert(o1[0] == x); }
        if f.cargo && e == Ecosystem::Cargo { assert(o1[0] == x); }
    }
    assert(o2.contains(x) <==> f.go && e == Ecosystem::Go) by {
        if o2.contains(x) { assert(o2[0] == x); }
        if f.go && e == Ecosystem::Go { assert(o2[0] == x); }
    }
    assert(o3.contains(x) <==> f.rye && e == Ecosystem::Rye) by {
        if o3.contains(x) { assert(o3[0] == x); }
        if f.rye && e == Ecosystem::Rye { assert(o3[0] == x); }
    }
    assert(o4.contains(x) <==> f.npm && e == Ecosystem::Npm) by {
        if o4.contains(x) { assert(o4[0] == x); }
        if f.npm && e == Ecosystem::Npm { assert(o4[0] == x); }
    }
    assert(o5.contains(x) <==> f.dotnet && e == Ecosystem::Dotnet) by {
        if o5.contains(x) { assert(o5[0] == x); }
        if f.dotnet && e == Ecosystem::Dotnet { assert(o5[0] == x); }
    }
    assert(o6.contains(x) <==> f.lfs && e == Ecosystem::Lfs) by {
        if o6.contains(x) { assert(o6[0] == x); }
        if f.lfs && e == Ecosystem::Lfs { assert(o6[0] == x); }
    }
}

/// Each ecosystem's initializer is in a scaffold exactly when its flag is
/// set, whatever the other flags are, and it runs after the readme is
/// written and before the first commit, so that what it creates is committed.
pub proof fn bootstrap_selection(root: Seq<Seq<char>>, name: Seq<char>, f: Bootstrap, e: Ecosystem)
    ensures
        scaffold_actions(root, name, f).contains(hook(root, name, e)) <==> f.enabled(e),
        scaffold_actions(root, name, f)[3] == readme(root),
        scaffold_actions(root, name, f)[commit_at(root, name, f)] == commit(root),
        forall|i: int|
            0 <= i < scaffold_actions(root, name, f).len() && scaffold_actions(root, name, f)[i]
                == hook(root, name, e) ==> 3 < i < commit_at(root, name, f),
{
    let hd = scaffold_head(root);
    let hs = hooks(root, name, f);
    let tl = scaffold_tail(root);
    let a = scaffold_actions(root, name, f);
    let x = hook(root, name, e);
    lemma_contains_add(hd + hs, tl, x);
    lemma_contains_add(hd, hs, x);
    lemma_hook_only_in_hooks(root, name, e);
    lemma_hooks_select(root, name, f, e);
    assert(a[3] == hd[3]);
    assert(a[commit_at(root, name, f)] == tl[1]);
    assert forall|i: int| 0 <= i < a.len() && a[i] == x implies 3 < i < commit_at(root, name, f) by {
        if i < 4 {
            assert(hd[i] == x);
        } else if i >= 4 + hs.len() {
            assert(tl[i - 4 - hs.len()] == x);
            if i == commit_at(root, name, f) {
                assert(tl[1] == x);
            }
        }
    }
}

/// `p` is the directory `d` or lies below it.
pub open spec fn under(p: Seq<Seq<char>>, d: Seq<Seq<char>>) -> bool {
    d.len() <= p.len() && p.subrange(0, d.len() as int) == d
}

/// The action reads or writes in the directory `d` or below it.
pub open spec fn touches(a: Action, d: Seq<Seq<char>>) -> bool {
    match a {
        Action::MakeDir(p) => under(p, d),
        Action::MakeFile(p) => under(p, d),
        Action::RemoveTree(p) => under(p, d),
        Action::Exec(dir, _) => under(dir, d),
    }
}

pub open spec fn all_staged(s: Seq<Action>, root: Seq<Seq<char>>) -> bool {
    forall|j: int| 0 <= j < s.len() ==> #[trigger] s[j] is Exec && s[j]->Exec_0 == staging(root)
}

proof fn lemma_all_staged_add(s: Seq<Action>, t: Seq<Action>, root: Seq<Seq<char>>)
    requires
        all_staged(s, root),
        all_staged(t, root),
    ensures
        all_staged(s + t, root),
{
    assert forall|j: int| 0 <= j < (s + t).len() implies #[trigger] (s + t)[j] is Exec && (s
        + t)[j]->Exec_0 == staging(root) by {
        if j >= s.len() {
            assert((s + t)[j] == t[j - s.len()]);
        }
    }
}

proof fn lemma_hooks_staged(root: Seq<Seq<char>>, name: Seq<char>, f: Bootstrap)
    ensures
        all_staged(hooks(root, name, f), root),
{
    let o1 = opt(f.cargo, hook(root, name, Ecosystem::Cargo));
    let o2 = opt(f.go, hook(root, name, Ecosystem::Go));
    let o3 = opt(f.rye, hook(root, name, Ecosystem::Rye));
    let o4 = opt(f.npm, hook(root, name, Ecosystem::Npm));
    let o5 = opt(f.dotnet, hook(root, name, Ecosystem::Dotnet));
    let o6 = opt(f.lfs, hook(root, name, Ecosystem::Lfs));
    lemma_all_staged_add(o1, o2, root);
    lemma_all_staged_add(o1 + o2, o3, root);
    lemma_all_staged_add(o1 + o2 + o3, o4, root);
    lemma_all_staged_add(o1 + o2 + o3 + o4, o5, root);
    lemma_all_staged_add(o1 + o2 + o3 + o4 + o5, o6, root);
}

/// A scaffold creates the bare store once, as its first step, and adds the
/// `main` worktree once, as its next to last step. Before that the staging
/// repository, where the readme was written and committed, has been removed,
/// and no later step touches it again.
pub proof fn scaffold_layout(root: Seq<Seq<char>>, name: Seq<char>, f: Bootstrap)
    ensures
        ({
            let a = scaffold_actions(root, name, f);
            &&& forall|i: int| 0 <= i < a.len() ==> (a[i] == create_store(root) <==> i == 0)
            &&& forall|i: int| 0 <= i < a.len() ==> (a[i] == add_main(root) <==> i == a.len() - 2)
            &&& a[3] == readme(root)
            &&& a[commit_at(root, name, f)] == commit(root)
            &&& a[staging_removal(root, name, f)] == Action::RemoveTree(staging(root))
            &&& commit_at(root, name, f) < staging_removal(root, name, f) < a.len() - 2
            &&& forall|i: int|
                staging_removal(root, name, f) < i < a.len() ==> !touches(a[i], staging(root))
        }),
{
    let hd = scaffold_head(root);
    let hs = hooks(root, name, f);
    let tl = scaffold_tail(root);
    let a = scaffold_actions(root, name, f);
    lemma_hooks_staged(root, name, f);
    assert(a.len() == 11 + hs.len());
    assert(create_store(root)->Exec_1 != add_main(root)->Exec_1) by {
        assert(create_store(root)->Exec_1.len() != add_main(root)->Exec_1.len());
    }
    reveal_strlit("main");
    reveal_strlit("temp");
    assert("main"@[0] != "temp"@[0]);
    assert(root.push("main"@) != staging(root)) by {
        assert(root.push("main"@).last() != staging(root).last());
    }
    assert(staging(root) != root) by {
        assert(staging(root).len() != root.len());
    }
    assert forall|i: int| 0 <= i < a.len() implies (a[i] == create_store(root) <==> i == 0) by {
        if i < 4 {
            assert(a[i] == hd[i]);
        } else if 4 <= i < 4 + hs.len() {
            assert(a[i] == hs[i - 4]);
        } else if i >= 4 + hs.len() {
            assert(a[i] == tl[i - 4 - hs.len()]);
            if i - 4 - hs.len() == 6 {
                assert(root.push("main"@).len() != root.len());
            }
        }
    }
    assert forall|i: int| 0 <= i < a.len() implies (a[i] == add_main(root) <==> i == a.len() - 2)
        by {
        if i < 4 {
            assert(a[i] == hd[i]);
        } else if 4 <= i < 4 + hs.len() {
            assert(a[i] == hs[i - 4]);
        } else if i >= 4 + hs.len() {
            assert(a[i] == tl[i - 4 - hs.len()]);
            if i - 4 - hs.len() == 6 {
                assert(root.push("main"@).len() != root.len());
            }
        }
    }
    assert(a[3] == hd[3]);
    assert(a[commit_at(root, name, f)] == tl[1]);
    assert(a[staging_removal(root, name, f)] == tl[4]);
    assert forall|i: int| staging_removal(root, name, f) < i < a.len() implies !touches(
        a[i],
        staging(root),
    ) by {
        assert(a[i] == tl[i - 4 - hs.len()]);
        if i == a.len() - 1 {
            assert(root.push("main"@).subrange(0, staging(root).len() as int) =~= root.push(
                "main"@,
            ));
        }
    }
}

/// The staging repository of a scaffold never outlives it: when a step fails
/// after the staging directory was made and before the step that removes it,
/// the recovery removes it; a failure elsewhere removes nothing.
pub proof fn staging_is_transient(p: Plan, name: Seq<char>, f: Bootstrap, k: int)
    requires
        p.operation == Operation::Init,
        p.actions() == scaffold_actions(seq![], name, f),
        texts(p.scratch@) == staging(seq![]),
        p.scratch_from == 2,
        p.scratch_until == staging_removal(seq![], name, f),
        0 <= k < p.actions().len(),
    ensures
        p.actions()[1] == Action::MakeDir(staging(seq![])),
        p.actions()[staging_removal(seq![], name, f)] == Action::RemoveTree(staging(seq![])),
        1 < k < staging_removal(seq![], name, f) ==> p.recovery(k) == seq![
            Action::RemoveTree(staging(seq![])),
        ],
        !(1 < k < staging_removal(seq![], name, f)) ==> p.recovery(k) == Seq::<Action>::empty(),
{
    let root = Seq::<Seq<char>>::empty();
    let a = p.actions();
    assert(a[1] == scaffold_head(root)[1]);
    assert(a[staging_removal(root, name, f)] == scaffold_tail(root)[4]);
}

} // verus!
