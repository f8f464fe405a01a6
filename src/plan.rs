//! An operation as an ordered list of steps, and what to do when one fails.
use vstd::prelude::*;
use crate::command::{below, str_texts, texts, Command, CommandBuilder};
use crate::error::ShakeError;

verus! {

/// Directories are component lists, relative to the directory that the
/// operation starts from.
pub enum Step {
    /// Create one directory; its parent must exist and it must not.
    CreateDir { path: Vec<String> },
    /// Create an empty file.
    CreateFile { path: Vec<String> },
    /// Remove a directory and everything under it.
    RemoveDirAll { path: Vec<String> },
    /// Run a program in a directory and wait for it; a nonzero exit fails the step.
    Run { dir: Vec<String>, command: Command },
}

/// The meaning of a step.
pub enum Action {
    MakeDir(Seq<Seq<char>>),
    MakeFile(Seq<Seq<char>>),
    RemoveTree(Seq<Seq<char>>),
    Exec(Seq<Seq<char>>, Seq<Seq<char>>),
}

impl View for Step {
    type V = Action;

    open spec fn view(&self) -> Action {
        match self {
            Step::CreateDir { path } => Action::MakeDir(texts(path@)),
            Step::CreateFile { path } => Action::MakeFile(texts(path@)),
            Step::RemoveDirAll { path } => Action::RemoveTree(texts(path@)),
            Step::Run { dir, command } => Action::Exec(texts(dir@), command@),
        }
    }
}

pub open spec fn actions(v: Seq<Step>) -> Seq<Action> {
    v.map_values(|s: Step| s@)
}

/// Which operation a plan carries out.
#[derive(Debug, Clone, Copy, PartialEq, Eq, Structural)]
pub enum Operation {
    Init,
    New,
    Clone,
    Checkout,
}

/// The steps of one operation, and the directory that it removes again when
/// a step fails while that directory exists.
pub struct Plan {
    pub operation: Operation,
    pub steps: Vec<Step>,
    /// Removed when the step at a position in `scratch_from..scratch_until` fails.
    pub scratch: Vec<String>,
    pub scratch_from: usize,
    pub scratch_until: usize,
}

impl Plan {
    pub open spec fn actions(&self) -> Seq<Action> {
        actions(self.steps@)
    }

    /// The steps that undo what a failure at position `k` left behind.
    pub open spec fn recovery(&self, k: int) -> Seq<Action> {
        if self.scratch_from <= k < self.scratch_until {
            seq![Action::RemoveTree(texts(self.scratch@))]
        } else {
            seq![]
        }
    }

    /// The error reported when the step at position `k` fails.
    pub open spec fn failure(&self, k: int) -> ShakeError {
        if self.operation == Operation::Clone && k == 1 {
            ShakeError::CloneFailed
        } else if self.operation == Operation::Clone && k == 2 {
            ShakeError::WorktreeFailed
        } else {
            ShakeError::StepFailed { step: k as usize }
        }
    }

    /// What follows the failure of the step at position `k`: the steps that
    /// clean up, then the error to report. No later step of the plan runs.
    pub fn on_failure(&self, k: usize) -> (r: (Vec<Step>, ShakeError))
        requires
            k < self.steps@.len(),
        ensures
            actions(r.0@) == self.recovery(k as int),
            r.1 == self.failure(k as int),
    {
        let mut undo: Vec<Step> = Vec::new();
        if self.scratch_from <= k && k < self.scratch_until {
            push_step(&mut undo, Step::RemoveDirAll { path: copy_path(&self.scratch) });
        }
        assert(actions(undo@) =~= self.recovery(k as int));
        let err = if self.operation == Operation::Clone && k == 1 {
            ShakeError::CloneFailed
        } else if self.operation == Operation::Clone && k == 2 {
            ShakeError::WorktreeFailed
        } else {
            ShakeError::StepFailed { step: k }
        };
        (undo, err)
    }
}

pub(crate) proof fn lemma_add_push(s: Seq<Action>, t: Seq<Action>, a: Action)
    ensures
        (s + t).push(a) == s + t.push(a),
{
    assert((s + t).push(a) =~= s + t.push(a));
}

pub(crate) proof fn lemma_add_assoc(a: Seq<Action>, b: Seq<Action>, c: Seq<Action>)
    ensures
        (a + b) + c == a + (b + c),
{
    assert((a + b) + c =~= a + (b + c));
}

/// Appends a step to a list of steps.
pub fn push_step(steps: &mut Vec<Step>, s: Step)
    ensures
        actions(final(steps)@) == actions(old(steps)@).push(s@),
{
    let ghost before = steps@;
    steps.push(s);
    assert(actions(steps@) =~= actions(before).push(s@)) by {
        assert forall|k: int| 0 <= k < before.len() implies #[trigger] steps@[k] == before[k] by {}
    }
}

/// A copy of a path.
pub fn copy_path(path: &Vec<String>) -> (r: Vec<String>)
    ensures
        texts(r@) == texts(path@),
{
    let r = below(path, &[]);
    assert(texts(r@) =~= texts(path@));
    r
}

/// A step that runs `argv` in the directory `dir`.
pub fn run_at(dir: &Vec<String>, argv: &[&str]) -> (r: Step)
    requires
        argv@.len() > 0,
    ensures
        r@ == Action::Exec(texts(dir@), str_texts(argv@)),
{
    let mut builder = CommandBuilder::new();
    builder.args(argv);
    assert(builder@ =~= str_texts(argv@));
    Step::Run { dir: copy_path(dir), command: builder.into_command() }
}

} // verus!
