//! External program invocations and the filesystem steps that make up an operation.
use vstd::prelude::*;

verus! {

/// The character sequences held by a list of owned strings.
pub open spec fn texts(v: Seq<String>) -> Seq<Seq<char>> {
    v.map_values(|s: String| s@)
}

/// The character sequences held by a list of borrowed strings.
pub open spec fn str_texts<'a>(v: Seq<&'a str>) -> Seq<Seq<char>> {
    v.map_values(|s: &'a str| s@)
}

/// A program and its arguments, run to completion by the host.
pub struct Command {
    pub program: String,
    pub args: Vec<String>,
}

impl View for Command {
    /// The argument vector, the program's name first.
    type V = Seq<Seq<char>>;

    open spec fn view(&self) -> Seq<Seq<char>> {
        seq![self.program@] + texts(self.args@)
    }
}

/// Collects an argument vector piece by piece.
pub struct CommandBuilder<'a> {
    pub args: Vec<&'a str>,
}

impl<'a> View for CommandBuilder<'a> {
    type V = Seq<Seq<char>>;

    open spec fn view(&self) -> Seq<Seq<char>> {
        str_texts(self.args@)
    }
}

impl<'a> CommandBuilder<'a> {
    pub fn new() -> (r: Self)
        ensures
            r@ == Seq::<Seq<char>>::empty(),
    {
        let r = CommandBuilder { args: Vec::new() };
        assert(r@ =~= Seq::<Seq<char>>::empty());
        r
    }

    pub fn arg(&mut self, arg: &'a str)
        ensures
            final(self)@ == old(self)@.push(arg@),
    {
        self.args.push(arg);
        assert(self@ =~= old(self)@.push(arg@));
    }

    pub fn args(&mut self, args: &[&'a str])
        ensures
            final(self)@ == old(self)@ + str_texts(args@),
    {
        let ghost start = self@;
        assert(forall|k: int| 0 <= k < start.len() ==> #[trigger] self.args@[k]@ == start[k]);
        let mut i: usize = 0;
        while i < args.len()
            invariant
                i <= args@.len(),
                self.args@.len() == start.len() + i,
                forall|k: int| 0 <= k < start.len() ==> #[trigger] self.args@[k]@ == start[k],
                forall|k: int| 0 <= k < i ==> #[trigger] self.args@[start.len() + k] == args@[k],
            decreases args@.len() - i,
        {
            self.args.push(args[i]);
            i = i + 1;
        }
        assert forall|k: int| start.len() <= k < self.args@.len() implies #[trigger] self.args@[k]
            == args@[k - start.len()] by {
            assert(self.args@[start.len() + (k - start.len())] == args@[k - start.len()]);
        }
        assert(self@ =~= start + str_texts(args@));
    }

    /// The collected vector as a command: its first piece names the program.
    pub fn into_command(self) -> (c: Command)
        requires
            self@.len() > 0,
        ensures
            c@ == self@,
    {
        let program = String::from_str(self.args[0]);
        let mut rest: Vec<String> = Vec::new();
        let mut i: usize = 1;
        while i < self.args.len()
            invariant
                1 <= i <= self.args@.len(),
                rest@.len() == i - 1,
                forall|k: int| 0 <= k < i - 1 ==> #[trigger] rest@[k]@ == self.args@[k + 1]@,
            decreases self.args@.len() - i,
        {
            rest.push(String::from_str(self.args[i]));
            i = i + 1;
        }
        let c = Command { program, args: rest };
        assert(c@ =~= self@);
        c
    }
}

/// A path below `base`: the components of `base`, then `parts`.
pub fn below(base: &Vec<String>, parts: &[&str]) -> (r: Vec<String>)
    ensures
        texts(r@) == texts(base@) + str_texts(parts@),
{
    let mut r: Vec<String> = Vec::new();
    let mut i: usize = 0;
    while i < base.len()
        invariant
            i <= base@.len(),
            r@.len() == i,
            forall|k: int| 0 <= k < i ==> #[trigger] r@[k]@ == base@[k]@,
        decreases base@.len() - i,
    {
        r.push(base[i].clone());
        i = i + 1;
    }
    let mut j: usize = 0;
    while j < parts.len()
        invariant
            j <= parts@.len(),
            r@.len() == base@.len() + j,
            forall|k: int| 0 <= k < base@.len() ==> #[trigger] r@[k]@ == base@[k]@,
            forall|k: int| 0 <= k < j ==> #[trigger] r@[base@.len() + k]@ == parts@[k]@,
        decreases parts@.len() - j,
    {
        r.push(String::from_str(parts[j]));
        j = j + 1;
    }
    assert forall|k: int| base@.len() <= k < r@.len() implies #[trigger] r@[k]@
        == parts@[k - base@.len()]@ by {
        assert(r@[base@.len() + (k - base@.len())]@ == parts@[k - base@.len()]@);
    }
    assert(texts(r@) =~= texts(base@) + str_texts(parts@));
    r
}

} // verus!
