//! Remote references of the form `host:user/repo.git`, and the project
//! directory name that one gives.
use vstd::prelude::*;
use crate::error::ShakeError;

verus! {

/// `i` is the position of the first `c` in `s`.
pub open spec fn is_first(s: Seq<char>, c: char, i: int) -> bool {
    &&& 0 <= i < s.len()
    &&& s[i] == c
    &&& forall|j: int| 0 <= j < i ==> s[j] != c
}

/// What follows the first `c` in `s`, if `s` holds a `c`.
pub open spec fn after_first(s: Seq<char>, c: char) -> Option<Seq<char>> {
    if exists|i: int| is_first(s, c, i) {
        let i = choose|i: int| is_first(s, c, i);
        Some(s.subrange(i + 1, s.len() as int))
    } else {
        None
    }
}

/// `i` is the position of the last `c` in `s`.
pub open spec fn is_last(s: Seq<char>, c: char, i: int) -> bool {
    &&& 0 <= i < s.len()
    &&& s[i] == c
    &&& forall|j: int| i < j < s.len() ==> s[j] != c
}

/// What follows the last `c` in `s`, if `s` holds a `c`.
pub open spec fn after_last(s: Seq<char>, c: char) -> Option<Seq<char>> {
    if exists|i: int| is_last(s, c, i) {
        let i = choose|i: int| is_last(s, c, i);
        Some(s.subrange(i + 1, s.len() as int))
    } else {
        None
    }
}

pub open spec fn git_suffix() -> Seq<char> {
    seq!['.', 'g', 'i', 't']
}

/// `s` with every trailing `.git` removed.
pub open spec fn trim_git(s: Seq<char>) -> Seq<char>
    decreases s.len(),
{
    if s.len() >= 4 && s.subrange(s.len() - 4, s.len() as int) == git_suffix() {
        trim_git(s.subrange(0, s.len() - 4))
    } else {
        s
    }
}

/// The project directory named by a remote reference: the part after the
/// last `/` that follows the first `:`, without its `.git` suffix.
pub open spec fn project_name_of(uri: Seq<char>) -> Option<Seq<char>> {
    match after_first(uri, ':') {
        None => None,
        Some(path) => match after_last(path, '/') {
            None => None,
            Some(repo) => Some(trim_git(repo)),
        },
    }
}

proof fn lemma_first_unique(s: Seq<char>, c: char, i: int, k: int)
    requires
        is_first(s, c, i),
        is_first(s, c, k),
    ensures
        i == k,
{
    if i < k {
        assert(s[i] != c);
    } else if k < i {
        assert(s[k] != c);
    }
}

proof fn lemma_last_unique(s: Seq<char>, c: char, i: int, k: int)
    requires
        is_last(s, c, i),
        is_last(s, c, k),
    ensures
        i == k,
{
    if i < k {
        assert(s[k] != c);
    } else if k < i {
        assert(s[i] != c);
    }
}

/// What follows the last `c` in `s`.
fn split_after_last<'a>(s: &'a str, c: char) -> (r: Option<&'a str>)
    ensures
        match r {
            Some(t) => after_last(s@, c) == Some(t@),
            None => after_last(s@, c) is None,
        },
{
    let n = s.unicode_len();
    let mut i: usize = n;
    while i > 0
        invariant
            n == s@.len(),
            i <= n,
            forall|j: int| i <= j < n ==> s@[j] != c,
        decreases i,
    {
        if s.get_char(i - 1) == c {
            let t = s.substring_char(i, n);
            proof {
                assert(is_last(s@, c, i - 1));
                let k = choose|k: int| is_last(s@, c, k);
                lemma_last_unique(s@, c, i - 1, k);
            }
            return Some(t);
        }
        i = i - 1;
    }
    proof {
        assert forall|k: int| !is_last(s@, c, k) by {
            if 0 <= k < s@.len() {
                assert(s@[k] != c);
            }
        }
    }
    None
}

/// What follows the first `c` in `s`.
fn split_after<'a>(s: &'a str, c: char) -> (r: Option<&'a str>)
    ensures
        match r {
            Some(t) => after_first(s@, c) == Some(t@),
            None => after_first(s@, c) is None,
        },
{
    let n = s.unicode_len();
    let mut i: usize = 0;
    while i < n
        invariant
            n == s@.len(),
            i <= n,
            forall|j: int| 0 <= j < i ==> s@[j] != c,
        decreases n - i,
    {
        if s.get_char(i) == c {
            let t = s.substring_char(i + 1, n);
            proof {
                assert(is_first(s@, c, i as int));
                let k = choose|k: int| is_first(s@, c, k);
                lemma_first_unique(s@, c, i as int, k);
            }
            return Some(t);
        }
        i = i + 1;
    }
    proof {
        assert forall|k: int| !is_first(s@, c, k) by {
            if 0 <= k < s@.len() {
                assert(s@[k] != c);
            }
        }
    }
    None
}

/// `s` with every trailing `.git` removed.
fn trim_git_suffix<'a>(s: &'a str) -> (r: &'a str)
    ensures
        r@ == trim_git(s@),
{
    let mut t = s;
    let mut n = t.unicode_len();
    while n >= 4 && t.get_char(n - 4) == '.' && t.get_char(n - 3) == 'g' && t.get_char(n - 2) == 'i'
        && t.get_char(n - 1) == 't'
        invariant
            n == t@.len(),
            trim_git(t@) == trim_git(s@),
        decreases n,
    {
        assert(t@.subrange(n - 4, n as int) =~= git_suffix());
        t = t.substring_char(0, n - 4);
        n = n - 4;
    }
    assert(!(t@.len() >= 4 && t@.subrange(t@.len() - 4, t@.len() as int) == git_suffix())) by {
        if t@.len() >= 4 && t@.subrange(t@.len() - 4, t@.len() as int) == git_suffix() {
            assert(t@.subrange(t@.len() - 4, t@.len() as int)[0] == t@[n - 4]);
            assert(t@.subrange(t@.len() - 4, t@.len() as int)[1] == t@[n - 3]);
            assert(t@.subrange(t@.len() - 4, t@.len() as int)[2] == t@[n - 2]);
            assert(t@.subrange(t@.len() - 4, t@.len() as int)[3] == t@[n - 1]);
        }
    }
    t
}

/// The project directory name for a remote reference, or `InvalidUri` when
/// the reference lacks a `:` or a `/` after it.
pub fn project_name(uri: &str) -> (r: Result<String, ShakeError>)
    ensures
        match r {
            Ok(name) => project_name_of(uri@) == Some(name@),
            Err(e) => project_name_of(uri@) is None && e == ShakeError::InvalidUri,
        },
{
    let path = match split_after(uri, ':') {
        Some(p) => p,
        None => return Err(ShakeError::InvalidUri),
    };
    let repo = match split_after_last(path, '/') {
        Some(p) => p,
        None => return Err(ShakeError::InvalidUri),
    };
    Ok(String::from_str(trim_git_suffix(repo)))
}

} // verus!
