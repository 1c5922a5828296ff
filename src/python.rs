use vstd::prelude::*;
use vstd::string::StringExecFns;
use vstd::string::StrSliceExecFns;

use crate::text::chars_of;

verus! {

/// The outcome of running a Python script.
#[derive(Debug, Clone, PartialEq)]
pub struct PythonResult {
    pub success: bool,
    pub stdout: String,
    pub stderr: String,
    pub exit_code: Option<i32>,
    pub execution_time_ms: u128,
}

/// A Python script found in one of the script directories.
#[derive(Debug, Clone, PartialEq)]
pub struct ScriptInfo {
    pub name: String,
    pub path: String,
    pub size: u64,
    pub modified: String,
}

/// The Python interpreter found on this machine, if any.
#[derive(Debug, Clone, PartialEq)]
pub struct PythonInfo {
    pub version: String,
    pub executable: String,
    pub is_available: bool,
}

/// The two script directories.
#[derive(Debug, Clone, Copy, PartialEq, Eq)]
pub enum ScriptDir {
    User,
    Examples,
}

/// Runs and manages the user's Python scripts.
#[derive(Debug, Clone, Copy, PartialEq, Eq)]
pub struct PythonService;

/// `p` occurs in `s` at index `i`.
pub open spec fn occurs_at(s: Seq<char>, p: Seq<char>, i: int) -> bool {
    0 <= i && i + p.len() <= s.len() && s.subrange(i, i + p.len()) == p
}

/// `p` occurs somewhere in `s`.
pub open spec fn occurs(s: Seq<char>, p: Seq<char>) -> bool {
    exists|i: int| occurs_at(s, p, i)
}

/// `s` starts with `p`.
pub open spec fn starts(s: Seq<char>, p: Seq<char>) -> bool {
    occurs_at(s, p, 0)
}

/// `s` ends with `p`.
pub open spec fn ends(s: Seq<char>, p: Seq<char>) -> bool {
    p.len() <= s.len() && occurs_at(s, p, s.len() - p.len())
}

fn matches_at(s: &Vec<char>, p: &Vec<char>, i: usize) -> (r: bool)
    requires
        i <= s@.len(),
    ensures
        r == occurs_at(s@, p@, i as int),
{
    if p.len() > s.len() - i {
        return false;
    }
    let n = s.len();
    let mut k: usize = 0;
    while k < p.len()
        invariant
            n == s@.len(),
            i + p@.len() <= s@.len(),
            k <= p@.len(),
            forall|m: int| 0 <= m < k ==> s@[i + m] == p@[m],
        decreases p@.len() - k,
    {
        if s[i + k] != p[k] {
            assert(s@.subrange(i as int, i + p@.len())[k as int] != p@[k as int]);
            return false;
        }
        k = k + 1;
    }
    assert(s@.subrange(i as int, i + p@.len()) =~= p@);
    true
}

fn contains_chars(s: &Vec<char>, p: &Vec<char>) -> (r: bool)
    ensures
        r == occurs(s@, p@),
{
    let mut i: usize = 0;
    while i < s.len()
        invariant
            i <= s@.len(),
            forall|j: int| 0 <= j < i ==> !occurs_at(s@, p@, j),
        decreases s@.len() - i,
    {
        if matches_at(s, p, i) {
            return true;
        }
        i = i + 1;
    }
    if matches_at(s, p, s.len()) {
        return true;
    }
    assert forall|j: int| !occurs_at(s@, p@, j) by {
        if 0 <= j < s@.len() {
            assert(!occurs_at(s@, p@, j));
        }
    }
    false
}

/// The rule on a script name that stands for an existing script: no `..`,
/// and a `.py` ending. It names, in the order to try, the directories and file
/// names it may refer to: after a `user/` or `examples/` prefix (either slash)
/// that directory only, else the user directory and then the examples.
pub open spec fn script_candidates(name: Seq<char>) -> Result<Seq<(ScriptDir, Seq<char>)>, ()> {
    if occurs(name, seq!['.', '.']) {
        Err(())
    } else if !ends(name, seq!['.', 'p', 'y']) {
        Err(())
    } else if starts(name, seq!['u', 's', 'e', 'r', '/']) || starts(
        name,
        seq!['u', 's', 'e', 'r', '\\'],
    ) {
        Ok(seq![(ScriptDir::User, name.skip(5))])
    } else if starts(name, seq!['e', 'x', 'a', 'm', 'p', 'l', 'e', 's', '/']) || starts(
        name,
        seq!['e', 'x', 'a', 'm', 'p', 'l', 'e', 's', '\\'],
    ) {
        Ok(seq![(ScriptDir::Examples, name.skip(9))])
    } else {
        Ok(seq![(ScriptDir::User, name), (ScriptDir::Examples, name)])
    }
}

fn word(w: &[char]) -> (r: Vec<char>)
    ensures
        r@ == w@,
{
    let mut out: Vec<char> = Vec::new();
    let mut i: usize = 0;
    while i < w.len()
        invariant
            i <= w@.len(),
            out@ == w@.take(i as int),
        decreases w@.len() - i,
    {
        out.push(w[i]);
        assert(w@.take(i + 1) == w@.take(i as int).push(w@[i as int]));
        i = i + 1;
    }
    assert(w@.take(i as int) == w@);
    out
}

impl PythonService {
    /// The service; it holds no state of its own.
    pub fn new() -> (r: Self)
        ensures
            r == PythonService,
    {
        PythonService
    }

    /// Where the script `script_name` may be found (see
    /// `script_candidates`): the directories and file names to try in order,
    /// or why the name is refused.
    pub fn script_locations(&self, script_name: &str) -> (r: Result<Vec<(ScriptDir, String)>, String>)
        ensures
            match script_candidates(script_name@) {
                Ok(c) => r is Ok && r->Ok_0@.len() == c.len() && forall|i: int|
                    0 <= i < c.len() ==> (#[trigger] r->Ok_0@[i]).0 == c[i].0 && r->Ok_0@[i].1@
                        == c[i].1,
                Err(_) => r is Err,
            },
    {
        let s = chars_of(script_name);
        let dots: [char; 2] = ['.', '.'];
        let py: [char; 3] = ['.', 'p', 'y'];
        let user_slash: [char; 5] = ['u', 's', 'e', 'r', '/'];
        let user_back: [char; 5] = ['u', 's', 'e', 'r', '\\'];
        let ex_slash: [char; 9] = ['e', 'x', 'a', 'm', 'p', 'l', 'e', 's', '/'];
        let ex_back: [char; 9] = ['e', 'x', 'a', 'm', 'p', 'l', 'e', 's', '\\'];
        assert(dots@ == seq!['.', '.']);
        assert(py@ == seq!['.', 'p', 'y']);
        assert(user_slash@ == seq!['u', 's', 'e', 'r', '/']);
        assert(user_back@ == seq!['u', 's', 'e', 'r', '\\']);
        assert(ex_slash@ == seq!['e', 'x', 'a', 'm', 'p', 'l', 'e', 's', '/']);
        assert(ex_back@ == seq!['e', 'x', 'a', 'm', 'p', 'l', 'e', 's', '\\']);
        if contains_chars(&s, &word(dots.as_slice())) {
            return Err(String::from_str("Invalid script name: path traversal not allowed"));
        }
        if s.len() < 3 || !matches_at(&s, &word(py.as_slice()), s.len() - 3) {
            return Err(String::from_str("Must end with .py"));
        }
        let mut out: Vec<(ScriptDir, String)> = Vec::new();
        if matches_at(&s, &word(user_slash.as_slice()), 0) || matches_at(
            &s,
            &word(user_back.as_slice()),
            0,
        ) {
            out.push((ScriptDir::User, String::from_str(script_name.substring_char(5, s.len()))));
        } else if matches_at(&s, &word(ex_slash.as_slice()), 0) || matches_at(
            &s,
            &word(ex_back.as_slice()),
            0,
        ) {
            out.push(
                (ScriptDir::Examples, String::from_str(script_name.substring_char(9, s.len()))),
            );
        } else {
            out.push((ScriptDir::User, String::from_str(script_name)));
            out.push((ScriptDir::Examples, String::from_str(script_name)));
        }
        Ok(out)
    }
}

} // verus!
