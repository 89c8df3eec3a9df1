//! How git is invoked, and what one invocation gives back.
use vstd::prelude::*;
use crate::text::views;

verus! {

/// The pieces of `s` joined by `sep`.
pub open spec fn join_with(s: Seq<Seq<char>>, sep: Seq<char>) -> Seq<char>
    decreases s.len(),
{
    if s.len() == 0 {
        seq![]
    } else if s.len() == 1 {
        s[0]
    } else {
        join_with(s.drop_last(), sep) + sep + s.last()
    }
}

/// The strings of `parts` joined by `sep` (`[&str]::join`).
pub fn join_strings(parts: &Vec<String>, sep: &str) -> (r: String)
    ensures
        r@ == join_with(views(parts@), sep@),
{
    let mut r = String::new();
    let ghost v = views(parts@);
    for k in 0..parts.len()
        invariant
            v == views(parts@),
            r@ == join_with(v.take(k as int), sep@),
    {
        proof {
            assert(v.take(k + 1).drop_last() =~= v.take(k as int));
            assert(v.take(k + 1).last() == parts@[k as int]@);
        }
        if k > 0 {
            r.append(sep);
        } else {
            assert(v.take(1) =~= seq![parts@[0]@]);
        }
        r.append(parts[k].as_str());
    }
    proof {
        assert(v.take(parts@.len() as int) =~= v);
    }
    r
}

/// A git executable and the directory it runs in.
pub struct Git {
    pub executable: String,
    pub cwd: String,
}

/// What one run of git gave back, and the command line it ran.
pub struct GitResult {
    pub rc: i32,
    pub stderr: String,
    pub stdout: String,
    pub command: String,
}

/// The text shown for a run: `<cwd> $ <exec> <args joined by spaces>`.
pub open spec fn command_text(executable: Seq<char>, cwd: Seq<char>, args: Seq<Seq<char>>) -> Seq<char> {
    cwd + " $ "@ + executable + " "@ + join_with(args, " "@)
}

impl Git {
    pub fn new(executable: String, cwd: String) -> (g: Git)
        ensures
            g.executable@ == executable@,
            g.cwd@ == cwd@,
    {
        Git { executable, cwd }
    }

    /// The line printed before each run of git.
    pub fn command_line(&self, args: &Vec<String>) -> (r: String)
        ensures
            r@ == command_text(self.executable@, self.cwd@, views(args@)),
    {
        let mut r = self.cwd.clone();
        r.append(" $ ");
        r.append(self.executable.as_str());
        r.append(" ");
        let joined = join_strings(args, " ");
        r.append(joined.as_str());
        r
    }
}

} // verus!
