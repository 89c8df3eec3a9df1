//! `jgit branch <name> [from]`: make a worktree named after the branch,
//! tracking the remote branch where it exists, or else creating the branch
//! on the remote from another one.
use vstd::prelude::*;
use crate::paths::{join, join_of};
use crate::session::{
    args1, args2, args3, args4, concat2, concat3, finish, finish_v, line, line_v, lines_view,
    no_lines, quiet, run_git, single, step, step_v, Effect, EffectV, Event, EventV, GitResultV, Line, LineV,
    Step, StepV, Tone,
};
use crate::listing::{pick, pick_lines, LineRule};
use crate::text::{chars_of, has_prefix, lines, slice_string, trim, trim_range, trimmed, views};

verus! {

/// The options of `jgit branch`.
pub struct BranchCommand {
    /// The branch to check out or create.
    pub name: String,
    /// The branch a new branch splits from.
    pub from: Option<String>,
}

/// `refs/heads/`
pub open spec fn refs_heads() -> Seq<char> {
    seq!['r', 'e', 'f', 's', '/', 'h', 'e', 'a', 'd', 's', '/']
}

/// The current branch, from what `git symbolic-ref HEAD` printed: the trimmed
/// output without `refs/heads/` in front, where it is there.
pub open spec fn main_branch(out: Seq<char>) -> Seq<char> {
    let t = trim(out);
    if has_prefix(t, refs_heads()) {
        t.skip(refs_heads().len() as int)
    } else {
        t
    }
}

/// The branch to split from, given what the user typed: the trimmed input, or
/// `default` where that is empty.
pub open spec fn chosen_branch(input: Seq<char>, default: Seq<char>) -> Seq<char> {
    if trim(input).len() == 0 {
        default
    } else {
        trim(input)
    }
}

/// What one line of the branch list offers for `current`: the trimmed line,
/// where it begins with `current`.
pub open spec fn candidate(current: Seq<char>, l: Seq<char>) -> Option<Seq<char>> {
    if has_prefix(trim(l), current) {
        Some(trim(l))
    } else {
        None
    }
}

/// The trimmed lines of `branches` that begin with `current`, in order.
pub open spec fn completions(branches: Seq<char>, current: Seq<char>) -> Seq<Seq<char>> {
    lines(branches).filter_map(|l: Seq<char>| candidate(current, l))
}

proof fn lemma_narrowed(s: Seq<Seq<char>>, c1: Seq<char>, c2: Seq<char>)
    requires
        has_prefix(c2, c1),
    ensures
        s.filter_map(|l: Seq<char>| candidate(c2, l)) == s.filter_map(
            |l: Seq<char>| candidate(c1, l),
        ).filter(|b: Seq<char>| has_prefix(b, c2)),
    decreases s.len(),
{
    reveal(Seq::filter);
    let f1 = |l: Seq<char>| candidate(c1, l);
    let f2 = |l: Seq<char>| candidate(c2, l);
    let g = |b: Seq<char>| has_prefix(b, c2);
    if s.len() > 0 {
        let rest = s.drop_last();
        lemma_narrowed(rest, c1, c2);
        let t = trim(s.last());
        let a = rest.filter_map(f1);
        if has_prefix(t, c2) {
            assert(t.take(c1.len() as int) =~= c2.take(c1.len() as int));
        }
        if has_prefix(t, c1) {
            let x = a + seq![t];
            assert(s.filter_map(f1) == x);
            assert(x.drop_last() =~= a);
            assert(x.last() == t);
            if g(t) {
                assert(a.filter(g) + seq![t] =~= a.filter(g).push(t));
            }
        }
    }
}

/// Law: typing more never adds a candidate: where `c1` is a prefix of `c2`,
/// the completions for `c2` are those for `c1` that begin with `c2`, in the
/// same order.
pub proof fn law_longer_prefix_narrows_completions(branches: Seq<char>, c1: Seq<char>, c2: Seq<char>)
    requires
        has_prefix(c2, c1),
    ensures
        completions(branches, c2) == completions(branches, c1).filter(
            |b: Seq<char>| has_prefix(b, c2),
        ),
{
    lemma_narrowed(lines(branches), c1, c2);
}

/// The completions offered for the `from` argument: the trimmed lines of
/// what `git branch --format=%(refname:short)` printed that begin with what
/// the user has typed so far.
pub fn complete_branches(branches: &str, current: &str) -> (r: Vec<String>)
    ensures
        views(r@) == completions(branches@, current@),
{
    let rule = LineRule::WithPrefix(chars_of(current));
    let r = pick_lines(branches, &rule);
    proof {
        let f1 = |l: Seq<char>| pick(rule, l);
        let f2 = |l: Seq<char>| candidate(current@, l);
        assert(f1 =~= f2);
    }
    r
}

/// The arguments of the git run whose output [`complete_branches`] reads.
pub fn completion_git_args() -> (v: Vec<String>)
    ensures
        views(v@) == seq!["branch"@, "--format=%(refname:short)"@],
{
    args2("branch", "--format=%(refname:short)")
}

/// Where a run of `jgit branch` stands.
#[derive(Clone, Copy, Debug, PartialEq, Eq, Structural)]
pub enum BranchStage {
    Begin,
    AwaitCwd,
    AwaitBare,
    AwaitExisting,
    AwaitFetch,
    AwaitRemoteCheck,
    AwaitAdd,
    AwaitUpstream,
    AwaitReset,
    AwaitHead,
    AwaitAnswer,
    AwaitFromCheck,
    AwaitFromFetch,
    AwaitAddFrom,
    AwaitPush,
    AwaitNewUpstream,
    Over,
}

/// A run of `jgit branch`.
pub struct BranchRun {
    pub name: String,
    pub from: Option<String>,
    pub stage: BranchStage,
    pub cwd: String,
    /// The directory of the new worktree.
    pub path: String,
    /// The current branch, offered as the default to split from.
    pub main: String,
    /// The branch a new branch splits from, once known.
    pub source: String,
    /// `git ls-remote` found the branch itself on the remote.
    pub on_remote: bool,
    /// `git ls-remote` found the branch to split from on the remote.
    pub source_on_remote: bool,
}

pub struct BranchV {
    pub name: Seq<char>,
    pub from: Option<Seq<char>>,
    pub stage: BranchStage,
    pub cwd: Seq<char>,
    pub path: Seq<char>,
    pub main: Seq<char>,
    pub source: Seq<char>,
    pub on_remote: bool,
    pub source_on_remote: bool,
}

impl View for BranchRun {
    type V = BranchV;

    open spec fn view(&self) -> BranchV {
        BranchV {
            name: self.name@,
            from: match self.from {
                Some(f) => Some(f@),
                None => None,
            },
            stage: self.stage,
            cwd: self.cwd@,
            path: self.path@,
            main: self.main@,
            source: self.source@,
            on_remote: self.on_remote,
            source_on_remote: self.source_on_remote,
        }
    }
}

/// A run that has not begun.
pub open spec fn branch_start(name: Seq<char>, from: Option<Seq<char>>) -> BranchV {
    BranchV {
        name,
        from,
        stage: BranchStage::Begin,
        cwd: seq![],
        path: seq![],
        main: seq![],
        source: seq![],
        on_remote: false,
        source_on_remote: false,
    }
}

/// The run stops, saying nothing.
pub open spec fn branch_over(s: BranchV) -> (BranchV, StepV) {
    (BranchV { stage: BranchStage::Over, ..s }, step_v(seq![], EffectV::Finish))
}

/// Check that the branch to split from, `src`, is on the remote.
pub open spec fn check_source(s: BranchV, src: Seq<char>, say: Seq<LineV>) -> (BranchV, StepV) {
    (
        BranchV { stage: BranchStage::AwaitFromCheck, source: src, ..s },
        step_v(say, EffectV::Git(s.cwd, seq!["ls-remote"@, "--exit-code"@, "origin"@, src], false)),
    )
}

/// One step of `jgit branch`.
pub open spec fn branch_next(s: BranchV, e: EventV) -> (BranchV, StepV) {
    match s.stage {
        BranchStage::Begin => (
            BranchV { stage: BranchStage::AwaitCwd, ..s },
            step_v(seq![], EffectV::CurrentDir),
        ),
        BranchStage::AwaitCwd => match e {
            EventV::Place(Ok(cwd)) => (
                BranchV { stage: BranchStage::AwaitBare, cwd: cwd, path: join(cwd, s.name), ..s },
                step_v(seq![], EffectV::PathExists(join(cwd, ".bare"@))),
            ),
            EventV::Place(Err(m)) => (
                BranchV { stage: BranchStage::Over, ..s },
                step_v(seq![], EffectV::Panic("Could not determine current directory: "@ + m)),
            ),
            _ => branch_over(s),
        },
        BranchStage::AwaitBare => match e {
            EventV::Flag(true) => (
                BranchV { stage: BranchStage::AwaitExisting, ..s },
                step_v(seq![], EffectV::PathExists(s.path)),
            ),
            EventV::Flag(false) => (
                BranchV { stage: BranchStage::Over, ..s },
                step_v(
                    seq![line_v(""@, "This command must be executed from git repository"@, Tone::Plain)],
                    EffectV::Exit(1),
                ),
            ),
            _ => branch_over(s),
        },
        BranchStage::AwaitExisting => match e {
            EventV::Flag(false) => (
                BranchV { stage: BranchStage::AwaitFetch, ..s },
                step_v(seq![], EffectV::Git(s.cwd, seq!["fetch"@], true)),
            ),
            EventV::Flag(true) => (
                BranchV { stage: BranchStage::Over, ..s },
                step_v(
                    seq![
                        line_v(
                            ""@,
                            "Branch '"@ + s.name + "' already exists as a local worktree directory"@,
                            Tone::Plain,
                        ),
                    ],
                    EffectV::Exit(1),
                ),
            ),
            _ => branch_over(s),
        },
        BranchStage::AwaitFetch => match e {
            EventV::Git(_) => (
                BranchV { stage: BranchStage::AwaitRemoteCheck, ..s },
                step_v(
                    seq![],
                    EffectV::Git(s.cwd, seq!["ls-remote"@, "--exit-code"@, "origin"@, s.name], false),
                ),
            ),
            _ => branch_over(s),
        },
        BranchStage::AwaitRemoteCheck => match e {
            EventV::Git(r) => if r.rc == 0 {
                (
                    BranchV { stage: BranchStage::AwaitAdd, on_remote: true, ..s },
                    step_v(
                        seq![],
                        EffectV::Git(s.cwd, seq!["worktree"@, "add"@, "-B"@, s.name, s.name], true),
                    ),
                )
            } else {
                let say = seq![line_v(""@, "Branch '"@ + s.name + "' does not exist on remote"@, Tone::Plain)];
                match s.from {
                    Some(f) => check_source(s, f, say),
                    None => (
                        BranchV { stage: BranchStage::AwaitHead, ..s },
                        step_v(say, EffectV::Git(s.cwd, seq!["symbolic-ref"@, "HEAD"@], false)),
                    ),
                }
            },
            _ => branch_over(s),
        },
        BranchStage::AwaitAdd => match e {
            EventV::Git(_) => (
                BranchV { stage: BranchStage::AwaitUpstream, ..s },
                step_v(
                    seq![],
                    EffectV::Git(
                        s.path,
                        seq!["branch"@, "--set-upstream-to"@, "origin/"@ + s.name],
                        true,
                    ),
                ),
            ),
            _ => branch_over(s),
        },
        BranchStage::AwaitUpstream => match e {
            EventV::Git(_) => (
                BranchV { stage: BranchStage::AwaitReset, ..s },
                step_v(seq![], EffectV::Git(s.path, seq!["reset"@, "--hard"@, "origin/"@ + s.name], true)),
            ),
            _ => branch_over(s),
        },
        BranchStage::AwaitReset => match e {
            EventV::Git(_) => (BranchV { stage: BranchStage::Over, ..s }, finish_v(seq![], s.name + "\n"@)),
            _ => branch_over(s),
        },
        BranchStage::AwaitHead => match e {
            EventV::Git(r) => if r.rc != 0 {
                (
                    BranchV { stage: BranchStage::Over, ..s },
                    step_v(
                        seq![line_v(""@, "Could not determine current branch: "@ + r.stderr, Tone::Plain)],
                        EffectV::Exit(r.rc),
                    ),
                )
            } else {
                let main = main_branch(r.stdout);
                (
                    BranchV { stage: BranchStage::AwaitAnswer, main: main, ..s },
                    step_v(
                        seq![],
                        EffectV::Ask(
                            "Create branch '"@ + s.name + "' from which branch? ("@ + main + "): "@,
                            Tone::Plain,
                        ),
                    ),
                )
            },
            _ => branch_over(s),
        },
        BranchStage::AwaitAnswer => match e {
            EventV::Answer(a) => check_source(s, chosen_branch(a, s.main), seq![]),
            _ => branch_over(s),
        },
        BranchStage::AwaitFromCheck => match e {
            EventV::Git(r) => if r.rc != 0 {
                (
                    BranchV { stage: BranchStage::Over, ..s },
                    step_v(
                        seq![line_v(""@, "Err: Branch '"@ + s.source + "' does not exist on remote"@, Tone::Plain)],
                        EffectV::Exit(1),
                    ),
                )
            } else {
                (
                    BranchV { stage: BranchStage::AwaitFromFetch, source_on_remote: true, ..s },
                    step_v(
                        seq![
                            line_v(
                                ""@,
                                "Creating branch '"@ + s.name + "' from '"@ + s.source + "'"@,
                                Tone::Plain,
                            ),
                        ],
                        EffectV::Git(s.cwd, seq!["fetch"@, "origin"@, s.source], true),
                    ),
                )
            },
            _ => branch_over(s),
        },
        BranchStage::AwaitFromFetch => match e {
            EventV::Git(_) => (
                BranchV { stage: BranchStage::AwaitAddFrom, ..s },
                step_v(
                    seq![],
                    EffectV::Git(
                        s.cwd,
                        seq!["worktree"@, "add"@, "-B"@, s.name, s.name, "origin/"@ + s.source],
                        true,
                    ),
                ),
            ),
            _ => branch_over(s),
        },
        BranchStage::AwaitAddFrom => match e {
            EventV::Git(_) => (
                BranchV { stage: BranchStage::AwaitPush, ..s },
                step_v(seq![], EffectV::Git(s.path, seq!["push"@, "origin"@, s.name], true)),
            ),
            _ => branch_over(s),
        },
        BranchStage::AwaitPush => match e {
            EventV::Git(_) => (
                BranchV { stage: BranchStage::AwaitNewUpstream, ..s },
                step_v(
                    seq![],
                    EffectV::Git(
                        s.path,
                        seq!["branch"@, "--set-upstream-to"@, "origin/"@ + s.name],
                        true,
                    ),
                ),
            ),
            _ => branch_over(s),
        },
        BranchStage::AwaitNewUpstream => match e {
            EventV::Git(_) => (BranchV { stage: BranchStage::Over, ..s }, finish_v(seq![], s.name + "\n"@)),
            _ => branch_over(s),
        },
        BranchStage::Over => branch_over(s),
    }
}


// ---------------------------------------------------------------- exec

impl BranchCommand {
    /// The current branch, from what `git symbolic-ref HEAD` printed.
    pub fn get_main_branch(stdout: &str) -> (r: String)
        ensures
            r@ == main_branch(stdout@),
    {
        let v = chars_of(stdout);
        let (a, b) = trim_range(&v, 0, v.len());
        proof {
            assert(v@.subrange(0, v@.len() as int) =~= v@);
        }
        let prefix = vec!['r', 'e', 'f', 's', '/', 'h', 'e', 'a', 'd', 's', '/'];
        proof {
            assert(prefix@ =~= refs_heads());
        }
        if crate::text::starts_with_in(&v, a, b, &prefix) {
            proof {
                assert(v@.subrange(a as int, b as int).skip(11) =~= v@.subrange(a + 11, b as int));
            }
            slice_string(stdout, &v, a + 11, b)
        } else {
            slice_string(stdout, &v, a, b)
        }
    }

    /// The branch to split from, given the line the user typed at the prompt.
    pub fn get_branch_interactive(input: &str, default_branch: &str) -> (r: String)
        ensures
            r@ == chosen_branch(input@, default_branch@),
    {
        let t = trimmed(input);
        if t.unicode_len() == 0 {
            String::from_str(default_branch)
        } else {
            t
        }
    }

    /// The branch to split from: the one given on the command line, or else the
    /// one chosen at the prompt whose default is the current branch.
    pub fn get_from_branch(&self, main_branch: &str, input: &str) -> (r: String)
        ensures
            r@ == match self.from {
                Some(f) => f@,
                None => chosen_branch(input@, main_branch@),
            },
    {
        match &self.from {
            Some(f) => f.clone(),
            None => BranchCommand::get_branch_interactive(input, main_branch),
        }
    }

    /// A run of this command that has not begun.
    pub fn start(&self) -> (r: BranchRun)
        ensures
            r@ == branch_start(
                self.name@,
                match self.from {
                    Some(f) => Some(f@),
                    None => None,
                },
            ),
    {
        BranchRun {
            name: self.name.clone(),
            from: match &self.from {
                Some(f) => Some(f.clone()),
                None => None,
            },
            stage: BranchStage::Begin,
            cwd: String::new(),
            path: String::new(),
            main: String::new(),
            source: String::new(),
            on_remote: false,
            source_on_remote: false,
        }
    }
}

impl BranchRun {
    fn over(&mut self) -> (out: Step)
        ensures
            (final(self)@, out@) == branch_over(old(self)@),
    {
        self.stage = BranchStage::Over;
        quiet(Effect::Finish)
    }

    fn check_source(&mut self, src: String, say: Vec<Line>) -> (out: Step)
        ensures
            (final(self)@, out@) == check_source(old(self)@, src@, lines_view(say@)),
    {
        self.stage = BranchStage::AwaitFromCheck;
        let e = run_git(&self.cwd, args4("ls-remote", "--exit-code", "origin", src.as_str()), false);
        self.source = src;
        step(say, e)
    }

    /// Takes what the last effect gave back and says what to do next.
    #[verifier::rlimit(60)]
    pub fn step(&mut self, e: Event) -> (out: Step)
        ensures
            (final(self)@, out@) == branch_next(old(self)@, e@),
    {
        match self.stage {
            BranchStage::Begin => {
                self.stage = BranchStage::AwaitCwd;
                quiet(Effect::CurrentDir)
            },
            BranchStage::AwaitCwd => match e {
                Event::Place(Ok(cwd)) => {
                    let bare = join_of(cwd.as_str(), ".bare");
                    self.path = join_of(cwd.as_str(), self.name.as_str());
                    self.cwd = cwd;
                    self.stage = BranchStage::AwaitBare;
                    quiet(Effect::PathExists { path: bare })
                },
                Event::Place(Err(m)) => {
                    let message = concat2("Could not determine current directory: ", m.as_str());
                    self.stage = BranchStage::Over;
                    quiet(Effect::Panic { message })
                },
                _ => self.over(),
            },
            BranchStage::AwaitBare => match e {
                Event::Flag(true) => {
                    self.stage = BranchStage::AwaitExisting;
                    quiet(Effect::PathExists { path: self.path.clone() })
                },
                Event::Flag(false) => {
                    self.stage = BranchStage::Over;
                    step(
                        single(
                            crate::session::fixed_line(
                                "",
                                "This command must be executed from git repository",
                                Tone::Plain,
                            ),
                        ),
                        Effect::Exit { code: 1 },
                    )
                },
                _ => self.over(),
            },
            BranchStage::AwaitExisting => match e {
                Event::Flag(false) => {
                    self.stage = BranchStage::AwaitFetch;
                    quiet(run_git(&self.cwd, args1("fetch"), true))
                },
                Event::Flag(true) => {
                    let m = concat3(
                        "Branch '",
                        self.name.as_str(),
                        "' already exists as a local worktree directory",
                    );
                    self.stage = BranchStage::Over;
                    step(single(line("", m, Tone::Plain)), Effect::Exit { code: 1 })
                },
                _ => self.over(),
            },
            BranchStage::AwaitFetch => match e {
                Event::Git(_) => {
                    self.stage = BranchStage::AwaitRemoteCheck;
                    quiet(
                        run_git(
                            &self.cwd,
                            args4("ls-remote", "--exit-code", "origin", self.name.as_str()),
                            false,
                        ),
                    )
                },
                _ => self.over(),
            },
            BranchStage::AwaitRemoteCheck => match e {
                Event::Git(r) => if r.rc == 0 {
                    self.stage = BranchStage::AwaitAdd;
                    self.on_remote = true;
                    let mut args = args4("worktree", "add", "-B", self.name.as_str());
                    let ghost before = views(args@);
                    args.push(self.name.clone());
                    proof {
                        assert(views(args@) =~= before.push(self.name@));
                        assert(views(args@) =~= seq!["worktree"@, "add"@, "-B"@, self.name@, self.name@]);
                    }
                    quiet(run_git(&self.cwd, args, true))
                } else {
                    let m = concat3("Branch '", self.name.as_str(), "' does not exist on remote");
                    let say = single(line("", m, Tone::Plain));
                    match &self.from {
                        Some(f) => {
                            let f = f.clone();
                            self.check_source(f, say)
                        },
                        None => {
                            self.stage = BranchStage::AwaitHead;
                            step(say, run_git(&self.cwd, args2("symbolic-ref", "HEAD"), false))
                        },
                    }
                },
                _ => self.over(),
            },
            BranchStage::AwaitAdd => match e {
                Event::Git(_) => {
                    self.stage = BranchStage::AwaitUpstream;
                    let up = concat2("origin/", self.name.as_str());
                    quiet(
                        run_git(&self.path, args3("branch", "--set-upstream-to", up.as_str()), true),
                    )
                },
                _ => self.over(),
            },
            BranchStage::AwaitUpstream => match e {
                Event::Git(_) => {
                    self.stage = BranchStage::AwaitReset;
                    let up = concat2("origin/", self.name.as_str());
                    quiet(run_git(&self.path, args3("reset", "--hard", up.as_str()), true))
                },
                _ => self.over(),
            },
            BranchStage::AwaitReset => match e {
                Event::Git(_) => {
                    self.stage = BranchStage::Over;
                    finish(no_lines(), concat2(self.name.as_str(), "\n"))
                },
                _ => self.over(),
            },
            BranchStage::AwaitHead => match e {
                Event::Git(r) => if r.rc != 0 {
                    let m = concat2("Could not determine current branch: ", r.stderr.as_str());
                    self.stage = BranchStage::Over;
                    step(single(line("", m, Tone::Plain)), Effect::Exit { code: r.rc })
                } else {
                    let main = BranchCommand::get_main_branch(r.stdout.as_str());
                    let mut prompt = concat3(
                        "Create branch '",
                        self.name.as_str(),
                        "' from which branch? (",
                    );
                    prompt.append(main.as_str());
                    prompt.append("): ");
                    proof {
                        assert(prompt@ =~= "Create branch '"@ + self.name@ + "' from which branch? ("@
                            + main@ + "): "@);
                    }
                    self.main = main;
                    self.stage = BranchStage::AwaitAnswer;
                    quiet(Effect::Ask { prompt, tone: Tone::Plain })
                },
                _ => self.over(),
            },
            BranchStage::AwaitAnswer => match e {
                Event::Answer(a) => {
                    let src = BranchCommand::get_branch_interactive(a.as_str(), self.main.as_str());
                    self.check_source(src, no_lines())
                },
                _ => self.over(),
            },
            BranchStage::AwaitFromCheck => match e {
                Event::Git(r) => if r.rc != 0 {
                    let m = concat3("Err: Branch '", self.source.as_str(), "' does not exist on remote");
                    self.stage = BranchStage::Over;
                    step(single(line("", m, Tone::Plain)), Effect::Exit { code: 1 })
                } else {
                    let mut m = concat3("Creating branch '", self.name.as_str(), "' from '");
                    m.append(self.source.as_str());
                    m.append("'");
                    proof {
                        assert(m@ =~= "Creating branch '"@ + self.name@ + "' from '"@ + self.source@
                            + "'"@);
                    }
                    self.stage = BranchStage::AwaitFromFetch;
                    self.source_on_remote = true;
                    step(
                        single(line("", m, Tone::Plain)),
                        run_git(&self.cwd, args3("fetch", "origin", self.source.as_str()), true),
                    )
                },
                _ => self.over(),
            },
            BranchStage::AwaitFromFetch => match e {
                Event::Git(_) => {
                    self.stage = BranchStage::AwaitAddFrom;
                    let mut args = args4("worktree", "add", "-B", self.name.as_str());
                    let ghost before = views(args@);
                    args.push(self.name.clone());
                    let ghost mid = views(args@);
                    let up = concat2("origin/", self.source.as_str());
                    args.push(up);
                    proof {
                        assert(mid =~= before.push(self.name@));
                        assert(views(args@) =~= mid.push(up@));
                        assert(views(args@) =~= seq![
                            "worktree"@,
                            "add"@,
                            "-B"@,
                            self.name@,
                            self.name@,
                            "origin/"@ + self.source@,
                        ]);
                    }
                    quiet(run_git(&self.cwd, args, true))
                },
                _ => self.over(),
            },
            BranchStage::AwaitAddFrom => match e {
                Event::Git(_) => {
                    self.stage = BranchStage::AwaitPush;
                    quiet(run_git(&self.path, args3("push", "origin", self.name.as_str()), true))
                },
                _ => self.over(),
            },
            BranchStage::AwaitPush => match e {
                Event::Git(_) => {
                    self.stage = BranchStage::AwaitNewUpstream;
                    let up = concat2("origin/", self.name.as_str());
                    quiet(
                        run_git(&self.path, args3("branch", "--set-upstream-to", up.as_str()), true),
                    )
                },
                _ => self.over(),
            },
            BranchStage::AwaitNewUpstream => match e {
                Event::Git(_) => {
                    self.stage = BranchStage::Over;
                    finish(no_lines(), concat2(self.name.as_str(), "\n"))
                },
                _ => self.over(),
            },
            BranchStage::Over => self.over(),
        }
    }
}


// ---------------------------------------------------------------- laws

/// A run only goes on to fetch the branch to split from once the remote was
/// found to have it, and a run that was given the branch to split from never
/// waits on the current branch or on an answer.
pub open spec fn branch_inv(s: BranchV) -> bool {
    &&& s.stage == BranchStage::AwaitFromFetch ==> s.source_on_remote
    &&& s.from is Some ==> s.stage != BranchStage::AwaitHead && s.stage != BranchStage::AwaitAnswer
}

/// Law: a run of `jgit branch` begins in a state that keeps its invariant.
pub proof fn law_branch_start(name: Seq<char>, from: Option<Seq<char>>)
    ensures
        branch_inv(branch_start(name, from)),
{
}

/// Law: every step keeps the invariant, and the one worktree that `jgit branch`
/// adds is made in the repository's directory, in a directory named after the
/// branch, for that branch: tracking the remote branch when the remote has it,
/// and otherwise starting from a branch the remote was found to have.
pub proof fn law_branch_worktree_named_after_branch(s: BranchV, e: EventV)
    requires
        branch_inv(s),
    ensures
        branch_inv(branch_next(s, e).0),
        ({
            let (t, out) = branch_next(s, e);
            out.next matches EffectV::Git(dir, args, _) ==> (args.len() >= 2 && args[0]
                == "worktree"@ && args[1] == "add"@ ==> {
                &&& dir == s.cwd
                &&& args.len() >= 5
                &&& args[2] == "-B"@
                &&& args[3] == s.name
                &&& args[4] == s.name
                &&& (args.len() == 5 && t.on_remote) || (args.len() == 6 && t.source_on_remote
                    && args[5] == "origin/"@ + t.source)
            })
        }),
{
    reveal_strlit("worktree");
    reveal_strlit("fetch");
    reveal_strlit("ls-remote");
    reveal_strlit("branch");
    reveal_strlit("reset");
    reveal_strlit("symbolic-ref");
    reveal_strlit("push");
    let (t, out) = branch_next(s, e);
    if let EffectV::Git(dir, args, _) = out.next {
        if args.len() >= 2 && args[0] == "worktree"@ {
            assert(args[0].len() == 8);
            assert(args[0][0] == 'w');
        }
    }
}

/// Law: giving the branch to split from spares the question: a run that was
/// given it keeps it, and no step of it asks anything.
pub proof fn law_branch_from_spares_question(s: BranchV, e: EventV)
    requires
        branch_inv(s),
        s.from is Some,
    ensures
        branch_next(s, e).0.from == s.from,
        !(branch_next(s, e).1.next is Ask),
{
}

/// Law: the answer to the prompt picks the branch to split from: the trimmed
/// answer where it is not blank, and the current branch, offered as the
/// default, where it is; that branch is then looked up on the remote.
pub proof fn law_branch_answer_picks_source(s: BranchV, a: Seq<char>)
    requires
        s.stage == BranchStage::AwaitAnswer,
    ensures
        ({
            let (t, out) = branch_next(s, EventV::Answer(a));
            let src = if trim(a).len() > 0 {
                trim(a)
            } else {
                s.main
            };
            &&& t.source == src
            &&& t.stage == BranchStage::AwaitFromCheck
            &&& out.next == EffectV::Git(s.cwd, seq!["ls-remote"@, "--exit-code"@, "origin"@, src], false)
        }),
{
}

/// Law: the prompt offers the current branch, read from `git symbolic-ref
/// HEAD` without `refs/heads/`, as the default that a blank answer takes.
pub proof fn law_branch_prompt_offers_current(s: BranchV, r: GitResultV)
    requires
        s.stage == BranchStage::AwaitHead,
        r.rc == 0,
    ensures
        ({
            let t = branch_next(s, EventV::Git(r)).0;
            &&& t.stage == BranchStage::AwaitAnswer
            &&& has_prefix(trim(r.stdout), refs_heads()) ==> t.main == trim(r.stdout).skip(11)
            &&& !has_prefix(trim(r.stdout), refs_heads()) ==> t.main == trim(r.stdout)
        }),
{
}

/// Law: where the remote has the branch, its worktree tracks it; where it does
/// not and a branch to split from was given, that branch is looked up on the
/// remote, and nothing is asked.
pub proof fn law_branch_remote_check(s: BranchV, r: GitResultV)
    requires
        s.stage == BranchStage::AwaitRemoteCheck,
    ensures
        ({
            let (t, out) = branch_next(s, EventV::Git(r));
            &&& r.rc == 0 ==> t.on_remote && out.next == EffectV::Git(
                s.cwd,
                seq!["worktree"@, "add"@, "-B"@, s.name, s.name],
                true,
            )
            &&& (r.rc != 0 && s.from is Some) ==> t.source == s.from->0 && out.next == EffectV::Git(
                s.cwd,
                seq!["ls-remote"@, "--exit-code"@, "origin"@, s.from->0],
                false,
            )
        }),
{
}

} // verus!
