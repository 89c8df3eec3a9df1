//! `jgit clean`: delete the worktrees whose branches the remote no longer has,
//! then the local branches that no worktree has checked out, asking first
//! unless `-y` was given.
use vstd::prelude::*;
use crate::listing::{
    is_note, items_without, law_listed_worktree_branch_is_read, lemma_filter_map_holds, pick_lines,
    picked, without,
    worktree_line, LineRule,
};
use crate::paths::{components, join, join_of, parent, parent_of, same_path};
use crate::session::{
    args1, args2, args3, args4, fixed_line, joined, line, line_v, lines_view, no_lines, quiet,
    run_git, single,
    step, step_v, Effect, EffectV,
    Event, EventV, GitResultV, Line, LineV, Step, StepV, Tone,
};
use crate::text::{agrees, answer_agrees, is_white, lines, lines_of, trim, trimmed, views};

verus! {

/// The options of `jgit clean`.
pub struct CleanCommand {
    /// Go ahead without asking.
    pub autoconfirm: bool,
}

/// Where a run of `jgit clean` stands.
#[derive(Clone, Copy, Debug, PartialEq, Eq, Structural)]
pub enum CleanStage {
    Begin,
    AwaitCwd,
    AwaitBare,
    AwaitFetch,
    AwaitRemote,
    AwaitWorktrees,
    AwaitWorktreeAnswer,
    AwaitStatus,
    AwaitRemoval,
    AwaitRmdir,
    AwaitRemaining,
    AwaitLocal,
    AwaitCheckedOut,
    AwaitBranchAnswer,
    AwaitDelete,
    AwaitBranchList,
    Over,
}

/// A run of `jgit clean`.
pub struct CleanRun {
    pub prompt: bool,
    pub stage: CleanStage,
    pub cwd: String,
    /// The branches on the remote.
    pub remote: Vec<String>,
    /// The branches of the worktrees, as the worktree phase read them.
    pub worktrees: Vec<String>,
    /// The worktrees to delete.
    pub stale: Vec<String>,
    pub index: usize,
    /// The worktrees left alone because they hold changes.
    pub must_force: Vec<String>,
    /// The directory about to be removed.
    pub dir: String,
    pub worktrees_agreed: bool,
    /// The local branches.
    pub local: Vec<String>,
    /// The branches of the worktrees, as the branch phase read them.
    pub checked_out: Vec<String>,
    /// The branches to delete.
    pub unused: Vec<String>,
    pub branches_agreed: bool,
}

pub struct CleanV {
    pub prompt: bool,
    pub stage: CleanStage,
    pub cwd: Seq<char>,
    pub remote: Seq<Seq<char>>,
    pub worktrees: Seq<Seq<char>>,
    pub stale: Seq<Seq<char>>,
    pub index: nat,
    pub must_force: Seq<Seq<char>>,
    pub dir: Seq<char>,
    pub worktrees_agreed: bool,
    pub local: Seq<Seq<char>>,
    pub checked_out: Seq<Seq<char>>,
    pub unused: Seq<Seq<char>>,
    pub branches_agreed: bool,
}

impl View for CleanRun {
    type V = CleanV;

    open spec fn view(&self) -> CleanV {
        CleanV {
            prompt: self.prompt,
            stage: self.stage,
            cwd: self.cwd@,
            remote: views(self.remote@),
            worktrees: views(self.worktrees@),
            stale: views(self.stale@),
            index: self.index as nat,
            must_force: views(self.must_force@),
            dir: self.dir@,
            worktrees_agreed: self.worktrees_agreed,
            local: views(self.local@),
            checked_out: views(self.checked_out@),
            unused: views(self.unused@),
            branches_agreed: self.branches_agreed,
        }
    }
}

// ---------------------------------------------------------------- the steps

/// Each item on a line of its own, indented, in yellow.
pub open spec fn listed(items: Seq<Seq<char>>) -> Seq<LineV> {
    items.map_values(|b: Seq<char>| line_v("    "@, b, Tone::Yellow))
}

/// Each line of git's output, indented.
pub open spec fn indented(ls: Seq<Seq<char>>) -> Seq<LineV> {
    ls.map_values(|l: Seq<char>| line_v("    "@, l, Tone::Plain))
}

/// The command that would remove each worktree that holds changes.
pub open spec fn forced_lines(bs: Seq<Seq<char>>) -> Seq<LineV> {
    bs.map_values(
        |b: Seq<char>| line_v(""@, "    git worktree remove '"@ + b + "' --force"@, Tone::Yellow),
    )
}

/// Check the worktree at `stale[j]` next, or close the worktree phase when there is none.
pub open spec fn check_next(s: CleanV, j: nat, say: Seq<LineV>) -> (CleanV, StepV) {
    if j < s.stale.len() {
        (
            CleanV { stage: CleanStage::AwaitStatus, index: j, ..s },
            step_v(
                say,
                EffectV::Git(join(s.cwd, s.stale[j as int]), seq!["status"@, "--porcelain"@], false),
            ),
        )
    } else {
        let forced = if s.must_force.len() > 0 {
            seq![
                line_v(
                    "\n"@,
                    "Untracked files. Inspect, and possibly remove with --force:"@,
                    Tone::Yellow,
                ),
            ] + forced_lines(s.must_force)
        } else {
            seq![]
        };
        (
            CleanV { stage: CleanStage::AwaitRemaining, ..s },
            step_v(
                say + seq![line_v("\n"@, "---------------------"@, Tone::Dimmed)] + forced + seq![
                    line_v("\n"@, "REMAINING WORKTREES:"@, Tone::GreenBold),
                ],
                EffectV::Git(s.cwd, seq!["worktree"@, "list"@], false),
            ),
        )
    }
}

/// Remove the directory `d` next where it is not the repository itself, or move on.
pub open spec fn rmdir_next(s: CleanV, d: Option<Seq<char>>, say: Seq<LineV>) -> (CleanV, StepV) {
    match d {
        Some(p) => if components(p) != components(s.cwd) {
            (CleanV { stage: CleanStage::AwaitRmdir, dir: p, ..s }, step_v(say, EffectV::RemoveDir(p)))
        } else {
            check_next(s, s.index + 1, say)
        },
        None => check_next(s, s.index + 1, say),
    }
}

/// Begin the branch phase: list the local branches.
pub open spec fn branches_begin(s: CleanV, say: Seq<LineV>) -> (CleanV, StepV) {
    (
        CleanV { stage: CleanStage::AwaitLocal, ..s },
        step_v(say, EffectV::Git(s.cwd, seq!["branch"@, "--format=%(refname:short)"@], false)),
    )
}

/// Delete the branch `unused[j]` next, or list the branches that remain.
pub open spec fn delete_next(s: CleanV, j: nat, say: Seq<LineV>) -> (CleanV, StepV) {
    if j < s.unused.len() {
        (
            CleanV { stage: CleanStage::AwaitDelete, index: j, ..s },
            step_v(say, EffectV::Git(s.cwd, seq!["branch"@, "-D"@, s.unused[j as int]], true)),
        )
    } else {
        (
            CleanV { stage: CleanStage::AwaitBranchList, ..s },
            step_v(
                say + seq![line_v("\n"@, "REMAINING BRANCHES:"@, Tone::GreenBold)],
                EffectV::Git(s.cwd, seq!["branch"@], false),
            ),
        )
    }
}

/// The run stops, saying nothing.
pub open spec fn clean_over(s: CleanV) -> (CleanV, StepV) {
    (CleanV { stage: CleanStage::Over, ..s }, step_v(seq![], EffectV::Finish))
}

/// A run that has not begun.
pub open spec fn clean_start(autoconfirm: bool) -> CleanV {
    CleanV {
        prompt: !autoconfirm,
        stage: CleanStage::Begin,
        cwd: seq![],
        remote: seq![],
        worktrees: seq![],
        stale: seq![],
        index: 0,
        must_force: seq![],
        dir: seq![],
        worktrees_agreed: false,
        local: seq![],
        checked_out: seq![],
        unused: seq![],
        branches_agreed: false,
    }
}

/// One step of `jgit clean`.
pub open spec fn clean_next(s: CleanV, e: EventV) -> (CleanV, StepV) {
    match s.stage {
        CleanStage::Begin => (
            CleanV { stage: CleanStage::AwaitCwd, ..s },
            step_v(seq![], EffectV::CurrentDir),
        ),
        CleanStage::AwaitCwd => match e {
            EventV::Place(Ok(cwd)) => (
                CleanV { stage: CleanStage::AwaitBare, cwd: cwd, ..s },
                step_v(seq![], EffectV::PathExists(join(cwd, ".bare"@))),
            ),
            EventV::Place(Err(m)) => (
                CleanV { stage: CleanStage::Over, ..s },
                step_v(seq![], EffectV::Panic("Could not determine current directory: "@ + m)),
            ),
            _ => clean_over(s),
        },
        CleanStage::AwaitBare => match e {
            EventV::Flag(true) => (
                CleanV { stage: CleanStage::AwaitFetch, ..s },
                step_v(seq![], EffectV::Git(s.cwd, seq!["fetch"@, "--prune"@], true)),
            ),
            EventV::Flag(false) => (
                CleanV { stage: CleanStage::Over, ..s },
                step_v(
                    seq![
                        line_v(
                            ""@,
                            "This command must be executed from your top-level worktree repository"@,
                            Tone::Red,
                        ),
                    ],
                    EffectV::Exit(1),
                ),
            ),
            _ => clean_over(s),
        },
        CleanStage::AwaitFetch => match e {
            EventV::Git(_) => (
                CleanV { stage: CleanStage::AwaitRemote, ..s },
                step_v(
                    if s.prompt {
                        seq![]
                    } else {
                        seq![
                            line_v(
                                ""@,
                                "!! Proceeding to clean worktrees and branches without prompting for confirmation"@,
                                Tone::Yellow,
                            ),
                        ]
                    },
                    EffectV::Git(s.cwd, seq!["branch"@, "--remotes"@], false),
                ),
            ),
            _ => clean_over(s),
        },
        CleanStage::AwaitRemote => match e {
            EventV::Git(r) => (
                CleanV {
                    stage: CleanStage::AwaitWorktrees,
                    remote: picked(LineRule::RemoteBranch, r.stdout),
                    worktrees: seq![],
                    stale: seq![],
                    ..s
                },
                step_v(seq![], EffectV::Git(s.cwd, seq!["worktree"@, "list"@], false)),
            ),
            _ => clean_over(s),
        },
        CleanStage::AwaitWorktrees => match e {
            EventV::Git(r) => {
                let wts = picked(LineRule::WorktreeBranch, r.stdout);
                let stale = without(wts, s.remote);
                let s2 = CleanV { worktrees: wts, stale: stale, must_force: seq![], ..s };
                if stale.len() == 0 {
                    branches_begin(
                        s2,
                        seq![
                            line_v(
                                ""@,
                                "No worktrees to delete. Every worktree branch exists on remote"@,
                                Tone::Green,
                            ),
                        ],
                    )
                } else {
                    let say = seq![line_v("\n"@, "WORKTREES TO DELETE"@, Tone::YellowBold)]
                        + listed(stale);
                    if s.prompt {
                        (
                            CleanV { stage: CleanStage::AwaitWorktreeAnswer, ..s2 },
                            step_v(say, EffectV::Ask("Proceed? y/(n): "@, Tone::Cyan)),
                        )
                    } else {
                        check_next(s2, 0, say)
                    }
                }
            },
            _ => clean_over(s),
        },
        CleanStage::AwaitWorktreeAnswer => match e {
            EventV::Answer(a) => if agrees(a) {
                check_next(CleanV { worktrees_agreed: true, ..s }, 0, seq![])
            } else {
                branches_begin(s, seq![line_v(""@, "Cancelling worktree removal"@, Tone::Red)])
            },
            _ => clean_over(s),
        },
        CleanStage::AwaitStatus => match e {
            EventV::Git(r) => if s.index < s.stale.len() {
                let b = s.stale[s.index as int];
                if trim(r.stdout).len() > 0 {
                    check_next(
                        CleanV { must_force: s.must_force.push(b), ..s },
                        s.index + 1,
                        seq![
                            line_v(
                                ""@,
                                "  -> Skipping: '"@ + b + "' contains untracked or modified files."@,
                                Tone::Yellow,
                            ),
                        ],
                    )
                } else {
                    (
                        CleanV { stage: CleanStage::AwaitRemoval, ..s },
                        step_v(
                            seq![line_v(""@, "Removing worktree "@ + b, Tone::Cyan)],
                            EffectV::Git(s.cwd, seq!["worktree"@, "remove"@, b, "--force"@], true),
                        ),
                    )
                }
            } else {
                clean_over(s)
            },
            _ => clean_over(s),
        },
        CleanStage::AwaitRemoval => match e {
            EventV::Git(_) => if s.index < s.stale.len() {
                rmdir_next(s, parent(join(s.cwd, s.stale[s.index as int])), seq![])
            } else {
                clean_over(s)
            },
            _ => clean_over(s),
        },
        CleanStage::AwaitRmdir => if s.index < s.stale.len() {
            match e {
                EventV::Done(Ok(())) => rmdir_next(
                    s,
                    parent(s.dir),
                    seq![line_v(""@, "Deleted empty directory "@ + s.dir, Tone::Cyan)],
                ),
                EventV::Done(Err(_)) => check_next(s, s.index + 1, seq![]),
                _ => clean_over(s),
            }
        } else {
            clean_over(s)
        },
        CleanStage::AwaitRemaining => match e {
            EventV::Git(r) => branches_begin(s, indented(lines(r.stdout))),
            _ => clean_over(s),
        },
        CleanStage::AwaitLocal => match e {
            EventV::Git(r) => (
                CleanV {
                    stage: CleanStage::AwaitCheckedOut,
                    local: picked(LineRule::LocalBranch, r.stdout),
                    checked_out: seq![],
                    unused: seq![],
                    ..s
                },
                step_v(seq![], EffectV::Git(s.cwd, seq!["worktree"@, "list"@], false)),
            ),
            _ => clean_over(s),
        },
        CleanStage::AwaitCheckedOut => match e {
            EventV::Git(r) => {
                let co = picked(LineRule::CheckedOutBranch, r.stdout);
                let unused = without(s.local, co);
                let s2 = CleanV { checked_out: co, unused: unused, ..s };
                if unused.len() == 0 {
                    (
                        CleanV { stage: CleanStage::Over, ..s2 },
                        step_v(
                            seq![
                                line_v(
                                    ""@,
                                    "No branches to delete. Every branch is checked out on a worktree"@,
                                    Tone::Green,
                                ),
                            ],
                            EffectV::Finish,
                        ),
                    )
                } else {
                    let say = seq![line_v("\n"@, "BRANCHES TO DELETE"@, Tone::YellowBold)]
                        + listed(unused);
                    if s.prompt {
                        (
                            CleanV { stage: CleanStage::AwaitBranchAnswer, ..s2 },
                            step_v(say, EffectV::Ask("Proceed? y/(n): "@, Tone::Cyan)),
                        )
                    } else {
                        delete_next(s2, 0, say)
                    }
                }
            },
            _ => clean_over(s),
        },
        CleanStage::AwaitBranchAnswer => match e {
            EventV::Answer(a) => if agrees(a) {
                delete_next(CleanV { branches_agreed: true, ..s }, 0, seq![])
            } else {
                (
                    CleanV { stage: CleanStage::Over, ..s },
                    step_v(seq![line_v(""@, "Cancelling branch removal"@, Tone::Red)], EffectV::Finish),
                )
            },
            _ => clean_over(s),
        },
        CleanStage::AwaitDelete => match e {
            EventV::Git(_) => if s.index < s.unused.len() {
                delete_next(s, s.index + 1, seq![])
            } else {
                clean_over(s)
            },
            _ => clean_over(s),
        },
        CleanStage::AwaitBranchList => match e {
            EventV::Git(r) => (
                CleanV { stage: CleanStage::Over, ..s },
                step_v(indented(lines(r.stdout)), EffectV::Finish),
            ),
            _ => clean_over(s),
        },
        CleanStage::Over => clean_over(s),
    }
}


// ---------------------------------------------------------------- exec

/// Each item on a line of its own, indented, in yellow.
fn listed_lines(items: &Vec<String>) -> (r: Vec<Line>)
    ensures
        lines_view(r@) == listed(views(items@)),
{
    let mut r: Vec<Line> = Vec::new();
    for k in 0..items.len()
        invariant
            lines_view(r@) == listed(views(items@)).take(k as int),
    {
        let ghost before = lines_view(r@);
        let l = line("    ", items[k].clone(), Tone::Yellow);
        r.push(l);
        proof {
            assert(lines_view(r@) =~= before.push(l@));
            assert(listed(views(items@)).take(k + 1) =~= listed(views(items@)).take(k as int).push(
                listed(views(items@))[k as int],
            ));
        }
    }
    proof {
        assert(listed(views(items@)).take(items@.len() as int) =~= listed(views(items@)));
    }
    r
}

/// Each line of `out`, indented.
fn indented_lines(out: &str) -> (r: Vec<Line>)
    ensures
        lines_view(r@) == indented(lines(out@)),
{
    let ls = lines_of(out);
    let mut r: Vec<Line> = Vec::new();
    for k in 0..ls.len()
        invariant
            views(ls@) == lines(out@),
            lines_view(r@) == indented(views(ls@)).take(k as int),
    {
        let ghost before = lines_view(r@);
        let l = line("    ", ls[k].clone(), Tone::Plain);
        r.push(l);
        proof {
            assert(lines_view(r@) =~= before.push(l@));
            assert(indented(views(ls@)).take(k + 1) =~= indented(views(ls@)).take(k as int).push(
                indented(views(ls@))[k as int],
            ));
        }
    }
    proof {
        assert(indented(views(ls@)).take(ls@.len() as int) =~= indented(views(ls@)));
    }
    r
}

/// The command that would remove each worktree that holds changes.
fn forced(bs: &Vec<String>) -> (r: Vec<Line>)
    ensures
        lines_view(r@) == forced_lines(views(bs@)),
{
    let mut r: Vec<Line> = Vec::new();
    for k in 0..bs.len()
        invariant
            lines_view(r@) == forced_lines(views(bs@)).take(k as int),
    {
        let mut t = String::from_str("    git worktree remove '");
        t.append(bs[k].as_str());
        t.append("' --force");
        let ghost before = lines_view(r@);
        let l = line("", t, Tone::Yellow);
        r.push(l);
        proof {
            assert(lines_view(r@) =~= before.push(l@));
            assert(forced_lines(views(bs@)).take(k + 1) =~= forced_lines(views(bs@)).take(
                k as int,
            ).push(forced_lines(views(bs@))[k as int]));
        }
    }
    proof {
        assert(forced_lines(views(bs@)).take(bs@.len() as int) =~= forced_lines(views(bs@)));
    }
    r
}

impl CleanCommand {
    /// The local branches, from `git branch --format=%(refname:short)`.
    pub fn get_local_branches(stdout: &str) -> (r: Vec<String>)
        ensures
            views(r@) == picked(LineRule::LocalBranch, stdout@),
    {
        pick_lines(stdout, &LineRule::LocalBranch)
    }

    /// The branches of the worktrees that may be removed, from `git worktree
    /// list`: lines of locked or prunable worktrees, which end in a note, are
    /// passed over.
    pub fn get_worktree_branches(stdout: &str) -> (r: Vec<String>)
        ensures
            views(r@) == picked(LineRule::WorktreeBranch, stdout@),
    {
        pick_lines(stdout, &LineRule::WorktreeBranch)
    }

    /// The branches that worktrees have checked out, from `git worktree list`:
    /// also those of locked and prunable worktrees, whose lines end in a note.
    pub fn get_checked_out_branches(stdout: &str) -> (r: Vec<String>)
        ensures
            views(r@) == picked(LineRule::CheckedOutBranch, stdout@),
    {
        pick_lines(stdout, &LineRule::CheckedOutBranch)
    }

    /// The branches of `origin`, from `git branch --remotes`.
    pub fn get_remote_branches(stdout: &str) -> (r: Vec<String>)
        ensures
            views(r@) == picked(LineRule::RemoteBranch, stdout@),
    {
        pick_lines(stdout, &LineRule::RemoteBranch)
    }

    /// A run of this command that has not begun.
    pub fn start(&self) -> (r: CleanRun)
        ensures
            r@ == clean_start(self.autoconfirm),
    {
        let r = CleanRun {
            prompt: !self.autoconfirm,
            stage: CleanStage::Begin,
            cwd: String::new(),
            remote: Vec::new(),
            worktrees: Vec::new(),
            stale: Vec::new(),
            index: 0,
            must_force: Vec::new(),
            dir: String::new(),
            worktrees_agreed: false,
            local: Vec::new(),
            checked_out: Vec::new(),
            unused: Vec::new(),
            branches_agreed: false,
        };
        proof {
            assert(r@.remote =~= Seq::<Seq<char>>::empty());
            assert(r@.worktrees =~= Seq::<Seq<char>>::empty());
            assert(r@.stale =~= Seq::<Seq<char>>::empty());
            assert(r@.must_force =~= Seq::<Seq<char>>::empty());
            assert(r@.local =~= Seq::<Seq<char>>::empty());
            assert(r@.checked_out =~= Seq::<Seq<char>>::empty());
            assert(r@.unused =~= Seq::<Seq<char>>::empty());
        }
        r
    }
}

impl CleanRun {
    fn over(&mut self) -> (out: Step)
        ensures
            (final(self)@, out@) == clean_over(old(self)@),
    {
        self.stage = CleanStage::Over;
        quiet(Effect::Finish)
    }

    fn check_next(&mut self, j: usize, say: Vec<Line>) -> (out: Step)
        ensures
            (final(self)@, out@) == check_next(old(self)@, j as nat, lines_view(say@)),
    {
        if j < self.stale.len() {
            self.stage = CleanStage::AwaitStatus;
            self.index = j;
            let dir = join_of(self.cwd.as_str(), self.stale[j].as_str());
            let e = run_git(&dir, args2("status", "--porcelain"), false);
            step(say, e)
        } else {
            let mut say = joined(say, single(fixed_line("\n", "---------------------", Tone::Dimmed)));
            if self.must_force.len() > 0 {
                let head = single(
                    fixed_line(
                        "\n",
                        "Untracked files. Inspect, and possibly remove with --force:",
                        Tone::Yellow,
                    ),
                );
                say = joined(say, joined(head, forced(&self.must_force)));
            }
            say = joined(say, single(fixed_line("\n", "REMAINING WORKTREES:", Tone::GreenBold)));
            self.stage = CleanStage::AwaitRemaining;
            let e = run_git(&self.cwd, args2("worktree", "list"), false);
            step(say, e)
        }
    }

    fn rmdir_next(&mut self, d: Option<String>, say: Vec<Line>) -> (out: Step)
        requires
            old(self).index < old(self).stale@.len(),
        ensures
            (final(self)@, out@) == rmdir_next(
                old(self)@,
                match d {
                    Some(p) => Some(p@),
                    None => None,
                },
                lines_view(say@),
            ),
    {
        let _n = self.stale.len();
        match d {
            Some(p) => {
                if !same_path(p.as_str(), self.cwd.as_str()) {
                    self.stage = CleanStage::AwaitRmdir;
                    let e = Effect::RemoveDir { path: p.clone() };
                    self.dir = p;
                    step(say, e)
                } else {
                    self.check_next(self.index + 1, say)
                }
            },
            None => self.check_next(self.index + 1, say),
        }
    }

    fn branches_begin(&mut self, say: Vec<Line>) -> (out: Step)
        ensures
            (final(self)@, out@) == branches_begin(old(self)@, lines_view(say@)),
    {
        self.stage = CleanStage::AwaitLocal;
        let e = run_git(&self.cwd, args2("branch", "--format=%(refname:short)"), false);
        step(say, e)
    }

    fn delete_next(&mut self, j: usize, say: Vec<Line>) -> (out: Step)
        ensures
            (final(self)@, out@) == delete_next(old(self)@, j as nat, lines_view(say@)),
    {
        if j < self.unused.len() {
            self.stage = CleanStage::AwaitDelete;
            self.index = j;
            let e = run_git(&self.cwd, args3("branch", "-D", self.unused[j].as_str()), true);
            step(say, e)
        } else {
            let say = joined(say, single(fixed_line("\n", "REMAINING BRANCHES:", Tone::GreenBold)));
            self.stage = CleanStage::AwaitBranchList;
            let e = run_git(&self.cwd, args1("branch"), false);
            step(say, e)
        }
    }

    /// Takes what the last effect gave back and says what to do next.
    #[verifier::rlimit(80)]
    #[verifier::spinoff_prover]
    pub fn step(&mut self, e: Event) -> (out: Step)
        ensures
            (final(self)@, out@) == clean_next(old(self)@, e@),
    {
        match self.stage {
            CleanStage::Begin => {
                self.stage = CleanStage::AwaitCwd;
                quiet(Effect::CurrentDir)
            },
            CleanStage::AwaitCwd => match e {
                Event::Place(Ok(cwd)) => {
                    let bare = join_of(cwd.as_str(), ".bare");
                    self.cwd = cwd;
                    self.stage = CleanStage::AwaitBare;
                    quiet(Effect::PathExists { path: bare })
                },
                Event::Place(Err(m)) => {
                    let mut message = String::from_str("Could not determine current directory: ");
                    message.append(m.as_str());
                    self.stage = CleanStage::Over;
                    quiet(Effect::Panic { message })
                },
                _ => self.over(),
            },
            CleanStage::AwaitBare => match e {
                Event::Flag(true) => {
                    self.stage = CleanStage::AwaitFetch;
                    quiet(run_git(&self.cwd, args2("fetch", "--prune"), true))
                },
                Event::Flag(false) => {
                    self.stage = CleanStage::Over;
                    step(
                        single(
                            fixed_line(
                                "",
                                "This command must be executed from your top-level worktree repository",
                                Tone::Red,
                            ),
                        ),
                        Effect::Exit { code: 1 },
                    )
                },
                _ => self.over(),
            },
            CleanStage::AwaitFetch => match e {
                Event::Git(_) => {
                    self.stage = CleanStage::AwaitRemote;
                    let say = if self.prompt {
                        no_lines()
                    } else {
                        single(
                            fixed_line(
                                "",
                                "!! Proceeding to clean worktrees and branches without prompting for confirmation",
                                Tone::Yellow,
                            ),
                        )
                    };
                    step(say, run_git(&self.cwd, args2("branch", "--remotes"), false))
                },
                _ => self.over(),
            },
            CleanStage::AwaitRemote => match e {
                Event::Git(r) => {
                    self.remote = CleanCommand::get_remote_branches(r.stdout.as_str());
                    self.worktrees = Vec::new();
                    self.stale = Vec::new();
                    proof {
                        assert(views(self.worktrees@) =~= Seq::<Seq<char>>::empty());
                        assert(views(self.stale@) =~= Seq::<Seq<char>>::empty());
                    }
                    self.stage = CleanStage::AwaitWorktrees;
                    quiet(run_git(&self.cwd, args2("worktree", "list"), false))
                },
                _ => self.over(),
            },
            CleanStage::AwaitWorktrees => match e {
                Event::Git(r) => {
                    let wts = CleanCommand::get_worktree_branches(r.stdout.as_str());
                    let stale = items_without(&wts, &self.remote);
                    self.worktrees = wts;
                    self.stale = stale;
                    self.must_force = Vec::new();
                    proof {
                        assert(views(self.must_force@) =~= Seq::<Seq<char>>::empty());
                    }
                    if self.stale.len() == 0 {
                        self.branches_begin(
                            single(
                                fixed_line(
                                    "",
                                    "No worktrees to delete. Every worktree branch exists on remote",
                                    Tone::Green,
                                ),
                            ),
                        )
                    } else {
                        let say = joined(
                            single(fixed_line("\n", "WORKTREES TO DELETE", Tone::YellowBold)),
                            listed_lines(&self.stale),
                        );
                        if self.prompt {
                            self.stage = CleanStage::AwaitWorktreeAnswer;
                            step(
                                say,
                                Effect::Ask {
                                    prompt: String::from_str("Proceed? y/(n): "),
                                    tone: Tone::Cyan,
                                },
                            )
                        } else {
                            self.check_next(0, say)
                        }
                    }
                },
                _ => self.over(),
            },
            CleanStage::AwaitWorktreeAnswer => match e {
                Event::Answer(a) => if answer_agrees(a.as_str()) {
                    self.worktrees_agreed = true;
                    self.check_next(0, no_lines())
                } else {
                    self.branches_begin(
                        single(fixed_line("", "Cancelling worktree removal", Tone::Red)),
                    )
                },
                _ => self.over(),
            },
            CleanStage::AwaitStatus => match e {
                Event::Git(r) => if self.index < self.stale.len() {
                    let b = self.stale[self.index].clone();
                    let t = trimmed(r.stdout.as_str());
                    if t.unicode_len() > 0 {
                        let mut m = String::from_str("  -> Skipping: '");
                        m.append(b.as_str());
                        m.append("' contains untracked or modified files.");
                        self.must_force.push(b);
                        proof {
                            assert(views(self.must_force@) =~= views(old(self).must_force@).push(
                                b@,
                            ));
                        }
                        let next = self.index + 1;
                        self.check_next(next, single(line("", m, Tone::Yellow)))
                    } else {
                        let mut m = String::from_str("Removing worktree ");
                        m.append(b.as_str());
                        self.stage = CleanStage::AwaitRemoval;
                        let e = run_git(
                            &self.cwd,
                            args4("worktree", "remove", b.as_str(), "--force"),
                            true,
                        );
                        step(single(line("", m, Tone::Cyan)), e)
                    }
                } else {
                    self.over()
                },
                _ => self.over(),
            },
            CleanStage::AwaitRemoval => match e {
                Event::Git(_) => if self.index < self.stale.len() {
                    let path = join_of(self.cwd.as_str(), self.stale[self.index].as_str());
                    let d = parent_of(path.as_str());
                    self.rmdir_next(d, no_lines())
                } else {
                    self.over()
                },
                _ => self.over(),
            },
            CleanStage::AwaitRmdir => if self.index < self.stale.len() {
                match e {
                    Event::Done(Ok(())) => {
                        let mut m = String::from_str("Deleted empty directory ");
                        m.append(self.dir.as_str());
                        let d = parent_of(self.dir.as_str());
                        self.rmdir_next(d, single(line("", m, Tone::Cyan)))
                    },
                    Event::Done(Err(_)) => {
                        let next = self.index + 1;
                        self.check_next(next, no_lines())
                    },
                    _ => self.over(),
                }
            } else {
                self.over()
            },
            CleanStage::AwaitRemaining => match e {
                Event::Git(r) => {
                    let say = indented_lines(r.stdout.as_str());
                    self.branches_begin(say)
                },
                _ => self.over(),
            },
            CleanStage::AwaitLocal => match e {
                Event::Git(r) => {
                    self.local = CleanCommand::get_local_branches(r.stdout.as_str());
                    self.checked_out = Vec::new();
                    self.unused = Vec::new();
                    proof {
                        assert(views(self.checked_out@) =~= Seq::<Seq<char>>::empty());
                        assert(views(self.unused@) =~= Seq::<Seq<char>>::empty());
                    }
                    self.stage = CleanStage::AwaitCheckedOut;
                    quiet(run_git(&self.cwd, args2("worktree", "list"), false))
                },
                _ => self.over(),
            },
            CleanStage::AwaitCheckedOut => match e {
                Event::Git(r) => {
                    let co = CleanCommand::get_checked_out_branches(r.stdout.as_str());
                    let unused = items_without(&self.local, &co);
                    self.checked_out = co;
                    self.unused = unused;
                    if self.unused.len() == 0 {
                        self.stage = CleanStage::Over;
                        step(
                            single(
                                fixed_line(
                                    "",
                                    "No branches to delete. Every branch is checked out on a worktree",
                                    Tone::Green,
                                ),
                            ),
                            Effect::Finish,
                        )
                    } else {
                        let say = joined(
                            single(fixed_line("\n", "BRANCHES TO DELETE", Tone::YellowBold)),
                            listed_lines(&self.unused),
                        );
                        if self.prompt {
                            self.stage = CleanStage::AwaitBranchAnswer;
                            step(
                                say,
                                Effect::Ask {
                                    prompt: String::from_str("Proceed? y/(n): "),
                                    tone: Tone::Cyan,
                                },
                            )
                        } else {
                            self.delete_next(0, say)
                        }
                    }
                },
                _ => self.over(),
            },
            CleanStage::AwaitBranchAnswer => match e {
                Event::Answer(a) => if answer_agrees(a.as_str()) {
                    self.branches_agreed = true;
                    self.delete_next(0, no_lines())
                } else {
                    self.stage = CleanStage::Over;
                    step(
                        single(fixed_line("", "Cancelling branch removal", Tone::Red)),
                        Effect::Finish,
                    )
                },
                _ => self.over(),
            },
            CleanStage::AwaitDelete => match e {
                Event::Git(_) => if self.index < self.unused.len() {
                    let next = self.index + 1;
                    self.delete_next(next, no_lines())
                } else {
                    self.over()
                },
                _ => self.over(),
            },
            CleanStage::AwaitBranchList => match e {
                Event::Git(r) => {
                    let say = indented_lines(r.stdout.as_str());
                    self.stage = CleanStage::Over;
                    step(say, Effect::Finish)
                },
                _ => self.over(),
            },
            CleanStage::Over => self.over(),
        }
    }
}



// ---------------------------------------------------------------- laws

/// What a run keeps between steps: the worktrees it would delete are those
/// whose branches it read from `git worktree list` and did not find among the
/// remote branches; the branches it would delete are the local branches it did
/// not find checked out; and while it removes worktrees or deletes branches,
/// the user has agreed to it where the run asks.
pub open spec fn clean_inv(s: CleanV) -> bool {
    &&& s.stale == without(s.worktrees, s.remote)
    &&& s.unused.len() > 0 ==> s.unused == without(s.local, s.checked_out)
    &&& (s.stage == CleanStage::AwaitStatus || s.stage == CleanStage::AwaitRemoval || s.stage
        == CleanStage::AwaitRmdir) ==> (s.prompt ==> s.worktrees_agreed)
    &&& s.stage == CleanStage::AwaitDelete ==> (s.prompt ==> s.branches_agreed)
}

/// What `without` keeps is in `items` and not in `keep`.
pub proof fn lemma_without(items: Seq<Seq<char>>, keep: Seq<Seq<char>>, b: Seq<char>)
    requires
        without(items, keep).contains(b),
    ensures
        items.contains(b),
        !keep.contains(b),
{
    let f = |x: Seq<char>| if keep.contains(x) { None } else { Some(x) };
    items.lemma_filter_map_contains(f, b);
}

/// Law: a run of `jgit clean` begins in a state that keeps its invariant.
pub proof fn law_clean_start(autoconfirm: bool)
    ensures
        clean_inv(clean_start(autoconfirm)),
{
    let s = clean_start(autoconfirm);
    assert(without(s.worktrees, s.remote) =~= Seq::<Seq<char>>::empty());
}

/// Law: every step keeps the invariant, and `jgit clean` removes a worktree
/// only where its branch is not on the remote, `git status --porcelain` in it
/// printed nothing but white space, and the user agreed unless `-y` was given.
#[verifier::rlimit(50)]
pub proof fn law_clean_removes_only_gone_worktrees(s: CleanV, e: EventV)
    requires
        clean_inv(s),
    ensures
        clean_inv(clean_next(s, e).0),
        ({
            let (t, out) = clean_next(s, e);
            out.next matches EffectV::Git(_, args, _) ==> (args.len() == 4 && args[0] == "worktree"@
                && args[1] == "remove"@ ==> {
                &&& t.worktrees.contains(args[2])
                &&& !t.remote.contains(args[2])
                &&& t.prompt ==> t.worktrees_agreed
                &&& e matches EventV::Git(r) && trim(r.stdout).len() == 0
            })
        }),
{
    let (t, out) = clean_next(s, e);
    if s.stage == CleanStage::AwaitStatus && s.index < s.stale.len() {
        let b = s.stale[s.index as int];
        assert(s.stale.contains(b));
        lemma_without(s.worktrees, s.remote, b);
    }
    if s.stage == CleanStage::AwaitRemote && e is Git {
        assert(without(t.worktrees, t.remote) =~= Seq::<Seq<char>>::empty());
    }
}

/// Law: every step keeps the invariant, and `jgit clean` deletes a branch only
/// where it is a local branch that no worktree has checked out, and the user
/// agreed unless `-y` was given.
#[verifier::rlimit(50)]
pub proof fn law_clean_deletes_only_unused_branches(s: CleanV, e: EventV)
    requires
        clean_inv(s),
    ensures
        ({
            let (t, out) = clean_next(s, e);
            out.next matches EffectV::Git(_, args, _) ==> (args.len() == 3 && args[0] == "branch"@
                && args[1] == "-D"@ ==> {
                &&& t.local.contains(args[2])
                &&& !t.checked_out.contains(args[2])
                &&& t.prompt ==> t.branches_agreed
            })
        }),
{
    let (t, out) = clean_next(s, e);
    law_clean_removes_only_gone_worktrees(s, e);
    if let EffectV::Git(_, args, _) = out.next {
        if args.len() == 3 && args[0] == "branch"@ && args[1] == "-D"@ {
            assert(t.stage == CleanStage::AwaitDelete);
            assert(t.unused.contains(args[2])) by {
                assert(t.unused[t.index as int] == args[2]);
            }
            lemma_without(t.local, t.checked_out, args[2]);
        }
    }
}

/// Law: with `-y` nothing is asked: a run that does not prompt never comes to
/// prompt, and no step of it asks anything.
pub proof fn law_clean_yes_never_asks(s: CleanV, e: EventV)
    requires
        !s.prompt,
    ensures
        !clean_next(s, e).0.prompt,
        !(clean_next(s, e).1.next is Ask),
{
}

/// Law: a branch that the branch phase's `git worktree list` shows checked
/// out by a worktree, locked, prunable or neither, is read as checked out and
/// is not among the branches to delete.
pub proof fn law_clean_keeps_branches_of_listed_worktrees(
    s: CleanV,
    r: GitResultV,
    i: int,
    path: Seq<char>,
    gap: Seq<char>,
    commit: Seq<char>,
    branch: Seq<char>,
    note: Seq<char>,
)
    requires
        s.stage == CleanStage::AwaitCheckedOut,
        0 <= i < lines(r.stdout).len(),
        lines(r.stdout)[i] == worktree_line(path, gap, commit, branch, note),
        path.len() > 0,
        !is_white(path[0]),
        !branch.contains('['),
        is_note(note),
    ensures
        clean_next(s, EventV::Git(r)).0.checked_out.contains(branch),
        !clean_next(s, EventV::Git(r)).0.unused.contains(branch),
{
    law_listed_worktree_branch_is_read(r.stdout, i, path, gap, commit, branch, note);
    let t = clean_next(s, EventV::Git(r)).0;
    if t.unused.contains(branch) {
        lemma_without(s.local, t.checked_out, branch);
    }
}

/// What `without` keeps, conversely: an item of `items` that `keep` does not
/// hold is kept.
pub proof fn lemma_without_keeps(items: Seq<Seq<char>>, keep: Seq<Seq<char>>, b: Seq<char>)
    requires
        items.contains(b),
        !keep.contains(b),
    ensures
        without(items, keep).contains(b),
{
    let f = |x: Seq<char>| if keep.contains(x) { None } else { Some(x) };
    let k = choose|k: int| 0 <= k < items.len() && items[k] == b;
    lemma_filter_map_holds(items, f, k, b);
}

/// Law: the worktrees weighed for removal are those of every line of `git
/// worktree list`: the run keeps the branches read from the whole listing and
/// the remote branches read before, and a branch is to be removed exactly
/// when the listing shows it and the remote does not have it.
pub proof fn law_clean_weighs_every_listed_worktree(s: CleanV, r: GitResultV)
    requires
        s.stage == CleanStage::AwaitWorktrees,
    ensures
        ({
            let t = clean_next(s, EventV::Git(r)).0;
            &&& t.worktrees == picked(LineRule::WorktreeBranch, r.stdout)
            &&& t.remote == s.remote
            &&& forall|b: Seq<char>|
                #[trigger] t.stale.contains(b) <==> (picked(LineRule::WorktreeBranch, r.stdout).contains(b)
                    && !s.remote.contains(b))
        }),
{
    let t = clean_next(s, EventV::Git(r)).0;
    let wts = picked(LineRule::WorktreeBranch, r.stdout);
    assert forall|b: Seq<char>|
        #[trigger] t.stale.contains(b) <==> (wts.contains(b) && !s.remote.contains(b)) by {
        if t.stale.contains(b) {
            lemma_without(t.worktrees, t.remote, b);
        }
        if wts.contains(b) && !s.remote.contains(b) {
            lemma_without_keeps(wts, s.remote, b);
        }
    }
}

/// Law: the remote branches are those read from every line of `git branch
/// --remotes`, and the branch phase weighs every local branch read from `git
/// branch` against every branch that `git worktree list` shows checked out:
/// a branch is to be deleted exactly when it is local and not checked out.
pub proof fn law_clean_reads_whole_listings(s: CleanV, r: GitResultV)
    ensures
        s.stage == CleanStage::AwaitRemote ==> clean_next(s, EventV::Git(r)).0.remote == picked(
            LineRule::RemoteBranch,
            r.stdout,
        ),
        s.stage == CleanStage::AwaitLocal ==> clean_next(s, EventV::Git(r)).0.local == picked(
            LineRule::LocalBranch,
            r.stdout,
        ),
        s.stage == CleanStage::AwaitCheckedOut ==> {
            let t = clean_next(s, EventV::Git(r)).0;
            &&& t.checked_out == picked(LineRule::CheckedOutBranch, r.stdout)
            &&& forall|b: Seq<char>|
                #[trigger] t.unused.contains(b) <==> (s.local.contains(b) && !picked(
                    LineRule::CheckedOutBranch,
                    r.stdout,
                ).contains(b))
        },
{
    if s.stage == CleanStage::AwaitCheckedOut {
        let t = clean_next(s, EventV::Git(r)).0;
        let co = picked(LineRule::CheckedOutBranch, r.stdout);
        assert forall|b: Seq<char>|
            #[trigger] t.unused.contains(b) <==> (s.local.contains(b) && !co.contains(b)) by {
            if t.unused.contains(b) {
                lemma_without(s.local, co, b);
            }
            if s.local.contains(b) && !co.contains(b) {
                lemma_without_keeps(s.local, co, b);
            }
        }
    }
}

} // verus!
