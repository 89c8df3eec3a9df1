//! `jgit tree`: find the jgit repositories (directories holding a `.bare`
//! repository) below the current directory and draw them, with their
//! worktrees, as a tree.
use vstd::prelude::*;
use crate::dirtree::{lemma_missing_holds, missing_prefixes, outline, tree_text, DirTree, NodePath};
use crate::listing::{pick_lines, picked, LineRule};
use crate::order::{comp_rank, sort_paths, sorted_paths};
use crate::paths::{components, components_of, join, join_of, parent, parent_of, strip_path_prefix, strip_prefix_of};
use crate::session::{
    args3, concat2, finish, finish_v, line, line_v, lines_view, no_lines, quiet, run_git, single,
    step, step_v, Effect, EffectV, Entry, Event, EventV, Line, LineV, Step, StepV, Tone,
};
use crate::text::{chars_of, decimal, decimal_string, views};

verus! {

/// The options of `jgit tree`.
pub struct TreeCommand {
    /// Show the repositories only, not their worktrees.
    pub hide_branches: bool,
}

/// The components of a repository's relative path, none for `.` itself.
pub open spec fn path_components(p: Seq<char>) -> Seq<Seq<char>> {
    if components(p) == seq![seq!['.']] {
        seq![]
    } else {
        components(p)
    }
}

/// `Path::file_name`: the last component of `p` where it is a name.
pub open spec fn file_name(p: Seq<char>) -> Option<Seq<char>> {
    let c = components(p);
    if c.len() > 0 && comp_rank(c.last()) == 4 {
        Some(c.last())
    } else {
        None
    }
}

/// The path, relative to `root`, of the repository whose `.bare` directory is at
/// `bare`; `.` for `root` itself.
pub open spec fn repo_of(bare: Seq<char>, root: Seq<char>) -> Seq<char> {
    match parent(bare) {
        Some(p) => match strip_path_prefix(p, root) {
            Some(r) => if r.len() > 0 {
                r
            } else {
                "."@
            },
            None => "."@,
        },
        None => "."@,
    }
}

/// `s` with each `/` replaced by `∕` (`str::replace('/', "∕")`).
pub open spec fn slash_free(s: Seq<char>) -> Seq<char> {
    s.map_values(|c: char| if c == '/' { '\u{2215}' } else { c })
}

/// The name shown for a worktree: its path relative to the repository where it
/// lies below it, else its whole path, with `/` replaced by `∕`.
pub open spec fn worktree_label(worktree: Seq<char>, repo_abs: Seq<char>) -> Seq<char> {
    slash_free(
        match strip_path_prefix(worktree, repo_abs) {
            Some(r) => r,
            None => worktree,
        },
    )
}

/// The nodes of a tree after `add_path` of each of `paths` in turn.
pub open spec fn grow(nodes: Seq<NodePath>, paths: Seq<NodePath>) -> Seq<NodePath>
    decreases paths.len(),
{
    if paths.len() == 0 {
        nodes
    } else {
        let n = grow(nodes, paths.drop_last());
        n + missing_prefixes(n, paths.last(), 0)
    }
}

/// What a directory listing adds to the repositories found and to the
/// directories still to list: each directory named `.bare` marks a repository,
/// every other directory is listed in turn.
pub open spec fn visit(
    found: Seq<Seq<char>>,
    stack: Seq<Seq<char>>,
    dir: Seq<char>,
    root: Seq<char>,
    entries: Seq<(Seq<char>, bool)>,
) -> (Seq<Seq<char>>, Seq<Seq<char>>)
    decreases entries.len(),
{
    if entries.len() == 0 {
        (found, stack)
    } else {
        let (f, st) = visit(found, stack, dir, root, entries.drop_last());
        let (name, is_dir) = entries.last();
        if !is_dir {
            (f, st)
        } else {
            let p = join(dir, name);
            if file_name(p) == Some(".bare"@) {
                (f.push(repo_of(p, root)), st)
            } else {
                (f, st.push(p))
            }
        }
    }
}

/// Where a run of `jgit tree` stands.
#[derive(Clone, Copy, Debug, PartialEq, Eq, Structural)]
pub enum TreeStage {
    Begin,
    AwaitCwd,
    AwaitEntries,
    AwaitCanonical,
    AwaitWorktrees,
    Over,
}

/// A run of `jgit tree`.
pub struct TreeRun {
    pub show_worktrees: bool,
    pub stage: TreeStage,
    pub cwd: String,
    /// The directory being listed.
    pub dir: String,
    /// The directories still to list.
    pub stack: Vec<String>,
    /// The repositories found so far, relative to `cwd`.
    pub found: Vec<String>,
    /// The repositories found, in order.
    pub repos: Vec<String>,
    pub index: usize,
    pub tree: DirTree,
    pub count: usize,
    /// The canonical path of the repository whose worktrees are being read.
    pub repo_abs: String,
}

pub struct TreeV {
    pub show_worktrees: bool,
    pub stage: TreeStage,
    pub cwd: Seq<char>,
    pub dir: Seq<char>,
    pub stack: Seq<Seq<char>>,
    pub found: Seq<Seq<char>>,
    pub repos: Seq<Seq<char>>,
    pub index: nat,
    pub nodes: Seq<NodePath>,
    pub count: nat,
    pub repo_abs: Seq<char>,
}

impl View for TreeRun {
    type V = TreeV;

    open spec fn view(&self) -> TreeV {
        TreeV {
            show_worktrees: self.show_worktrees,
            stage: self.stage,
            cwd: self.cwd@,
            dir: self.dir@,
            stack: views(self.stack@),
            found: views(self.found@),
            repos: views(self.repos@),
            index: self.index as nat,
            nodes: self.tree@,
            count: self.count as nat,
            repo_abs: self.repo_abs@,
        }
    }
}

impl TreeRun {
    /// The tree is well formed and its root is shown as `.`.
    pub open spec fn wf(&self) -> bool {
        self.tree.wf() && self.tree.root_label() == "."@
    }
}

/// A run that has not begun.
pub open spec fn tree_start(hide_branches: bool) -> TreeV {
    TreeV {
        show_worktrees: !hide_branches,
        stage: TreeStage::Begin,
        cwd: seq![],
        dir: seq![],
        stack: seq![],
        found: seq![],
        repos: seq![],
        index: 0,
        nodes: seq![seq![]],
        count: 0,
        repo_abs: seq![],
    }
}

/// The line under the tree: how many repositories, and how many worktrees.
pub open spec fn summary(s: TreeV) -> Seq<char> {
    if s.show_worktrees {
        decimal(s.repos.len()) + " jgit repositories, "@ + decimal(s.count) + " worktrees"@
    } else {
        decimal(s.repos.len()) + " jgit repositories"@
    }
}

/// Put repository `i` into the tree and read its worktrees, or, where worktrees
/// are hidden, go on with the next; after the last, print the tree.
pub open spec fn next_repo(s: TreeV, i: nat) -> (TreeV, StepV)
    decreases s.repos.len() - i,
{
    if i < s.repos.len() {
        let comps = path_components(s.repos[i as int]);
        let nodes = s.nodes + missing_prefixes(s.nodes, comps, 0);
        if s.show_worktrees {
            (
                TreeV { stage: TreeStage::AwaitCanonical, index: i, nodes: nodes, ..s },
                step_v(seq![], EffectV::Canonicalize(join(s.cwd, s.repos[i as int]))),
            )
        } else {
            next_repo(TreeV { nodes: nodes, ..s }, i + 1)
        }
    } else {
        (
            TreeV { stage: TreeStage::Over, ..s },
            finish_v(seq![], tree_text(outline("."@, s.nodes)) + "\n"@ + summary(s) + "\n"@),
        )
    }
}

/// The walk is over: sort what was found and draw it.
pub open spec fn finish_walk(s: TreeV) -> (TreeV, StepV) {
    let repos = sorted_paths(s.found);
    if repos.len() == 0 {
        (
            TreeV { stage: TreeStage::Over, repos: repos, ..s },
            step_v(
                seq![line_v(""@, "No jgit repositories found in "@ + s.cwd, Tone::Plain)],
                EffectV::Finish,
            ),
        )
    } else {
        next_repo(TreeV { repos: repos, nodes: seq![seq![]], count: 0, ..s }, 0)
    }
}

/// The paths a repository's worktrees add to the tree.
pub open spec fn worktree_paths(comps: NodePath, wts: Seq<Seq<char>>, repo_abs: Seq<char>) -> Seq<
    NodePath,
> {
    if wts.len() == 0 {
        seq![comps.push("(no worktrees)"@)]
    } else {
        wts.map_values(|w: Seq<char>| comps.push(worktree_label(w, repo_abs)))
    }
}

/// The run stops, saying nothing.
pub open spec fn tree_over(s: TreeV) -> (TreeV, StepV) {
    (TreeV { stage: TreeStage::Over, ..s }, step_v(seq![], EffectV::Finish))
}

/// One step of `jgit tree`.
pub open spec fn tree_next(s: TreeV, e: EventV) -> (TreeV, StepV) {
    match s.stage {
        TreeStage::Begin => (
            TreeV { stage: TreeStage::AwaitCwd, ..s },
            step_v(seq![], EffectV::CurrentDir),
        ),
        TreeStage::AwaitCwd => match e {
            EventV::Place(Ok(cwd)) => (
                TreeV { stage: TreeStage::AwaitEntries, cwd: cwd, dir: cwd, stack: seq![], found: seq![], ..s },
                step_v(seq![], EffectV::ReadDir(cwd)),
            ),
            EventV::Place(Err(m)) => (
                TreeV { stage: TreeStage::Over, ..s },
                step_v(
                    seq![line_v(""@, "Could not determine current directory: "@ + m, Tone::Plain)],
                    EffectV::Exit(1),
                ),
            ),
            _ => tree_over(s),
        },
        TreeStage::AwaitEntries => match e {
            EventV::Entries(es) => {
                let (f, st) = visit(s.found, s.stack, s.dir, s.cwd, es);
                if st.len() > 0 {
                    (
                        TreeV {
                            stage: TreeStage::AwaitEntries,
                            found: f,
                            stack: st.drop_last(),
                            dir: st.last(),
                            ..s
                        },
                        step_v(seq![], EffectV::ReadDir(st.last())),
                    )
                } else {
                    finish_walk(TreeV { found: f, stack: st, ..s })
                }
            },
            _ => tree_over(s),
        },
        TreeStage::AwaitCanonical => match e {
            EventV::Place(r) => if s.index < s.repos.len() {
                let repo_path = join(s.cwd, s.repos[s.index as int]);
                (
                    TreeV {
                        stage: TreeStage::AwaitWorktrees,
                        repo_abs: match r {
                            Ok(a) => a,
                            Err(_) => repo_path,
                        },
                        ..s
                    },
                    step_v(
                        seq![],
                        EffectV::Git(repo_path, seq!["worktree"@, "list"@, "--porcelain"@], false),
                    ),
                )
            } else {
                tree_over(s)
            },
            _ => tree_over(s),
        },
        TreeStage::AwaitWorktrees => match e {
            EventV::Git(r) => if s.index < s.repos.len() {
                let wts = picked(LineRule::WorktreePath, r.stdout);
                let comps = path_components(s.repos[s.index as int]);
                let nodes = grow(s.nodes, worktree_paths(comps, wts, s.repo_abs));
                let count = if s.count + wts.len() > usize::MAX {
                    usize::MAX as nat
                } else {
                    s.count + wts.len()
                };
                next_repo(TreeV { nodes: nodes, count: count, ..s }, s.index + 1)
            } else {
                tree_over(s)
            },
            _ => tree_over(s),
        },
        TreeStage::Over => tree_over(s),
    }
}

// ---------------------------------------------------------------- exec

impl TreeCommand {
    /// The components of a repository's relative path, none for `.` itself.
    pub fn path_components(path: &str) -> (r: Vec<String>)
        ensures
            views(r@) == path_components(path@),
    {
        let c = components_of(path);
        if c.len() == 1 {
            let v = chars_of(c[0].as_str());
            if v.len() == 1 && v[0] == '.' {
                proof {
                    assert(c@[0]@ =~= seq!['.']);
                    assert(views(c@) =~= seq![seq!['.']]);
                }
                let r: Vec<String> = Vec::new();
                proof {
                    assert(views(r@) =~= Seq::<Seq<char>>::empty());
                }
                return r;
            }
            proof {
                if views(c@) == seq![seq!['.']] {
                    assert(views(c@)[0] == c@[0]@);
                    assert(v@ == seq!['.']);
                }
            }
        } else {
            proof {
                if views(c@) == seq![seq!['.']] {
                    assert(views(c@).len() == 1);
                }
            }
        }
        c
    }

    /// The absolute paths of a repository's worktrees, from `git worktree list
    /// --porcelain`: the path of each `worktree` line, in order, leaving out the
    /// `.bare` repository itself.
    pub fn get_worktrees(stdout: &str) -> (r: Vec<String>)
        ensures
            views(r@) == picked(LineRule::WorktreePath, stdout@),
    {
        pick_lines(stdout, &LineRule::WorktreePath)
    }
}

/// `Path::file_name`.
pub fn file_name_of(p: &str) -> (r: Option<String>)
    ensures
        match r {
            Some(n) => file_name(p@) == Some(n@),
            None => file_name(p@) == None::<Seq<char>>,
        },
{
    let c = components_of(p);
    if c.len() == 0 {
        return None;
    }
    let last = c[c.len() - 1].clone();
    proof {
        assert(views(c@).last() == last@);
    }
    let v = chars_of(last.as_str());
    let n = v.len();
    let root = n == 1 && v[0] == '/';
    let cur = n == 1 && v[0] == '.';
    let up = n == 2 && v[0] == '.' && v[1] == '.';
    proof {
        if last@ == seq!['/'] || last@ == seq!['.'] {
            assert(v@[0] == last@[0]);
        }
        if last@ == seq!['.', '.'] {
            assert(v@[0] == last@[0] && v@[1] == last@[1]);
        }
        if root {
            assert(last@ =~= seq!['/']);
        }
        if cur {
            assert(last@ =~= seq!['.']);
        }
        if up {
            assert(last@ =~= seq!['.', '.']);
        }
    }
    if root || cur || up {
        None
    } else {
        Some(last)
    }
}

/// The relative path of the repository whose `.bare` directory is at `bare`.
pub fn repo_of_bare(bare: &str, root: &str) -> (r: String)
    ensures
        r@ == repo_of(bare@, root@),
{
    match parent_of(bare) {
        Some(p) => match strip_prefix_of(p.as_str(), root) {
            Some(r) => if r.unicode_len() > 0 {
                r
            } else {
                String::from_str(".")
            },
            None => String::from_str("."),
        },
        None => String::from_str("."),
    }
}

/// The name shown for a worktree of the repository at `repo_abs`.
pub fn worktree_name(worktree: &str, repo_abs: &str) -> (r: String)
    ensures
        r@ == worktree_label(worktree@, repo_abs@),
{
    let rel = match strip_prefix_of(worktree, repo_abs) {
        Some(r) => r,
        None => String::from_str(worktree),
    };
    let v = chars_of(rel.as_str());
    let mut r = String::new();
    let ghost target = slash_free(rel@);
    let mut k: usize = 0;
    let mut start: usize = 0;
    // copy runs of characters, putting `∕` in place of each `/`
    while k < v.len()
        invariant
            v@ == rel@,
            target == slash_free(rel@),
            start <= k <= v@.len(),
            r@ + v@.subrange(start as int, k as int) == target.take(k as int),
            forall|i: int| start <= i < k ==> #[trigger] v@[i] != '/',
        decreases v@.len() - k,
    {
        if v[k] == '/' {
            let piece = crate::text::slice_string(rel.as_str(), &v, start, k);
            r.append(piece.as_str());
            r.append("\u{2215}");
            proof {
                reveal_strlit("\u{2215}");
                assert(target.take(k + 1) =~= target.take(k as int).push('\u{2215}'));
                assert(v@.subrange((k + 1) as int, (k + 1) as int) =~= Seq::<char>::empty());
            }
            start = k + 1;
        } else {
            proof {
                assert(target.take(k + 1) =~= target.take(k as int).push(v@[k as int]));
                assert(v@.subrange(start as int, k + 1) =~= v@.subrange(start as int, k as int).push(
                    v@[k as int],
                ));
            }
        }
        k = k + 1;
    }
    let tail = crate::text::slice_string(rel.as_str(), &v, start, v.len());
    r.append(tail.as_str());
    proof {
        assert(target.take(v@.len() as int) =~= target);
    }
    r
}


/// A copy of each string.
fn copy_strings(v: &Vec<String>) -> (r: Vec<String>)
    ensures
        views(r@) == views(v@),
{
    let mut r: Vec<String> = Vec::new();
    for k in 0..v.len()
        invariant
            views(r@) == views(v@).take(k as int),
    {
        let ghost before = views(r@);
        r.push(v[k].clone());
        proof {
            assert(views(r@) =~= before.push(v@[k as int]@));
            assert(views(v@).take(k + 1) =~= views(v@).take(k as int).push(v@[k as int]@));
        }
    }
    proof {
        assert(views(v@).take(v@.len() as int) =~= views(v@));
    }
    r
}

/// Adds to `tree` the path of each worktree below the repository's path `comps`,
/// or `(no worktrees)` where there is none.
fn grow_tree(tree: &mut DirTree, comps: &Vec<String>, wts: &Vec<String>, repo_abs: &String)
    requires
        old(tree).wf(),
    ensures
        final(tree).wf(),
        final(tree).root_label() == old(tree).root_label(),
        final(tree)@ == grow(old(tree)@, worktree_paths(views(comps@), views(wts@), repo_abs@)),
{
    let ghost paths = worktree_paths(views(comps@), views(wts@), repo_abs@);
    let ghost start = tree@;
    if wts.len() == 0 {
        let mut p = copy_strings(comps);
        let ghost before = views(p@);
        p.push(String::from_str("(no worktrees)"));
        proof {
            assert(views(p@) =~= before.push("(no worktrees)"@));
            assert(paths.drop_last() =~= Seq::<NodePath>::empty());
            assert(paths.last() == views(p@));
            assert(grow(start, paths.drop_last()) == start);
        }
        tree.add_path(&p);
    } else {
        proof {
            assert(paths.take(0) =~= Seq::<NodePath>::empty());
        }
        for k in 0..wts.len()
            invariant
                tree.wf(),
                tree.root_label() == old(tree).root_label(),
                wts@.len() > 0,
                paths == worktree_paths(views(comps@), views(wts@), repo_abs@),
                paths.len() == wts@.len(),
                tree@ == grow(start, paths.take(k as int)),
        {
            let name = worktree_name(wts[k].as_str(), repo_abs.as_str());
            let mut p = copy_strings(comps);
            let ghost before = views(p@);
            p.push(name);
            proof {
                assert(views(p@) =~= before.push(name@));
                assert(paths[k as int] == views(p@));
                assert(paths.take(k + 1).drop_last() =~= paths.take(k as int));
            }
            tree.add_path(&p);
        }
        proof {
            assert(paths.take(wts@.len() as int) =~= paths);
        }
    }
}

impl TreeCommand {
    /// A run of this command that has not begun.
    pub fn start(&self) -> (r: TreeRun)
        ensures
            r@ == tree_start(self.hide_branches),
            r.wf(),
    {
        let r = TreeRun {
            show_worktrees: !self.hide_branches,
            stage: TreeStage::Begin,
            cwd: String::new(),
            dir: String::new(),
            stack: Vec::new(),
            found: Vec::new(),
            repos: Vec::new(),
            index: 0,
            tree: DirTree::new(String::from_str(".")),
            count: 0,
            repo_abs: String::new(),
        };
        proof {
            assert(r@.stack =~= Seq::<Seq<char>>::empty());
            assert(r@.found =~= Seq::<Seq<char>>::empty());
            assert(r@.repos =~= Seq::<Seq<char>>::empty());
        }
        r
    }
}

impl TreeRun {
    fn over(&mut self) -> (out: Step)
        requires
            old(self).wf(),
        ensures
            final(self).wf(),
            (final(self)@, out@) == tree_over(old(self)@),
    {
        self.stage = TreeStage::Over;
        quiet(Effect::Finish)
    }

    /// Takes in a directory listing.
    fn visit(&mut self, entries: &Vec<Entry>)
        ensures
            (views(final(self).found@), views(final(self).stack@)) == visit(
                views(old(self).found@),
                views(old(self).stack@),
                old(self).dir@,
                old(self).cwd@,
                entries@.map_values(|e: Entry| (e.name@, e.is_dir)),
            ),
            final(self).dir@ == old(self).dir@,
            final(self).cwd@ == old(self).cwd@,
            final(self).stage == old(self).stage,
            final(self).show_worktrees == old(self).show_worktrees,
            final(self).repos@ == old(self).repos@,
            final(self).index == old(self).index,
            final(self).tree == old(self).tree,
            final(self).count == old(self).count,
            final(self).repo_abs@ == old(self).repo_abs@,
    {
        let ghost es = entries@.map_values(|e: Entry| (e.name@, e.is_dir));
        let ghost f0 = views(self.found@);
        let ghost s0 = views(self.stack@);
        proof {
            assert(es.take(0) =~= Seq::<(Seq<char>, bool)>::empty());
        }
        for k in 0..entries.len()
            invariant
                es == entries@.map_values(|e: Entry| (e.name@, e.is_dir)),
                (views(self.found@), views(self.stack@)) == visit(
                    f0,
                    s0,
                    self.dir@,
                    self.cwd@,
                    es.take(k as int),
                ),
                self.dir@ == old(self).dir@,
                self.cwd@ == old(self).cwd@,
                self.stage == old(self).stage,
                self.show_worktrees == old(self).show_worktrees,
                self.repos@ == old(self).repos@,
                self.index == old(self).index,
                self.tree == old(self).tree,
                self.count == old(self).count,
                self.repo_abs@ == old(self).repo_abs@,
        {
            proof {
                assert(es.take(k + 1).drop_last() =~= es.take(k as int));
                assert(es.take(k + 1).last() == (entries@[k as int].name@, entries@[k as int].is_dir));
            }
            if entries[k].is_dir {
                let p = join_of(self.dir.as_str(), entries[k].name.as_str());
                let is_bare = match file_name_of(p.as_str()) {
                    Some(n) => {
                        let nv = chars_of(n.as_str());
                        let bv = vec!['.', 'b', 'a', 'r', 'e'];
                        proof {
                            reveal_strlit(".bare");
                            assert(".bare"@ =~= bv@);
                        }
                        let same = nv.len() == 5 && crate::text::matches_at(&nv, 0, &bv);
                        proof {
                            if same {
                                assert(n@ =~= ".bare"@);
                            }
                            if n@ == ".bare"@ {
                                assert(nv@.subrange(0, 5) =~= nv@);
                            }
                        }
                        same
                    },
                    None => false,
                };
                if is_bare {
                    let rel = repo_of_bare(p.as_str(), self.cwd.as_str());
                    let ghost before = views(self.found@);
                    self.found.push(rel);
                    proof {
                        assert(views(self.found@) =~= before.push(rel@));
                    }
                } else {
                    let ghost before = views(self.stack@);
                    self.stack.push(p);
                    proof {
                        assert(views(self.stack@) =~= before.push(p@));
                    }
                }
            }
        }
        proof {
            assert(es.take(entries@.len() as int) =~= es);
        }
    }

    /// Puts repositories into the tree from `i` on, and reads the worktrees of
    /// the first one or, after the last, prints the tree.
    fn next_repo(&mut self, i: usize) -> (out: Step)
        requires
            old(self).wf(),
        ensures
            final(self).wf(),
            (final(self)@, out@) == next_repo(old(self)@, i as nat),
    {
        let mut i = i;
        let ghost goal = next_repo(self@, i as nat);
        while i < self.repos.len() && !self.show_worktrees
            invariant
                self.wf(),
                next_repo(self@, i as nat) == goal,
            decreases self.repos@.len() - i,
        {
            let comps = TreeCommand::path_components(self.repos[i].as_str());
            self.tree.add_path(&comps);
            i = i + 1;
        }
        if i < self.repos.len() {
            let comps = TreeCommand::path_components(self.repos[i].as_str());
            self.tree.add_path(&comps);
            self.stage = TreeStage::AwaitCanonical;
            self.index = i;
            let path = join_of(self.cwd.as_str(), self.repos[i].as_str());
            quiet(Effect::Canonicalize { path })
        } else {
            let mut text = self.tree.render();
            text.append("\n");
            let n = decimal_string(self.repos.len());
            text.append(n.as_str());
            if self.show_worktrees {
                text.append(" jgit repositories, ");
                let c = decimal_string(self.count);
                text.append(c.as_str());
                text.append(" worktrees");
            } else {
                text.append(" jgit repositories");
            }
            text.append("\n");
            self.stage = TreeStage::Over;
            proof {
                assert(text@ =~= tree_text(outline("."@, self.tree@)) + "\n"@ + summary(self@)
                    + "\n"@);
            }
            finish(no_lines(), text)
        }
    }

    /// Takes what the last effect gave back and says what to do next.
    pub fn step(&mut self, e: Event) -> (out: Step)
        requires
            old(self).wf(),
        ensures
            final(self).wf(),
            (final(self)@, out@) == tree_next(old(self)@, e@),
    {
        match self.stage {
            TreeStage::Begin => {
                self.stage = TreeStage::AwaitCwd;
                quiet(Effect::CurrentDir)
            },
            TreeStage::AwaitCwd => match e {
                Event::Place(Ok(cwd)) => {
                    self.dir = cwd.clone();
                    self.cwd = cwd;
                    self.stack = Vec::new();
                    self.found = Vec::new();
                    proof {
                        assert(views(self.stack@) =~= Seq::<Seq<char>>::empty());
                        assert(views(self.found@) =~= Seq::<Seq<char>>::empty());
                    }
                    self.stage = TreeStage::AwaitEntries;
                    quiet(Effect::ReadDir { path: self.dir.clone() })
                },
                Event::Place(Err(m)) => {
                    let t = concat2("Could not determine current directory: ", m.as_str());
                    self.stage = TreeStage::Over;
                    step(single(line("", t, Tone::Plain)), Effect::Exit { code: 1 })
                },
                _ => self.over(),
            },
            TreeStage::AwaitEntries => match e {
                Event::Entries(es) => {
                    self.visit(&es);
                    let ghost st = views(self.stack@);
                    let ghost raw = self.stack@;
                    match self.stack.pop() {
                        Some(d) => {
                            proof {
                                assert(views(self.stack@) =~= st.drop_last());
                                assert(d == raw.last());
                                assert(d@ == st.last());
                            }
                            self.dir = d.clone();
                            quiet(Effect::ReadDir { path: d })
                        },
                        None => {
                            let found = copy_strings(&self.found);
                            self.repos = sort_paths(found);
                            if self.repos.len() == 0 {
                                let t = concat2("No jgit repositories found in ", self.cwd.as_str());
                                self.stage = TreeStage::Over;
                                step(single(line("", t, Tone::Plain)), Effect::Finish)
                            } else {
                                self.tree = DirTree::new(String::from_str("."));
                                self.count = 0;
                                self.next_repo(0)
                            }
                        },
                    }
                },
                _ => self.over(),
            },
            TreeStage::AwaitCanonical => match e {
                Event::Place(r) => if self.index < self.repos.len() {
                    let repo_path = join_of(self.cwd.as_str(), self.repos[self.index].as_str());
                    self.repo_abs = match r {
                        Ok(a) => a,
                        Err(_) => repo_path.clone(),
                    };
                    self.stage = TreeStage::AwaitWorktrees;
                    quiet(run_git(&repo_path, args3("worktree", "list", "--porcelain"), false))
                } else {
                    self.over()
                },
                _ => self.over(),
            },
            TreeStage::AwaitWorktrees => match e {
                Event::Git(r) => if self.index < self.repos.len() {
                    let wts = TreeCommand::get_worktrees(r.stdout.as_str());
                    let comps = TreeCommand::path_components(self.repos[self.index].as_str());
                    grow_tree(&mut self.tree, &comps, &wts, &self.repo_abs);
                    self.count = if wts.len() > usize::MAX - self.count {
                        usize::MAX
                    } else {
                        self.count + wts.len()
                    };
                    let next = self.index + 1;
                    self.next_repo(next)
                } else {
                    self.over()
                },
                _ => self.over(),
            },
            TreeStage::Over => self.over(),
        }
    }
}

// ---------------------------------------------------------------- laws

/// What a run of `jgit tree` keeps between steps: the root stays first among
/// the nodes, and while it reads the worktrees of repository `index`, the
/// repositories up to that one are nodes at their path components.
pub open spec fn tree_inv(s: TreeV) -> bool {
    &&& s.nodes.len() > 0
    &&& s.nodes[0] == Seq::<Seq<char>>::empty()
    &&& (s.stage == TreeStage::AwaitCanonical || s.stage == TreeStage::AwaitWorktrees) ==> {
        &&& s.index < s.repos.len()
        &&& forall|j: int| 0 <= j <= s.index ==> s.nodes.contains(#[trigger] path_components(s.repos[j]))
    }
}

/// Law: a run of `jgit tree` begins in a state that keeps its invariant.
pub proof fn law_tree_start(hide_branches: bool)
    ensures
        tree_inv(tree_start(hide_branches)),
{
}

/// Appending nodes keeps every node where it was.
proof fn lemma_appended_keeps(nodes: Seq<NodePath>, more: Seq<NodePath>, c: NodePath)
    requires
        nodes.contains(c),
    ensures
        (nodes + more).contains(c),
{
    let k = choose|k: int| 0 <= k < nodes.len() && nodes[k] == c;
    assert((nodes + more)[k] == c);
}

/// The nodes after adding a path hold that path.
proof fn lemma_added_path_held(nodes: Seq<NodePath>, c: NodePath)
    requires
        nodes.len() > 0,
        nodes[0] == Seq::<Seq<char>>::empty(),
    ensures
        (nodes + missing_prefixes(nodes, c, 0)).contains(c),
{
    let more = missing_prefixes(nodes, c, 0);
    if c.len() == 0 {
        assert(c =~= nodes[0]);
        assert((nodes + more)[0] == c);
    } else {
        lemma_missing_holds(nodes, c, 0, c.len() as int);
        assert(c.take(c.len() as int) =~= c);
        if nodes.contains(c) {
            lemma_appended_keeps(nodes, more, c);
        } else {
            let k = choose|k: int| 0 <= k < more.len() && more[k] == c;
            assert((nodes + more)[nodes.len() + k] == c);
        }
    }
}

/// Growing a tree keeps its nodes in place and holds every path added.
proof fn lemma_grow(nodes: Seq<NodePath>, paths: Seq<NodePath>)
    requires
        nodes.len() > 0,
        nodes[0] == Seq::<Seq<char>>::empty(),
    ensures
        grow(nodes, paths).len() >= nodes.len(),
        forall|k: int| 0 <= k < nodes.len() ==> grow(nodes, paths)[k] == nodes[k],
        forall|m: int| 0 <= m < paths.len() ==> grow(nodes, paths).contains(#[trigger] paths[m]),
    decreases paths.len(),
{
    if paths.len() > 0 {
        let front = paths.drop_last();
        lemma_grow(nodes, front);
        let n = grow(nodes, front);
        let more = missing_prefixes(n, paths.last(), 0);
        assert(grow(nodes, paths) == n + more);
        lemma_added_path_held(n, paths.last());
        assert forall|m: int| 0 <= m < paths.len() implies grow(nodes, paths).contains(#[trigger] paths[m]) by {
            if m < paths.len() - 1 {
                assert(paths[m] == front[m]);
                lemma_appended_keeps(n, more, front[m]);
            }
        }
    }
}

/// Drawing goes on repository by repository, each added at its path components.
proof fn lemma_next_repo(s: TreeV, i: nat)
    requires
        s.nodes.len() > 0,
        s.nodes[0] == Seq::<Seq<char>>::empty(),
        i <= s.repos.len(),
        forall|j: int| 0 <= j < i ==> s.nodes.contains(#[trigger] path_components(s.repos[j])),
    ensures
        ({
            let (t, out) = next_repo(s, i);
            &&& t.repos == s.repos
            &&& t.count == s.count
            &&& t.nodes.len() >= s.nodes.len()
            &&& forall|k: int| 0 <= k < s.nodes.len() ==> t.nodes[k] == s.nodes[k]
            &&& tree_inv(t)
            &&& t.stage == TreeStage::AwaitCanonical || t.stage == TreeStage::Over
            &&& t.stage == TreeStage::AwaitCanonical ==> out.show.len() == 0
            &&& t.stage == TreeStage::Over ==> out.show == tree_text(outline("."@, t.nodes)) + "\n"@
                + (if t.show_worktrees {
                    decimal(t.repos.len()) + " jgit repositories, "@ + decimal(t.count) + " worktrees"@
                } else {
                    decimal(t.repos.len()) + " jgit repositories"@
                }) + "\n"@
            &&& t.stage == TreeStage::Over ==> forall|j: int|
                0 <= j < t.repos.len() ==> t.nodes.contains(#[trigger] path_components(t.repos[j]))
        }),
    decreases s.repos.len() - i,
{
    if i < s.repos.len() {
        let comps = path_components(s.repos[i as int]);
        let more = missing_prefixes(s.nodes, comps, 0);
        let nodes = s.nodes + more;
        lemma_added_path_held(s.nodes, comps);
        assert(nodes[0] == s.nodes[0]);
        assert forall|j: int| 0 <= j <= i implies nodes.contains(#[trigger] path_components(s.repos[j])) by {
            if j < i {
                lemma_appended_keeps(s.nodes, more, path_components(s.repos[j]));
            }
        }
        if !s.show_worktrees {
            lemma_next_repo(TreeV { nodes: nodes, ..s }, i + 1);
        }
    }
}

/// Law: every step keeps the invariant; a step that draws the tree draws a
/// node at the path components of every repository found, followed by the
/// line that gives the number of repositories found and, where worktrees are
/// shown, the number of worktrees counted; and a step that
/// reads a repository's worktrees adds a node below the repository for each
/// worktree path read and counts exactly those worktrees (up to the largest
/// `usize`), which is the count the summary line shows.
pub proof fn law_tree_draws_every_repository(s: TreeV, e: EventV)
    requires
        tree_inv(s),
    ensures
        tree_inv(tree_next(s, e).0),
        ({
            let (t, out) = tree_next(s, e);
            out.show.len() > 0 ==> {
                &&& out.show == tree_text(outline("."@, t.nodes)) + "\n"@ + (if t.show_worktrees {
                    decimal(t.repos.len()) + " jgit repositories, "@ + decimal(t.count) + " worktrees"@
                } else {
                    decimal(t.repos.len()) + " jgit repositories"@
                }) + "\n"@
                &&& forall|j: int|
                    0 <= j < t.repos.len() ==> t.nodes.contains(#[trigger] path_components(t.repos[j]))
            }
        }),
        ({
            let (t, out) = tree_next(s, e);
            (s.stage == TreeStage::AwaitWorktrees && e is Git) ==> {
                let wts = picked(LineRule::WorktreePath, e->Git_0.stdout);
                let comps = path_components(s.repos[s.index as int]);
                &&& t.count == (if s.count + wts.len() > usize::MAX {
                    usize::MAX as nat
                } else {
                    s.count + wts.len()
                })
                &&& forall|m: int|
                    0 <= m < wts.len() ==> t.nodes.contains(
                        comps.push(worktree_label(#[trigger] wts[m], s.repo_abs)),
                    )
            }
        }),
{
    let (t, out) = tree_next(s, e);
    match s.stage {
        TreeStage::AwaitEntries => {
            if let EventV::Entries(es) = e {
                let (f, st) = visit(s.found, s.stack, s.dir, s.cwd, es);
                if st.len() == 0 {
                    let repos = sorted_paths(f);
                    if repos.len() > 0 {
                        lemma_next_repo(
                            TreeV { found: f, stack: st, repos: repos, nodes: seq![seq![]], count: 0, ..s },
                            0,
                        );
                    }
                }
            }
        },
        TreeStage::AwaitWorktrees => {
            if let EventV::Git(r) = e {
                let wts = picked(LineRule::WorktreePath, r.stdout);
                let comps = path_components(s.repos[s.index as int]);
                let paths = worktree_paths(comps, wts, s.repo_abs);
                let nodes = grow(s.nodes, paths);
                lemma_grow(s.nodes, paths);
                assert(nodes[0] == s.nodes[0]);
                assert forall|j: int| 0 <= j <= s.index implies nodes.contains(
                    #[trigger] path_components(s.repos[j]),
                ) by {
                    let c = path_components(s.repos[j]);
                    let k = choose|k: int| 0 <= k < s.nodes.len() && s.nodes[k] == c;
                    assert(nodes[k] == c);
                }
                let count = if s.count + wts.len() > usize::MAX {
                    usize::MAX as nat
                } else {
                    s.count + wts.len()
                };
                let u = TreeV { nodes: nodes, count: count, ..s };
                lemma_next_repo(u, s.index + 1);
                let v = next_repo(u, s.index + 1).0;
                assert forall|m: int| 0 <= m < wts.len() implies v.nodes.contains(
                    comps.push(worktree_label(#[trigger] wts[m], s.repo_abs)),
                ) by {
                    assert(paths[m] == comps.push(worktree_label(wts[m], s.repo_abs)));
                    let k = choose|k: int| 0 <= k < nodes.len() && nodes[k] == paths[m];
                    assert(v.nodes[k] == paths[m]);
                }
            }
        },
        _ => {},
    }
}

} // verus!
