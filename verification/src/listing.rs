//! Reading what git prints: each line of its output either yields one item
//! (a branch name, a worktree path) or is passed over.
use vstd::prelude::*;
use crate::text::{
    chars_of, contains, contains_in, ends_with_in, has_prefix, has_suffix, is_white,
    last_index_in, last_index_of, lemma_filter_map_step, lemma_last_index_of, line_ranges, lines,
    slice_string, starts_with_in, trim, trim_end, trim_start, trim_range, views,
};

verus! {

/// `origin/`
pub open spec fn origin_slash() -> Seq<char> {
    seq!['o', 'r', 'i', 'g', 'i', 'n', '/']
}

/// `->`
pub open spec fn arrow() -> Seq<char> {
    seq!['-', '>']
}

/// `.bare`
pub open spec fn dot_bare() -> Seq<char> {
    seq!['.', 'b', 'a', 'r', 'e']
}

/// ` locked`
pub open spec fn locked_note() -> Seq<char> {
    seq![' ', 'l', 'o', 'c', 'k', 'e', 'd']
}

/// ` prunable`
pub open spec fn prunable_note() -> Seq<char> {
    seq![' ', 'p', 'r', 'u', 'n', 'a', 'b', 'l', 'e']
}

/// `worktree ` (the key of a path line of `git worktree list --porcelain`)
pub open spec fn worktree_key() -> Seq<char> {
    seq!['w', 'o', 'r', 'k', 't', 'r', 'e', 'e', ' ']
}

/// A line of `git worktree list` without the ` locked` or ` prunable` note
/// that git puts after the branch of a locked or prunable worktree.
pub open spec fn without_note(t: Seq<char>) -> Seq<char> {
    if has_suffix(t, locked_note()) {
        t.take(t.len() - locked_note().len())
    } else if has_suffix(t, prunable_note()) {
        t.take(t.len() - prunable_note().len())
    } else {
        t
    }
}

/// How one line of git's output yields an item.
pub enum LineRule {
    /// `git branch --format=%(refname:short)`: every non-blank line, trimmed.
    LocalBranch,
    /// `git worktree list`: the text between the last `[` and a final `]`; a
    /// line that ends in a ` locked` or ` prunable` note yields nothing.
    WorktreeBranch,
    /// `git worktree list`: the text between the last `[` and the `]` that ends
    /// the line, once a trailing ` locked` or ` prunable` note is set aside, so
    /// that every worktree with a branch checked out yields it.
    CheckedOutBranch,
    /// `git branch --remotes`: `origin/<name>` lines that are not `->` aliases.
    RemoteBranch,
    /// `git worktree list --porcelain`: the path after `worktree `, unless it
    /// names the `.bare` repository.
    WorktreePath,
    /// Trimmed lines that begin with the given characters.
    WithPrefix(Vec<char>),
}

/// The text between the last `[` of `u` and the `]` that ends it.
pub open spec fn bracketed(u: Seq<char>) -> Option<Seq<char>> {
    if u.len() > 0 && u.last() == ']' {
        match last_index_of(u, '[') {
            Some(i) => Some(u.subrange(i + 1, u.len() - 1)),
            None => None,
        }
    } else {
        None
    }
}

/// What `rule` takes from one line.
pub open spec fn pick(rule: LineRule, line: Seq<char>) -> Option<Seq<char>> {
    let t = trim(line);
    match rule {
        LineRule::LocalBranch => if t.len() > 0 {
            Some(t)
        } else {
            None
        },
        LineRule::WorktreeBranch => bracketed(t),
        LineRule::CheckedOutBranch => bracketed(without_note(t)),
        LineRule::RemoteBranch => if contains(t, arrow()) {
            None
        } else if has_prefix(t, origin_slash()) {
            Some(t.skip(origin_slash().len() as int))
        } else {
            None
        },
        LineRule::WorktreePath => if has_prefix(line, worktree_key()) {
            let w = line.skip(worktree_key().len() as int);
            if has_suffix(w, dot_bare()) {
                None
            } else {
                Some(w)
            }
        } else {
            None
        },
        LineRule::WithPrefix(p) => if has_prefix(t, p@) {
            Some(t)
        } else {
            None
        },
    }
}

/// The items that `rule` takes from the lines of `out`, in order.
pub open spec fn picked(rule: LineRule, out: Seq<char>) -> Seq<Seq<char>> {
    lines(out).filter_map(|l: Seq<char>| pick(rule, l))
}

/// Where `bracketed` finds its text in `v[x..y]`.
fn bracket_range(v: &Vec<char>, x: usize, y: usize) -> (r: Option<(usize, usize)>)
    requires
        x <= y <= v@.len(),
    ensures
        match r {
            Some(w) => x <= w.0 <= w.1 <= y && bracketed(v@.subrange(x as int, y as int)) == Some(
                v@.subrange(w.0 as int, w.1 as int),
            ),
            None => bracketed(v@.subrange(x as int, y as int)) == None::<Seq<char>>,
        },
{
    if x < y && v[y - 1] == ']' {
        proof {
            assert(v@.subrange(x as int, y as int).last() == v@[y - 1]);
        }
        match last_index_in(v, x, y, '[') {
            Some(i) => {
                proof {
                    assert(v@.subrange(x as int, y as int).subrange(i - x + 1, y - x - 1) =~= v@.subrange(
                        i + 1,
                        y - 1,
                    ));
                }
                Some((i + 1, y - 1))
            },
            None => None,
        }
    } else {
        proof {
            if x < y {
                assert(v@.subrange(x as int, y as int).last() == v@[y - 1]);
            }
        }
        None
    }
}

fn pick_range(v: &Vec<char>, lo: usize, hi: usize, rule: &LineRule) -> (r: Option<(usize, usize)>)
    requires
        lo <= hi <= v@.len(),
    ensures
        match r {
            Some(w) => lo <= w.0 <= w.1 <= hi && pick(*rule, v@.subrange(lo as int, hi as int))
                == Some(v@.subrange(w.0 as int, w.1 as int)),
            None => pick(*rule, v@.subrange(lo as int, hi as int)) == None::<Seq<char>>,
        },
{
    let ghost line = v@.subrange(lo as int, hi as int);
    match rule {
        LineRule::LocalBranch => {
            let (x, y) = trim_range(v, lo, hi);
            if x < y {
                Some((x, y))
            } else {
                None
            }
        },
        LineRule::WorktreeBranch => {
            let (x, y) = trim_range(v, lo, hi);
            bracket_range(v, x, y)
        },
        LineRule::CheckedOutBranch => {
            let (x, y0) = trim_range(v, lo, hi);
            let locked = vec![' ', 'l', 'o', 'c', 'k', 'e', 'd'];
            let prunable = vec![' ', 'p', 'r', 'u', 'n', 'a', 'b', 'l', 'e'];
            proof {
                assert(locked@ =~= locked_note());
                assert(prunable@ =~= prunable_note());
            }
            let y = if ends_with_in(v, x, y0, &locked) {
                y0 - 7
            } else if ends_with_in(v, x, y0, &prunable) {
                y0 - 9
            } else {
                y0
            };
            proof {
                assert(v@.subrange(x as int, y as int) =~= without_note(v@.subrange(x as int, y0 as int)));
            }
            bracket_range(v, x, y)
        },
        LineRule::RemoteBranch => {
            let (x, y) = trim_range(v, lo, hi);
            let arrow_chars = vec!['-', '>'];
            let origin = vec!['o', 'r', 'i', 'g', 'i', 'n', '/'];
            proof {
                assert(arrow_chars@ =~= arrow());
                assert(origin@ =~= origin_slash());
            }
            if contains_in(v, x, y, &arrow_chars) {
                None
            } else if starts_with_in(v, x, y, &origin) {
                proof {
                    assert(v@.subrange(x as int, y as int).skip(7) =~= v@.subrange(
                        x + 7,
                        y as int,
                    ));
                }
                Some((x + 7, y))
            } else {
                None
            }
        },
        LineRule::WorktreePath => {
            let bare = vec!['.', 'b', 'a', 'r', 'e'];
            let key = vec!['w', 'o', 'r', 'k', 't', 'r', 'e', 'e', ' '];
            proof {
                assert(bare@ =~= dot_bare());
                assert(key@ =~= worktree_key());
            }
            if starts_with_in(v, lo, hi, &key) {
                proof {
                    assert(line.skip(9) =~= v@.subrange(lo + 9, hi as int));
                }
                if ends_with_in(v, lo + 9, hi, &bare) {
                    None
                } else {
                    Some((lo + 9, hi))
                }
            } else {
                None
            }
        },
        LineRule::WithPrefix(p) => {
            let (x, y) = trim_range(v, lo, hi);
            if starts_with_in(v, x, y, p) {
                Some((x, y))
            } else {
                None
            }
        },
    }
}

/// The items that `rule` takes from the lines of `out`, in the order of the lines.
pub fn pick_lines(out: &str, rule: &LineRule) -> (res: Vec<String>)
    ensures
        views(res@) == picked(*rule, out@),
{
    let v = chars_of(out);
    let ranges = line_ranges(&v);
    let ghost ls = lines(v@);
    let ghost f = |l: Seq<char>| pick(*rule, l);
    let mut res: Vec<String> = Vec::new();
    let mut k: usize = 0;
    proof {
        assert(ls.take(0) =~= Seq::<Seq<char>>::empty());
        assert(views(res@) =~= Seq::<Seq<char>>::empty());
    }
    while k < ranges.len()
        invariant
            v@ == out@,
            ls == lines(v@),
            f == (|l: Seq<char>| pick(*rule, l)),
            ranges@.map_values(|p: (usize, usize)| v@.subrange(p.0 as int, p.1 as int)) == ls,
            forall|j: int|
                0 <= j < ranges@.len() ==> (#[trigger] ranges@[j]).0 <= ranges@[j].1 && ranges@[j].1
                    <= v@.len(),
            k <= ranges@.len(),
            views(res@) == ls.take(k as int).filter_map(f),
        decreases ranges@.len() - k,
    {
        let (a, b) = ranges[k];
        proof {
            assert(ranges@[k as int] == (a, b));
            assert(ls[k as int] == v@.subrange(a as int, b as int));
            lemma_filter_map_step(ls, f, k as int);
        }
        match pick_range(&v, a, b, rule) {
            Some((x, y)) => {
                let item = slice_string(out, &v, x, y);
                let ghost before = res@;
                res.push(item);
                proof {
                    assert(views(res@) =~= views(before).push(item@));
                }
            },
            None => {},
        }
        k = k + 1;
    }
    proof {
        assert(ls.take(ranges@.len() as int) =~= ls);
    }
    res
}


/// The items of `items` that `keep` does not hold, in order.
pub open spec fn without(items: Seq<Seq<char>>, keep: Seq<Seq<char>>) -> Seq<Seq<char>> {
    items.filter_map(|b: Seq<char>| if keep.contains(b) { None } else { Some(b) })
}

/// Whether `v` holds a string equal to `x`.
pub fn holds(v: &Vec<String>, x: &String) -> (b: bool)
    ensures
        b == views(v@).contains(x@),
{
    let mut k: usize = 0;
    while k < v.len()
        invariant
            k <= v@.len(),
            forall|j: int| 0 <= j < k ==> v@[j]@ != x@,
        decreases v@.len() - k,
    {
        if v[k] == *x {
            proof {
                assert(views(v@)[k as int] == x@);
            }
            return true;
        }
        k = k + 1;
    }
    proof {
        if views(v@).contains(x@) {
            let j = choose|j: int| 0 <= j < views(v@).len() && views(v@)[j] == x@;
            assert(v@[j]@ == x@);
        }
    }
    false
}

/// The items of `items` that `keep` does not hold, in order (a `filter` on `contains`).
pub fn items_without(items: &Vec<String>, keep: &Vec<String>) -> (r: Vec<String>)
    ensures
        views(r@) == without(views(items@), views(keep@)),
{
    let ghost its = views(items@);
    let ghost kp = views(keep@);
    let ghost f = |b: Seq<char>| if kp.contains(b) { None } else { Some(b) };
    let mut r: Vec<String> = Vec::new();
    proof {
        assert(its.take(0) =~= Seq::<Seq<char>>::empty());
        assert(views(r@) =~= Seq::<Seq<char>>::empty());
    }
    for k in 0..items.len()
        invariant
            its == views(items@),
            kp == views(keep@),
            f == (|b: Seq<char>| if kp.contains(b) { None } else { Some(b) }),
            views(r@) == its.take(k as int).filter_map(f),
    {
        proof {
            lemma_filter_map_step(its, f, k as int);
            assert(its[k as int] == items@[k as int]@);
        }
        if !holds(keep, &items[k]) {
            let ghost before = views(r@);
            r.push(items[k].clone());
            proof {
                assert(views(r@) =~= before.push(items@[k as int]@));
            }
        }
    }
    proof {
        assert(its.take(items@.len() as int) =~= its);
    }
    r
}

// ---------------------------------------------------------------- laws

/// An item that `f` takes from some element of `s` is among what
/// `filter_map(f)` gives.
pub proof fn lemma_filter_map_holds<A, B>(s: Seq<A>, f: spec_fn(A) -> Option<B>, i: int, x: B)
    requires
        0 <= i < s.len(),
        f(s[i]) == Some(x),
    ensures
        s.filter_map(f).contains(x),
    decreases s.len(),
{
    let rest = s.drop_last();
    if i == s.len() - 1 {
        assert(s.filter_map(f) == rest.filter_map(f) + seq![x]);
        assert((rest.filter_map(f) + seq![x])[rest.filter_map(f).len() as int] == x);
    } else {
        assert(rest[i] == s[i]);
        lemma_filter_map_holds(rest, f, i, x);
        let k = choose|k: int| 0 <= k < rest.filter_map(f).len() && rest.filter_map(f)[k] == x;
        match f(s.last()) {
            Some(y) => assert((rest.filter_map(f) + seq![y])[k] == x),
            None => {},
        }
    }
}

/// A text whose first and last characters are not white space is its own trim.
pub proof fn lemma_trim_unchanged(s: Seq<char>)
    requires
        s.len() > 0,
        !is_white(s[0]),
        !is_white(s.last()),
    ensures
        trim(s) == s,
{
    assert(trim_start(s) == s);
    assert(trim_end(s) == s);
}

/// The line that `git worktree list` prints for a worktree that has a branch
/// checked out: its path, the padding, the commit, the branch in brackets, and
/// the note ` locked` or ` prunable` where one applies.
pub open spec fn worktree_line(
    path: Seq<char>,
    gap: Seq<char>,
    commit: Seq<char>,
    branch: Seq<char>,
    note: Seq<char>,
) -> Seq<char> {
    path + gap + commit + seq![' ', '['] + branch + seq![']'] + note
}

/// What `git worktree list` can put after the branch.
pub open spec fn is_note(note: Seq<char>) -> bool {
    note.len() == 0 || note == locked_note() || note == prunable_note()
}

/// Law: the branch of every worktree that `git worktree list` prints with a
/// branch, locked, prunable or neither, is read from its line.  Branch names
/// hold no `[`, and worktree paths are absolute.
pub proof fn law_worktree_line_names_its_branch(
    path: Seq<char>,
    gap: Seq<char>,
    commit: Seq<char>,
    branch: Seq<char>,
    note: Seq<char>,
)
    requires
        path.len() > 0,
        !is_white(path[0]),
        !branch.contains('['),
        is_note(note),
    ensures
        pick(LineRule::CheckedOutBranch, worktree_line(path, gap, commit, branch, note)) == Some(branch),
{
    let line = worktree_line(path, gap, commit, branch, note);
    let u = path + gap + commit + seq![' ', '['] + branch + seq![']'];
    assert(line == u + note);
    assert(line[0] == path[0]);
    if note.len() == 0 {
        assert(line =~= u);
    } else {
        assert(line.last() == note.last());
    }
    lemma_trim_unchanged(line);
    if note.len() == 0 {
        assert(!has_suffix(line, locked_note())) by {
            if has_suffix(line, locked_note()) {
                assert(line.skip(line.len() - 7)[6] == line.last());
            }
        }
        assert(!has_suffix(line, prunable_note())) by {
            if has_suffix(line, prunable_note()) {
                assert(line.skip(line.len() - 9)[8] == line.last());
            }
        }
    } else if note == locked_note() {
        assert(line.skip(line.len() - 7) =~= note);
        assert(line.take(line.len() - 7) =~= u);
    } else {
        assert(!has_suffix(line, locked_note())) by {
            if has_suffix(line, locked_note()) {
                assert(line.skip(line.len() - 7)[6] == line.last());
            }
        }
        assert(line.skip(line.len() - 9) =~= note);
        assert(line.take(line.len() - 9) =~= u);
    }
    assert(without_note(line) == u);
    let k: int = (path.len() + gap.len() + commit.len() + 1) as int;
    assert(u[k] == '[');
    assert forall|i: int| k < i < u.len() implies #[trigger] u[i] != '[' by {
        if i < u.len() - 1 {
            assert(u[i] == branch[i - k - 1]);
        }
    }
    lemma_last_index_of(u, '[', k);
    assert(u.subrange(k + 1, u.len() - 1) =~= branch);
}

/// Law: where a line of `git worktree list` shows a worktree with `branch`
/// checked out, that branch is among those read from the listing.
pub proof fn law_listed_worktree_branch_is_read(
    out: Seq<char>,
    i: int,
    path: Seq<char>,
    gap: Seq<char>,
    commit: Seq<char>,
    branch: Seq<char>,
    note: Seq<char>,
)
    requires
        0 <= i < lines(out).len(),
        lines(out)[i] == worktree_line(path, gap, commit, branch, note),
        path.len() > 0,
        !is_white(path[0]),
        !branch.contains('['),
        is_note(note),
    ensures
        picked(LineRule::CheckedOutBranch, out).contains(branch),
{
    law_worktree_line_names_its_branch(path, gap, commit, branch, note);
    lemma_filter_map_holds(lines(out), |l: Seq<char>| pick(LineRule::CheckedOutBranch, l), i, branch);
}

/// Law: where a line of `git worktree list --porcelain` names a worktree at
/// `path`, other than the `.bare` repository, that path is among those read.
pub proof fn law_listed_worktree_path_is_read(out: Seq<char>, i: int, path: Seq<char>)
    requires
        0 <= i < lines(out).len(),
        lines(out)[i] == worktree_key() + path,
        !has_suffix(path, dot_bare()),
    ensures
        picked(LineRule::WorktreePath, out).contains(path),
{
    let l = lines(out)[i];
    assert(l.take(9) =~= worktree_key());
    assert(l.skip(9) =~= path);
    lemma_filter_map_holds(lines(out), |l: Seq<char>| pick(LineRule::WorktreePath, l), i, path);
}

/// Law: the worktree phase of `jgit clean` passes over a locked or prunable
/// worktree: its line, which ends in a note, yields no branch to weigh for
/// removal.
pub proof fn law_noted_worktree_is_passed_over(
    path: Seq<char>,
    gap: Seq<char>,
    commit: Seq<char>,
    branch: Seq<char>,
    note: Seq<char>,
)
    requires
        path.len() > 0,
        !is_white(path[0]),
        note == locked_note() || note == prunable_note(),
    ensures
        pick(LineRule::WorktreeBranch, worktree_line(path, gap, commit, branch, note)) == None::<
            Seq<char>,
        >,
{
    let line = worktree_line(path, gap, commit, branch, note);
    assert(line[0] == path[0]);
    assert(line.last() == note.last());
    lemma_trim_unchanged(line);
}

} // verus!
