//! Unix paths as `std::path::Path` reads them: a path is the sequence of its
//! components, written here as their text (`/` for the root, `.` for a
//! leading current directory, `..` for a parent, and the names).
use vstd::prelude::*;
use crate::text::{chars_of, last_index_in, last_index_of, slice_string, views};

verus! {

/// `p` begins at the root.
pub open spec fn has_root(p: Seq<char>) -> bool {
    p.len() > 0 && p[0] == '/'
}

/// `p` begins with a `.` component that `Path::components` keeps.
pub open spec fn has_cur(p: Seq<char>) -> bool {
    !has_root(p) && p.len() > 0 && p[0] == '.' && (p.len() == 1 || p[1] == '/')
}

/// The number of characters before the first `/` of `s`, or its length.
pub open spec fn seg_len(s: Seq<char>) -> nat
    decreases s.len(),
{
    if s.len() == 0 || s[0] == '/' {
        0
    } else {
        1 + seg_len(s.drop_first())
    }
}

/// A piece between separators that names no component.
pub open spec fn is_skipped(piece: Seq<char>) -> bool {
    piece.len() == 0 || piece == seq!['.']
}

/// The components of the text after the root or the leading `.`: the pieces
/// between `/` separators, without empty pieces and without `.` pieces.
pub open spec fn segments(s: Seq<char>) -> Seq<Seq<char>>
    decreases s.len(),
{
    if s.len() == 0 {
        seq![]
    } else {
        let n = seg_len(s);
        let piece = s.take(n as int);
        let rest = if n < s.len() {
            segments(s.skip(n as int + 1))
        } else {
            seq![]
        };
        if is_skipped(piece) {
            rest
        } else {
            seq![piece] + rest
        }
    }
}

/// The components of `p` (`Path::components`), each by its text.
pub open spec fn components(p: Seq<char>) -> Seq<Seq<char>> {
    if has_root(p) {
        seq![seq!['/']] + segments(p.drop_first())
    } else if has_cur(p) {
        seq![seq!['.']] + segments(p.drop_first())
    } else {
        segments(p)
    }
}

/// The pieces of `s` joined by single `/` separators.
pub open spec fn join_slash(s: Seq<Seq<char>>) -> Seq<char>
    decreases s.len(),
{
    if s.len() == 0 {
        seq![]
    } else if s.len() == 1 {
        s[0]
    } else {
        join_slash(s.drop_last()) + seq!['/'] + s.last()
    }
}

/// `Path::join` (`PathBuf::push`): a rooted `rel` replaces `base`; otherwise
/// `rel` follows `base`, with a `/` between unless `base` is empty or already
/// ends with one.
pub open spec fn join(base: Seq<char>, rel: Seq<char>) -> Seq<char> {
    if has_root(rel) {
        rel
    } else if base.len() == 0 || base.last() == '/' {
        base + rel
    } else {
        base + seq!['/'] + rel
    }
}

/// The characters before the body of `p`: the root or the leading `.`.
pub open spec fn head_len(p: Seq<char>) -> int {
    if has_root(p) || has_cur(p) {
        1
    } else {
        0
    }
}

/// The text left once `k` components of the body text `s` have been read,
/// together with the separator after each and the empty or `.` pieces before
/// each (`Components::next`).
pub open spec fn skip_segments(s: Seq<char>, k: nat) -> Seq<char>
    decreases s.len(),
{
    if k == 0 || s.len() == 0 {
        s
    } else {
        let n = seg_len(s);
        let rest = if n < s.len() {
            s.skip(n as int + 1)
        } else {
            seq![]
        };
        if is_skipped(s.take(n as int)) {
            skip_segments(rest, k)
        } else {
            skip_segments(rest, (k - 1) as nat)
        }
    }
}

/// `s` without the empty and `.` pieces at its front, and their separators.
pub open spec fn trim_left_segs(s: Seq<char>) -> Seq<char>
    decreases s.len(),
{
    if s.len() == 0 {
        s
    } else {
        let n = seg_len(s);
        if is_skipped(s.take(n as int)) {
            if n < s.len() {
                trim_left_segs(s.skip(n as int + 1))
            } else {
                seq![]
            }
        } else {
            s
        }
    }
}

/// `s` without the empty and `.` pieces at its end, each with the separator
/// before it, never cutting into the first `floor` characters.
pub open spec fn trim_right_segs(s: Seq<char>, floor: int) -> Seq<char>
    decreases s.len(),
{
    if s.len() <= floor || floor < 0 {
        s
    } else {
        let body = s.skip(floor);
        proof {
            lemma_last_index_of_bounds(body, '/');
        }
        match last_index_of(body, '/') {
            Some(i) => if is_skipped(body.skip(i + 1)) {
                trim_right_segs(s.take(floor + i), floor)
            } else {
                s
            },
            None => if is_skipped(body) {
                s.take(floor)
            } else {
                s
            },
        }
    }
}

/// `Path::strip_prefix`: the text of `p` after the components of `base`, where
/// those are the first components of `p`.
pub open spec fn strip_path_prefix(p: Seq<char>, base: Seq<char>) -> Option<Seq<char>> {
    let cb = components(base);
    let cp = components(p);
    if cb.len() == 0 {
        Some(trim_right_segs(p, head_len(p)))
    } else if cb.len() <= cp.len() && cp.take(cb.len() as int) == cb {
        let h = head_len(p);
        let rest = skip_segments(p.skip(h), (cb.len() - h) as nat);
        Some(trim_right_segs(trim_left_segs(rest), 0))
    } else {
        None
    }
}

/// `Path::parent`: `p` without its last component, or nothing where that
/// component is the root or where there is none.
pub open spec fn parent(p: Seq<char>) -> Option<Seq<char>> {
    let h = head_len(p);
    let s1 = trim_right_segs(p, h);
    if s1.len() > h {
        let s2 = match last_index_of(s1.skip(h), '/') {
            Some(i) => s1.take(h + i),
            None => s1.take(h),
        };
        Some(trim_right_segs(s2, h))
    } else if has_cur(p) {
        Some(seq![])
    } else {
        None
    }
}

// ---------------------------------------------------------------- lemmas

pub proof fn lemma_last_index_of_bounds(s: Seq<char>, c: char)
    ensures
        last_index_of(s, c) matches Some(i) ==> 0 <= i < s.len(),
    decreases s.len(),
{
    if s.len() > 0 && s.last() != c {
        lemma_last_index_of_bounds(s.drop_last(), c);
    }
}

proof fn lemma_seg_len(s: Seq<char>, k: int)
    requires
        0 <= k <= s.len(),
        forall|i: int| 0 <= i < k ==> #[trigger] s[i] != '/',
        k == s.len() || s[k] == '/',
    ensures
        seg_len(s) == k,
    decreases k,
{
    if k > 0 {
        let t = s.drop_first();
        assert forall|i: int| 0 <= i < k - 1 implies #[trigger] t[i] != '/' by {
            assert(t[i] == s[i + 1]);
        }
        if k - 1 < t.len() {
            assert(t[k - 1] == s[k]);
        }
        assert(s[0] != '/');
        lemma_seg_len(t, k - 1);
    }
}

// ---------------------------------------------------------------- exec

/// Appends to `out` the components of `v[lo..]`, read as the text after a root
/// or a leading `.`.
fn push_segments(p: &str, v: &Vec<char>, lo: usize, out: &mut Vec<String>)
    requires
        v@ == p@,
        lo <= v@.len(),
    ensures
        views(final(out)@) == views(old(out)@) + segments(v@.skip(lo as int)),
{
    let n = v.len();
    let mut pos = lo;
    let ghost start = views(out@);
    while pos < n
        invariant
            n == v@.len(),
            v@ == p@,
            lo <= pos <= n,
            views(out@) + segments(v@.skip(pos as int)) == start + segments(v@.skip(lo as int)),
        decreases n - pos,
    {
        let ghost rest = v@.skip(pos as int);
        let ghost done = views(out@);
        let mut j = pos;
        while j < n && v[j] != '/'
            invariant
                pos <= j <= n,
                n == v@.len(),
                forall|i: int| pos <= i < j ==> #[trigger] v@[i] != '/',
            decreases n - j,
        {
            j = j + 1;
        }
        proof {
            assert forall|i: int| 0 <= i < j - pos implies #[trigger] rest[i] != '/' by {
                assert(rest[i] == v@[pos + i]);
            }
            if j < n {
                assert(rest[j - pos] == v@[j as int]);
            }
            lemma_seg_len(rest, j - pos);
            assert(rest.take(j - pos) =~= v@.subrange(pos as int, j as int));
        }
        let skipped = j == pos || (j == pos + 1 && v[pos] == '.');
        proof {
            let piece = v@.subrange(pos as int, j as int);
            if j == pos + 1 {
                assert(piece == seq!['.'] <==> v@[pos as int] == '.') by {
                    if v@[pos as int] == '.' {
                        assert(piece =~= seq!['.']);
                    }
                    if piece == seq!['.'] {
                        assert(piece[0] == v@[pos as int]);
                    }
                }
            }
            if j != pos && j != pos + 1 {
                assert(piece.len() != 1);
            }
            assert(skipped == is_skipped(piece));
        }
        if !skipped {
            let piece = slice_string(p, v, pos, j);
            out.push(piece);
            proof {
                assert(views(out@) =~= done.push(v@.subrange(pos as int, j as int)));
            }
        }
        if j < n {
            proof {
                assert(rest.skip(j - pos + 1) =~= v@.skip(j + 1));
                if skipped {
                    assert(segments(rest) == segments(v@.skip(j + 1)));
                } else {
                    assert(segments(rest) == seq![v@.subrange(pos as int, j as int)] + segments(
                        v@.skip(j + 1),
                    ));
                    assert(views(out@) + segments(v@.skip(j + 1)) =~= done + segments(rest));
                }
            }
            pos = j + 1;
        } else {
            proof {
                assert(v@.skip(n as int) =~= Seq::<char>::empty());
                if skipped {
                    assert(segments(rest) =~= Seq::<Seq<char>>::empty());
                } else {
                    assert(segments(rest) =~= seq![v@.subrange(pos as int, j as int)]);
                    assert(views(out@) + segments(v@.skip(n as int)) =~= done + segments(rest));
                }
            }
            pos = n;
        }
    }
    proof {
        assert(v@.skip(n as int) =~= Seq::<char>::empty());
        assert(views(out@) + Seq::<Seq<char>>::empty() =~= views(out@));
    }
}

/// The components of the path `p`, each by its text (`Path::components`).
pub fn components_of(p: &str) -> (c: Vec<String>)
    ensures
        views(c@) == components(p@),
{
    let v = chars_of(p);
    let mut out: Vec<String> = Vec::new();
    let n = v.len();
    if n > 0 && v[0] == '/' {
        out.push(String::from_str("/"));
        proof {
            reveal_strlit("/");
            assert("/"@ =~= seq!['/']);
            assert(out@[0]@ == seq!['/']);
            assert(views(out@) =~= seq![seq!['/']]);
        }
        push_segments(p, &v, 1, &mut out);
        proof {
            assert(v@.skip(1) =~= v@.drop_first());
        }
    } else if n > 0 && v[0] == '.' && (n == 1 || v[1] == '/') {
        out.push(String::from_str("."));
        proof {
            reveal_strlit(".");
            assert("."@ =~= seq!['.']);
            assert(out@[0]@ == seq!['.']);
            assert(views(out@) =~= seq![seq!['.']]);
        }
        push_segments(p, &v, 1, &mut out);
        proof {
            assert(v@.skip(1) =~= v@.drop_first());
        }
    } else {
        push_segments(p, &v, 0, &mut out);
        proof {
            assert(v@.skip(0) =~= v@);
            assert(Seq::<Seq<char>>::empty() + segments(v@) =~= segments(v@));
        }
    }
    out
}


/// The length of the piece of `v[lo..]` before the first `/`.
fn seg_end(v: &Vec<char>, lo: usize) -> (j: usize)
    requires
        lo <= v@.len(),
    ensures
        lo <= j <= v@.len(),
        j - lo == seg_len(v@.skip(lo as int)),
{
    let n = v.len();
    let mut j = lo;
    while j < n && v[j] != '/'
        invariant
            lo <= j <= n,
            n == v@.len(),
            forall|i: int| lo <= i < j ==> #[trigger] v@[i] != '/',
        decreases n - j,
    {
        j = j + 1;
    }
    proof {
        let rest = v@.skip(lo as int);
        assert forall|i: int| 0 <= i < j - lo implies #[trigger] rest[i] != '/' by {
            assert(rest[i] == v@[lo + i]);
        }
        if j < n {
            assert(rest[j - lo] == v@[j as int]);
        }
        lemma_seg_len(rest, j - lo);
    }
    j
}

/// Whether `v[a..b]` is empty or a single `.`.
fn skipped_piece(v: &Vec<char>, a: usize, b: usize) -> (r: bool)
    requires
        a <= b <= v@.len(),
    ensures
        r == is_skipped(v@.subrange(a as int, b as int)),
{
    let piece = Ghost(v@.subrange(a as int, b as int));
    if a == b {
        true
    } else if b == a + 1 && v[a] == '.' {
        assert(piece@ =~= seq!['.']);
        true
    } else {
        proof {
            assert(piece@.len() == b - a);
            if piece@ == seq!['.'] {
                assert(piece@[0] == v@[a as int]);
            }
        }
        false
    }
}

/// Where the text of `v` goes on once `k` components from `lo` on have been read.
fn skip_segments_from(v: &Vec<char>, lo: usize, k: usize) -> (r: usize)
    requires
        lo <= v@.len(),
    ensures
        lo <= r <= v@.len(),
        v@.skip(r as int) == skip_segments(v@.skip(lo as int), k as nat),
{
    let n = v.len();
    let mut pos = lo;
    let mut left = k;
    while left > 0 && pos < n
        invariant
            n == v@.len(),
            lo <= pos <= n,
            skip_segments(v@.skip(pos as int), left as nat) == skip_segments(
                v@.skip(lo as int),
                k as nat,
            ),
        decreases n - pos,
    {
        let ghost s = v@.skip(pos as int);
        let j = seg_end(v, pos);
        let skipped = skipped_piece(v, pos, j);
        proof {
            assert(s.take(j - pos) =~= v@.subrange(pos as int, j as int));
        }
        if j < n {
            proof {
                assert(s.skip(j - pos + 1) =~= v@.skip(j + 1));
            }
            pos = j + 1;
        } else {
            proof {
                assert(v@.skip(n as int) =~= Seq::<char>::empty());
            }
            pos = n;
        }
        if !skipped {
            left = left - 1;
        }
    }
    proof {
        if pos == n {
            assert(v@.skip(n as int) =~= Seq::<char>::empty());
        }
    }
    pos
}

/// Where the text of `v` from `lo` on begins once empty and `.` pieces are passed.
fn trim_left_from(v: &Vec<char>, lo: usize) -> (r: usize)
    requires
        lo <= v@.len(),
    ensures
        lo <= r <= v@.len(),
        v@.skip(r as int) == trim_left_segs(v@.skip(lo as int)),
{
    let n = v.len();
    let mut pos = lo;
    while pos < n
        invariant
            n == v@.len(),
            lo <= pos <= n,
            trim_left_segs(v@.skip(pos as int)) == trim_left_segs(v@.skip(lo as int)),
        decreases n - pos,
    {
        let ghost s = v@.skip(pos as int);
        let j = seg_end(v, pos);
        let skipped = skipped_piece(v, pos, j);
        proof {
            assert(s.take(j - pos) =~= v@.subrange(pos as int, j as int));
        }
        if !skipped {
            return pos;
        }
        if j < n {
            proof {
                assert(s.skip(j - pos + 1) =~= v@.skip(j + 1));
            }
            pos = j + 1;
        } else {
            proof {
                assert(v@.skip(n as int) =~= Seq::<char>::empty());
                assert(trim_left_segs(s) =~= Seq::<char>::empty());
            }
            pos = n;
        }
    }
    proof {
        assert(v@.skip(n as int) =~= Seq::<char>::empty());
    }
    pos
}

/// Where the text `v[lo..hi]` ends once empty and `.` pieces at its end are
/// cut off, never cutting into its first `floor` characters.
fn trim_right_to(v: &Vec<char>, lo: usize, hi: usize, floor: usize) -> (r: usize)
    requires
        lo <= hi <= v@.len(),
        floor <= hi - lo,
    ensures
        lo + floor <= r <= hi,
        v@.subrange(lo as int, r as int) == trim_right_segs(
            v@.subrange(lo as int, hi as int),
            floor as int,
        ),
{
    let mut end = hi;
    while end > lo + floor
        invariant
            lo + floor <= end <= hi <= v@.len(),
            trim_right_segs(v@.subrange(lo as int, end as int), floor as int) == trim_right_segs(
                v@.subrange(lo as int, hi as int),
                floor as int,
            ),
        decreases end,
    {
        let ghost s = v@.subrange(lo as int, end as int);
        let ghost body = s.skip(floor as int);
        proof {
            assert(body =~= v@.subrange(lo + floor, end as int));
        }
        match last_index_in(v, lo + floor, end, '/') {
            Some(i) => {
                let skipped = skipped_piece(v, i + 1, end);
                proof {
                    assert(body.skip(i - lo - floor + 1) =~= v@.subrange(i + 1, end as int));
                }
                if !skipped {
                    return end;
                }
                proof {
                    assert(s.take(floor + (i - lo - floor)) =~= v@.subrange(lo as int, i as int));
                }
                end = i;
            },
            None => {
                let skipped = skipped_piece(v, lo + floor, end);
                if !skipped {
                    return end;
                }
                proof {
                    assert(s.take(floor as int) =~= v@.subrange(lo as int, lo + floor));
                }
                end = lo + floor;
            },
        }
    }
    end
}

/// The text of `v[0..]` after its head: the length of the root or leading `.`.
fn head_of(v: &Vec<char>) -> (h: usize)
    ensures
        h == head_len(v@),
        h <= v@.len(),
{
    let n = v.len();
    if n > 0 && v[0] == '/' {
        1
    } else if n > 0 && v[0] == '.' && (n == 1 || v[1] == '/') {
        1
    } else {
        0
    }
}

/// `Path::strip_prefix`: the text of `p` after the components of `base`.
pub fn strip_prefix_of(p: &str, base: &str) -> (r: Option<String>)
    ensures
        match r {
            Some(t) => strip_path_prefix(p@, base@) == Some(t@),
            None => strip_path_prefix(p@, base@) == None::<Seq<char>>,
        },
{
    let v = chars_of(p);
    let cb = components_of(base);
    let cp = components_of(p);
    let h = head_of(&v);
    if cb.len() == 0 {
        let e = trim_right_to(&v, 0, v.len(), h);
        proof {
            assert(v@.subrange(0, v@.len() as int) =~= v@);
        }
        return Some(slice_string(p, &v, 0, e));
    }
    if cb.len() > cp.len() {
        return None;
    }
    let mut i: usize = 0;
    while i < cb.len()
        invariant
            views(cb@) == components(base@),
            views(cp@) == components(p@),
            cb@.len() <= cp@.len(),
            i <= cb@.len(),
            forall|j: int| 0 <= j < i ==> cp@[j]@ == cb@[j]@,
        decreases cb@.len() - i,
    {
        if cp[i] != cb[i] {
            proof {
                assert(views(cp@).take(cb@.len() as int)[i as int] == cp@[i as int]@);
                assert(views(cb@)[i as int] == cb@[i as int]@);
            }
            return None;
        }
        i = i + 1;
    }
    proof {
        assert(views(cp@).take(cb@.len() as int) =~= views(cb@));
    }
    let ghost cbl = cb@.len();
    proof {
        assert(views(cb@).len() == cbl);
        if h == 1 {
            assert(components(p@).len() >= 1);
        }
    }
    if cb.len() < h {
        // unreachable: a head component is the first of `p`'s components
        return None;
    }
    let k = cb.len() - h;
    let a = skip_segments_from(&v, h, k);
    let b = trim_left_from(&v, a);
    proof {
        assert(v@.skip(h as int) == p@.skip(h as int));
    }
    let e = trim_right_to(&v, b, v.len(), 0);
    proof {
        assert(v@.subrange(b as int, v@.len() as int) =~= v@.skip(b as int));
    }
    Some(slice_string(p, &v, b, e))
}

/// `Path::parent`: the text of `p` without its last component.
pub fn parent_of(p: &str) -> (r: Option<String>)
    ensures
        match r {
            Some(t) => parent(p@) == Some(t@),
            None => parent(p@) == None::<Seq<char>>,
        },
{
    let v = chars_of(p);
    let n = v.len();
    let h = head_of(&v);
    let e1 = trim_right_to(&v, 0, n, h);
    proof {
        assert(v@.subrange(0, n as int) =~= v@);
    }
    if e1 > h {
        let ghost s1 = v@.subrange(0, e1 as int);
        proof {
            assert(s1.skip(h as int) =~= v@.subrange(h as int, e1 as int));
        }
        let cut = match last_index_in(&v, h, e1, '/') {
            Some(i) => {
                proof {
                    assert(s1.take(h + (i - h)) =~= v@.subrange(0, i as int));
                }
                i
            },
            None => {
                proof {
                    assert(s1.take(h as int) =~= v@.subrange(0, h as int));
                }
                h
            },
        };
        let e2 = trim_right_to(&v, 0, cut, h);
        Some(slice_string(p, &v, 0, e2))
    } else if n > 0 && v[0] == '.' && (n == 1 || v[1] == '/') {
        Some(String::new())
    } else {
        None
    }
}

/// `Path::join`: `rel` below `base`.
pub fn join_of(base: &str, rel: &str) -> (r: String)
    ensures
        r@ == join(base@, rel@),
{
    let b = chars_of(base);
    let c = chars_of(rel);
    if c.len() > 0 && c[0] == '/' {
        String::from_str(rel)
    } else if b.len() == 0 || b[b.len() - 1] == '/' {
        let mut r = String::from_str(base);
        r.append(rel);
        r
    } else {
        let mut r = String::from_str(base);
        r.append("/");
        r.append(rel);
        proof {
            reveal_strlit("/");
            assert("/"@ =~= seq!['/']);
        }
        r
    }
}

/// Whether the paths `a` and `b` have the same components (`Path`'s `==`).
pub fn same_path(a: &str, b: &str) -> (r: bool)
    ensures
        r == (components(a@) == components(b@)),
{
    let ca = components_of(a);
    let cb = components_of(b);
    if ca.len() != cb.len() {
        proof {
            assert(views(ca@).len() != views(cb@).len());
        }
        return false;
    }
    let mut i: usize = 0;
    while i < ca.len()
        invariant
            views(ca@) == components(a@),
            views(cb@) == components(b@),
            ca@.len() == cb@.len(),
            i <= ca@.len(),
            forall|j: int| 0 <= j < i ==> ca@[j]@ == cb@[j]@,
        decreases ca@.len() - i,
    {
        if ca[i] != cb[i] {
            proof {
                assert(views(ca@)[i as int] != views(cb@)[i as int]);
            }
            return false;
        }
        i = i + 1;
    }
    proof {
        assert(views(ca@) =~= views(cb@));
    }
    true
}

} // verus!
