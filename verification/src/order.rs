//! The order of paths (`Ord for Path`): component by component, where the root
//! comes before `.`, `.` before `..`, `..` before any name, and names compare
//! by their characters.
use vstd::prelude::*;
use crate::paths::{components, components_of};
use crate::text::{chars_of, views};

verus! {

/// `a` comes before `b` in the order of their characters.
pub open spec fn chars_lt(a: Seq<char>, b: Seq<char>) -> bool
    decreases a.len(),
{
    if a.len() == 0 {
        b.len() > 0
    } else if b.len() == 0 {
        false
    } else if a[0] != b[0] {
        (a[0] as u32) < (b[0] as u32)
    } else {
        chars_lt(a.drop_first(), b.drop_first())
    }
}

/// The rank of a component's kind: root, current directory, parent, name.
pub open spec fn comp_rank(c: Seq<char>) -> int {
    if c == seq!['/'] {
        1
    } else if c == seq!['.'] {
        2
    } else if c == seq!['.', '.'] {
        3
    } else {
        4
    }
}

/// Component `a` comes before component `b`.
pub open spec fn comp_lt(a: Seq<char>, b: Seq<char>) -> bool {
    comp_rank(a) < comp_rank(b) || (comp_rank(a) == 4 && comp_rank(b) == 4 && chars_lt(a, b))
}

/// The components `a` come before the components `b`: at the first place where
/// they differ, or `a` is a proper prefix of `b`.
pub open spec fn comps_lt(a: Seq<Seq<char>>, b: Seq<Seq<char>>) -> bool
    decreases a.len(),
{
    if a.len() == 0 {
        b.len() > 0
    } else if b.len() == 0 {
        false
    } else if a[0] != b[0] {
        comp_lt(a[0], b[0])
    } else {
        comps_lt(a.drop_first(), b.drop_first())
    }
}

/// The path `a` comes before the path `b`.
pub open spec fn path_lt(a: Seq<char>, b: Seq<char>) -> bool {
    comps_lt(components(a), components(b))
}

/// No path of `s` comes before one that stands ahead of it.
pub open spec fn paths_sorted(s: Seq<Seq<char>>) -> bool {
    forall|i: int, j: int| 0 <= i < j < s.len() ==> !path_lt(#[trigger] s[j], #[trigger] s[i])
}

/// Where `x` goes in `r`: after the last path of `r` that `x` does not come before.
pub open spec fn insert_pos(r: Seq<Seq<char>>, x: Seq<char>) -> nat
    decreases r.len(),
{
    if r.len() == 0 || !path_lt(x, r.last()) {
        r.len()
    } else {
        insert_pos(r.drop_last(), x)
    }
}

/// `s` sorted by `path_lt`, each path placed after those ahead of it that it
/// does not come before (a stable sort).
pub open spec fn sorted_paths(s: Seq<Seq<char>>) -> Seq<Seq<char>>
    decreases s.len(),
{
    if s.len() == 0 {
        s
    } else {
        let r = sorted_paths(s.drop_last());
        let p = insert_pos(r, s.last()) as int;
        r.take(p).push(s.last()) + r.skip(p)
    }
}

// ---------------------------------------------------------------- lemmas

proof fn lemma_insert_pos(r: Seq<Seq<char>>, x: Seq<char>, p: int)
    requires
        0 <= p <= r.len(),
        forall|j: int| p <= j < r.len() ==> path_lt(x, #[trigger] r[j]),
        p == 0 || !path_lt(x, r[p - 1]),
    ensures
        insert_pos(r, x) == p,
    decreases r.len(),
{
    if r.len() > p {
        assert(path_lt(x, r[r.len() - 1]));
        let q = r.drop_last();
        assert forall|j: int| p <= j < q.len() implies path_lt(x, #[trigger] q[j]) by {
            assert(q[j] == r[j]);
        }
        if p > 0 {
            assert(q[p - 1] == r[p - 1]);
        }
        lemma_insert_pos(q, x, p);
    }
}

proof fn lemma_chars_lt_order(a: Seq<char>, b: Seq<char>, c: Seq<char>)
    ensures
        !(chars_lt(a, b) && chars_lt(b, a)),
        chars_lt(a, b) && chars_lt(b, c) ==> chars_lt(a, c),
        a != b ==> chars_lt(a, b) || chars_lt(b, a),
    decreases a.len(),
{
    if a.len() > 0 && b.len() > 0 {
        if a[0] != b[0] {
            vstd::utf8::char_u32_cast(a[0], a[0] as u32);
            vstd::utf8::char_u32_cast(b[0], b[0] as u32);
            assert((a[0] as u32) != (b[0] as u32));
        }
    }
    if a.len() > 0 && b.len() > 0 && c.len() > 0 {
        lemma_chars_lt_order(a.drop_first(), b.drop_first(), c.drop_first());
        if a != b && a[0] == b[0] {
            assert(a =~= seq![a[0]] + a.drop_first());
            assert(b =~= seq![b[0]] + b.drop_first());
        }
    } else if a.len() > 0 && b.len() > 0 {
        lemma_chars_lt_order(a.drop_first(), b.drop_first(), b.drop_first());
        if a != b && a[0] == b[0] {
            assert(a =~= seq![a[0]] + a.drop_first());
            assert(b =~= seq![b[0]] + b.drop_first());
        }
    } else if a.len() == 0 && b.len() == 0 {
        assert(a =~= b);
    }
}

proof fn lemma_comp_lt_order(a: Seq<char>, b: Seq<char>, c: Seq<char>)
    ensures
        !(comp_lt(a, b) && comp_lt(b, a)),
        comp_lt(a, b) && comp_lt(b, c) ==> comp_lt(a, c),
        a != b ==> comp_lt(a, b) || comp_lt(b, a),
{
    lemma_chars_lt_order(a, b, c);
}

proof fn lemma_comps_lt_order(a: Seq<Seq<char>>, b: Seq<Seq<char>>, c: Seq<Seq<char>>)
    ensures
        !(comps_lt(a, b) && comps_lt(b, a)),
        comps_lt(a, b) && comps_lt(b, c) ==> comps_lt(a, c),
        a != b ==> comps_lt(a, b) || comps_lt(b, a),
    decreases a.len(),
{
    if a.len() > 0 && b.len() > 0 && c.len() > 0 {
        lemma_comps_lt_order(a.drop_first(), b.drop_first(), c.drop_first());
        lemma_comp_lt_order(a[0], b[0], c[0]);
        if a != b && a[0] == b[0] {
            assert(a =~= seq![a[0]] + a.drop_first());
            assert(b =~= seq![b[0]] + b.drop_first());
        }
    } else if a.len() > 0 && b.len() > 0 {
        lemma_comps_lt_order(a.drop_first(), b.drop_first(), b.drop_first());
        lemma_comp_lt_order(a[0], b[0], b[0]);
        if a != b && a[0] == b[0] {
            assert(a =~= seq![a[0]] + a.drop_first());
            assert(b =~= seq![b[0]] + b.drop_first());
        }
    } else if a.len() == 0 && b.len() == 0 {
        assert(a =~= b);
    }
}

/// `path_lt` is a strict order in which paths that do not come before each other
/// have the same components.
pub proof fn lemma_path_lt_order(a: Seq<char>, b: Seq<char>, c: Seq<char>)
    ensures
        !(path_lt(a, b) && path_lt(b, a)),
        path_lt(a, b) && path_lt(b, c) ==> path_lt(a, c),
        !path_lt(a, b) && !path_lt(b, a) ==> components(a) == components(b),
        !path_lt(a, b) && !path_lt(b, c) ==> !path_lt(a, c),
{
    lemma_comps_lt_order(components(a), components(b), components(c));
    lemma_comps_lt_order(components(c), components(b), components(a));
    lemma_comps_lt_order(components(b), components(c), components(a));
    lemma_comps_lt_order(components(a), components(c), components(b));
    lemma_comps_lt_order(components(c), components(a), components(b));
    lemma_comps_lt_order(components(b), components(a), components(c));
}

// ---------------------------------------------------------------- exec

fn chars_equal(a: &Vec<char>, b: &Vec<char>) -> (r: bool)
    ensures
        r == (a@ == b@),
{
    if a.len() != b.len() {
        return false;
    }
    let mut i: usize = 0;
    while i < a.len()
        invariant
            a@.len() == b@.len(),
            i <= a@.len(),
            forall|j: int| 0 <= j < i ==> a@[j] == b@[j],
        decreases a@.len() - i,
    {
        if a[i] != b[i] {
            return false;
        }
        i = i + 1;
    }
    assert(a@ =~= b@);
    true
}

fn chars_less(a: &Vec<char>, b: &Vec<char>) -> (r: bool)
    ensures
        r == chars_lt(a@, b@),
{
    let mut i: usize = 0;
    proof {
        assert(a@.skip(0) =~= a@);
        assert(b@.skip(0) =~= b@);
    }
    while i < a.len() && i < b.len() && a[i] == b[i]
        invariant
            i <= a@.len(),
            i <= b@.len(),
            forall|j: int| 0 <= j < i ==> a@[j] == b@[j],
            chars_lt(a@, b@) == chars_lt(a@.skip(i as int), b@.skip(i as int)),
        decreases a@.len() - i,
    {
        proof {
            let x = a@.skip(i as int);
            let y = b@.skip(i as int);
            assert(x.drop_first() =~= a@.skip(i + 1));
            assert(y.drop_first() =~= b@.skip(i + 1));
        }
        i = i + 1;
    }
    proof {
        let x = a@.skip(i as int);
        let y = b@.skip(i as int);
        if i < a.len() && i < b.len() {
            assert(x[0] == a@[i as int] && y[0] == b@[i as int]);
        }
    }
    if i < a.len() && i < b.len() {
        let ca = a[i] as u32;
        let cb = b[i] as u32;
        proof {
            let x = a@.skip(i as int);
            let y = b@.skip(i as int);
            assert(x[0] != y[0]);
            assert(chars_lt(x, y) == ((x[0] as u32) < (y[0] as u32)));
        }
        ca < cb
    } else {
        i == a.len() && i < b.len()
    }
}

fn comp_rank_of(c: &Vec<char>) -> (r: u8)
    ensures
        r == comp_rank(c@),
{
    let n = c.len();
    if n == 1 && c[0] == '/' {
        assert(c@ =~= seq!['/']);
        1
    } else if n == 1 && c[0] == '.' {
        assert(c@ =~= seq!['.']);
        2
    } else if n == 2 && c[0] == '.' && c[1] == '.' {
        assert(c@ =~= seq!['.', '.']);
        3
    } else {
        proof {
            if c@ == seq!['/'] || c@ == seq!['.'] {
                assert(c@[0] == c@[0]);
            }
            if c@ == seq!['.', '.'] {
                assert(c@[1] == '.');
            }
        }
        4
    }
}

fn comps_less(a: &Vec<Vec<char>>, b: &Vec<Vec<char>>) -> (r: bool)
    ensures
        r == comps_lt(a@.map_values(|x: Vec<char>| x@), b@.map_values(|x: Vec<char>| x@)),
{
    let ghost va = a@.map_values(|x: Vec<char>| x@);
    let ghost vb = b@.map_values(|x: Vec<char>| x@);
    let mut i: usize = 0;
    proof {
        assert(va.skip(0) =~= va);
        assert(vb.skip(0) =~= vb);
    }
    while i < a.len() && i < b.len() && chars_equal(&a[i], &b[i])
        invariant
            i <= a@.len(),
            i <= b@.len(),
            va == a@.map_values(|x: Vec<char>| x@),
            vb == b@.map_values(|x: Vec<char>| x@),
            comps_lt(va, vb) == comps_lt(va.skip(i as int), vb.skip(i as int)),
        decreases a@.len() - i,
    {
        proof {
            let x = va.skip(i as int);
            let y = vb.skip(i as int);
            assert(x.drop_first() =~= va.skip(i + 1));
            assert(y.drop_first() =~= vb.skip(i + 1));
            assert(x[0] == a@[i as int]@);
            assert(y[0] == b@[i as int]@);
        }
        i = i + 1;
    }
    proof {
        let x = va.skip(i as int);
        let y = vb.skip(i as int);
        if i < a.len() && i < b.len() {
            assert(x[0] == a@[i as int]@ && y[0] == b@[i as int]@);
        }
    }
    if i < a.len() && i < b.len() {
        let ra = comp_rank_of(&a[i]);
        let rb = comp_rank_of(&b[i]);
        ra < rb || (ra == 4 && rb == 4 && chars_less(&a[i], &b[i]))
    } else {
        i == a.len() && i < b.len()
    }
}

/// The components of `p`, each as its characters.
fn component_chars(p: &str) -> (r: Vec<Vec<char>>)
    ensures
        r@.map_values(|x: Vec<char>| x@) == components(p@),
{
    let c = components_of(p);
    let mut r: Vec<Vec<char>> = Vec::new();
    for k in 0..c.len()
        invariant
            views(c@) == components(p@),
            r@.map_values(|x: Vec<char>| x@) == views(c@).take(k as int),
    {
        let ghost before = r@.map_values(|x: Vec<char>| x@);
        r.push(chars_of(c[k].as_str()));
        proof {
            assert(r@.map_values(|x: Vec<char>| x@) =~= before.push(c@[k as int]@));
            assert(views(c@).take(k + 1) =~= views(c@).take(k as int).push(c@[k as int]@));
        }
    }
    proof {
        assert(views(c@).take(c@.len() as int) =~= views(c@));
    }
    r
}

/// Whether the path `a` comes before the path `b`.
pub fn path_less(a: &str, b: &str) -> (r: bool)
    ensures
        r == path_lt(a@, b@),
{
    let ca = component_chars(a);
    let cb = component_chars(b);
    comps_less(&ca, &cb)
}

/// `paths` in the order of `path_lt`, each path after those ahead of it that
/// it does not come before.
pub fn sort_paths(paths: Vec<String>) -> (r: Vec<String>)
    ensures
        views(r@) == sorted_paths(views(paths@)),
        views(r@).to_multiset() == views(paths@).to_multiset(),
        paths_sorted(views(r@)),
{
    let mut r: Vec<String> = Vec::new();
    let n = paths.len();
    let mut k: usize = 0;
    proof {
        assert(views(paths@).take(0) =~= Seq::<Seq<char>>::empty());
        assert(views(r@) =~= Seq::<Seq<char>>::empty());
        assert(sorted_paths(Seq::<Seq<char>>::empty()) =~= Seq::<Seq<char>>::empty());
    }
    while k < n
        invariant
            n == paths@.len(),
            k <= n,
            views(r@).to_multiset() == views(paths@).take(k as int).to_multiset(),
            views(r@) == sorted_paths(views(paths@).take(k as int)),
            paths_sorted(views(r@)),
        decreases n - k,
    {
        let x = paths[k].clone();
        let ghost old_r = views(r@);
        // find the place: after every element that x does not come before
        let mut p = r.len();
        while p > 0 && path_less(x.as_str(), r[p - 1].as_str())
            invariant
                p <= r@.len(),
                views(r@) == old_r,
                forall|j: int| p <= j < r@.len() ==> path_lt(x@, #[trigger] old_r[j]),
            decreases p,
        {
            p = p - 1;
        }
        proof {
            if p > 0 {
                assert(!path_lt(x@, old_r[p - 1]));
                assert forall|i: int| 0 <= i < p implies !path_lt(x@, #[trigger] old_r[i]) by {
                    if i < p - 1 {
                        lemma_path_lt_order(x@, old_r[p - 1], old_r[i]);
                    }
                }
            }
        }
        proof {
            lemma_insert_pos(old_r, x@, p as int);
            let tk = views(paths@).take(k + 1);
            assert(tk.drop_last() =~= views(paths@).take(k as int));
            assert(tk.last() == x@);
        }
        r.insert(p, x);
        proof {
            let nr = views(r@);
            assert(nr =~= old_r.take(p as int).push(x@) + old_r.skip(p as int));
            assert forall|i: int, j: int| 0 <= i < j < nr.len() implies !path_lt(
                #[trigger] nr[j],
                #[trigger] nr[i],
            ) by {
                if j < p {
                    assert(nr[i] == old_r[i] && nr[j] == old_r[j]);
                } else if j == p {
                    assert(nr[i] == old_r[i]);
                    lemma_path_lt_order(x@, old_r[i], x@);
                } else if i == p {
                    assert(nr[j] == old_r[j - 1]);
                    lemma_path_lt_order(x@, old_r[j - 1], x@);
                } else if i < p {
                    assert(nr[i] == old_r[i] && nr[j] == old_r[j - 1]);
                } else {
                    assert(nr[i] == old_r[i - 1] && nr[j] == old_r[j - 1]);
                }
            }
            assert(views(paths@).take(k + 1) =~= views(paths@).take(k as int).push(x@));
            assert(old_r =~= old_r.take(p as int) + old_r.skip(p as int));
            vstd::seq_lib::lemma_multiset_commutative(old_r.take(p as int).push(x@), old_r.skip(p as int));
            vstd::seq_lib::lemma_multiset_commutative(old_r.take(p as int), old_r.skip(p as int));
            assert(old_r.take(p as int).push(x@) =~= old_r.take(p as int) + seq![x@]);
            vstd::seq_lib::lemma_multiset_commutative(old_r.take(p as int), seq![x@]);
            assert(views(paths@).take(k as int).push(x@) =~= views(paths@).take(k as int) + seq![x@]);
            vstd::seq_lib::lemma_multiset_commutative(views(paths@).take(k as int), seq![x@]);
        }
        k = k + 1;
    }
    proof {
        assert(views(paths@).take(n as int) =~= views(paths@));
    }
    r
}

} // verus!
