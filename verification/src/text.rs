//! Character-level text handling: the Unicode white space class, trimming,
//! splitting into lines, prefixes and suffixes, searching.
use vstd::prelude::*;

verus! {

/// The Unicode `White_Space` property, which `char::is_whitespace` follows.
pub open spec fn is_white(c: char) -> bool {
    let n = c as int;
    ||| 0x9 <= n <= 0xd
    ||| n == 0x20
    ||| n == 0x85
    ||| n == 0xa0
    ||| n == 0x1680
    ||| 0x2000 <= n <= 0x200a
    ||| n == 0x2028
    ||| n == 0x2029
    ||| n == 0x202f
    ||| n == 0x205f
    ||| n == 0x3000
}

/// `s` without its leading white space.
pub open spec fn trim_start(s: Seq<char>) -> Seq<char>
    decreases s.len(),
{
    if s.len() > 0 && is_white(s[0]) {
        trim_start(s.drop_first())
    } else {
        s
    }
}

/// `s` without its trailing white space.
pub open spec fn trim_end(s: Seq<char>) -> Seq<char>
    decreases s.len(),
{
    if s.len() > 0 && is_white(s.last()) {
        trim_end(s.drop_last())
    } else {
        s
    }
}

/// `s` without leading and trailing white space (`str::trim`).
pub open spec fn trim(s: Seq<char>) -> Seq<char> {
    trim_end(trim_start(s))
}

/// The number of characters before the first line feed of `s`, or its length.
pub open spec fn line_len(s: Seq<char>) -> nat
    decreases s.len(),
{
    if s.len() == 0 || s[0] == '\n' {
        0
    } else {
        1 + line_len(s.drop_first())
    }
}

/// `t` without one trailing carriage return.
pub open spec fn strip_cr(t: Seq<char>) -> Seq<char> {
    if t.len() > 0 && t.last() == '\r' {
        t.drop_last()
    } else {
        t
    }
}

/// The lines of `s` as `str::lines` yields them: split after each line feed,
/// a final line feed ends the last line rather than starting an empty one,
/// and a line that a line feed ends loses one carriage return before it.
pub open spec fn lines(s: Seq<char>) -> Seq<Seq<char>>
    decreases s.len(),
{
    if s.len() == 0 {
        seq![]
    } else if line_len(s) < s.len() {
        seq![strip_cr(s.take(line_len(s) as int))] + lines(s.skip(line_len(s) as int + 1))
    } else {
        seq![s]
    }
}

/// `p` is a prefix of `s`.
pub open spec fn has_prefix(s: Seq<char>, p: Seq<char>) -> bool {
    p.len() <= s.len() && s.take(p.len() as int) == p
}

/// `p` is a suffix of `s`.
pub open spec fn has_suffix(s: Seq<char>, p: Seq<char>) -> bool {
    p.len() <= s.len() && s.skip(s.len() - p.len()) == p
}

/// `needle` occurs in `s` starting at index `i`.
pub open spec fn occurs_at(s: Seq<char>, needle: Seq<char>, i: int) -> bool {
    0 <= i && i + needle.len() <= s.len() && s.subrange(i, i + needle.len()) == needle
}

/// `needle` occurs somewhere in `s` (`str::contains`).
pub open spec fn contains(s: Seq<char>, needle: Seq<char>) -> bool {
    exists|i: int| occurs_at(s, needle, i)
}

/// The index of the last occurrence of `c` in `s` (`str::rfind` on a char).
pub open spec fn last_index_of(s: Seq<char>, c: char) -> Option<int>
    decreases s.len(),
{
    if s.len() == 0 {
        None
    } else if s.last() == c {
        Some(s.len() - 1)
    } else {
        last_index_of(s.drop_last(), c)
    }
}

/// What follows the last `c` in `s`, or all of `s` where `c` does not occur:
/// the first item of `str::rsplit(c)`.
pub open spec fn after_last(s: Seq<char>, c: char) -> Seq<char> {
    match last_index_of(s, c) {
        Some(i) => s.skip(i + 1),
        None => s,
    }
}



/// One step of `filter_map` over a growing prefix.
pub proof fn lemma_filter_map_step<A, B>(s: Seq<A>, f: spec_fn(A) -> Option<B>, k: int)
    requires
        0 <= k < s.len(),
    ensures
        s.take(k + 1).filter_map(f) == (match f(s[k]) {
            Some(x) => s.take(k).filter_map(f).push(x),
            None => s.take(k).filter_map(f),
        }),
{
    assert(s.take(k + 1).drop_last() =~= s.take(k));
    assert(s.take(k + 1).last() == s[k]);
    match f(s[k]) {
        Some(x) => {
            assert(s.take(k).filter_map(f) + seq![x] =~= s.take(k).filter_map(f).push(x));
        },
        None => {},
    }
}

/// The views of a sequence of strings.
pub open spec fn views(v: Seq<String>) -> Seq<Seq<char>> {
    v.map_values(|x: String| x@)
}

// ---------------------------------------------------------------- lemmas

pub proof fn lemma_trim_start_skip(s: Seq<char>, k: int)
    requires
        0 <= k <= s.len(),
        forall|i: int| 0 <= i < k ==> is_white(#[trigger] s[i]),
        k == s.len() || !is_white(s[k]),
    ensures
        trim_start(s) == s.skip(k),
    decreases k,
{
    if k == 0 {
        assert(s.skip(0) =~= s);
    } else {
        let t = s.drop_first();
        assert forall|i: int| 0 <= i < k - 1 implies is_white(#[trigger] t[i]) by {
            assert(t[i] == s[i + 1]);
        }
        if k - 1 < t.len() {
            assert(t[k - 1] == s[k]);
        }
        lemma_trim_start_skip(t, k - 1);
        assert(t.skip(k - 1) =~= s.skip(k));
    }
}

pub proof fn lemma_trim_end_take(s: Seq<char>, k: int)
    requires
        0 <= k <= s.len(),
        forall|i: int| k <= i < s.len() ==> is_white(#[trigger] s[i]),
        k == 0 || !is_white(s[k - 1]),
    ensures
        trim_end(s) == s.take(k),
    decreases s.len() - k,
{
    if k == s.len() {
        assert(s.take(k) =~= s);
    } else {
        let t = s.drop_last();
        assert forall|i: int| k <= i < t.len() implies is_white(#[trigger] t[i]) by {
            assert(t[i] == s[i]);
        }
        if k > 0 {
            assert(t[k - 1] == s[k - 1]);
        }
        assert(is_white(s[s.len() - 1]));
        lemma_trim_end_take(t, k);
        assert(t.take(k) =~= s.take(k));
    }
}

pub proof fn lemma_line_len(s: Seq<char>, k: int)
    requires
        0 <= k <= s.len(),
        forall|i: int| 0 <= i < k ==> #[trigger] s[i] != '\n',
        k == s.len() || s[k] == '\n',
    ensures
        line_len(s) == k,
    decreases k,
{
    if k > 0 {
        let t = s.drop_first();
        assert forall|i: int| 0 <= i < k - 1 implies #[trigger] t[i] != '\n' by {
            assert(t[i] == s[i + 1]);
        }
        if k - 1 < t.len() {
            assert(t[k - 1] == s[k]);
        }
        assert(s[0] != '\n');
        lemma_line_len(t, k - 1);
    }
}


pub proof fn lemma_last_index_of(s: Seq<char>, c: char, k: int)
    requires
        -1 <= k < s.len(),
        forall|i: int| k < i < s.len() ==> #[trigger] s[i] != c,
        k == -1 || s[k] == c,
    ensures
        last_index_of(s, c) == (if k == -1 { None::<int> } else { Some(k) }),
    decreases s.len(),
{
    if s.len() > 0 && k < s.len() - 1 {
        let t = s.drop_last();
        assert forall|i: int| k < i < t.len() implies #[trigger] t[i] != c by {
            assert(t[i] == s[i]);
        }
        if k >= 0 {
            assert(t[k] == s[k]);
        }
        assert(s[s.len() - 1] != c);
        lemma_last_index_of(t, c, k);
    }
}

// ---------------------------------------------------------------- exec

/// The characters of a string slice, in order.
pub fn chars_of(s: &str) -> (v: Vec<char>)
    ensures
        v@ == s@,
{
    let mut v: Vec<char> = Vec::new();
    for c in it: s.chars()
        invariant
            v@ == it.seq().take(it.index() as int),
    {
        v.push(c);
    }
    v
}

/// Whether `c` is white space (`char::is_whitespace`).
pub fn is_white_char(c: char) -> (b: bool)
    ensures
        b == is_white(c),
{
    let n = c as u32;
    (0x9 <= n && n <= 0xd) || n == 0x20 || n == 0x85 || n == 0xa0 || n == 0x1680 || (0x2000
        <= n && n <= 0x200a) || n == 0x2028 || n == 0x2029 || n == 0x202f || n == 0x205f || n
        == 0x3000
}

/// The bounds of `v[lo..hi]` trimmed of white space at both ends.
pub fn trim_range(v: &Vec<char>, lo: usize, hi: usize) -> (r: (usize, usize))
    requires
        lo <= hi <= v@.len(),
    ensures
        lo <= r.0 <= r.1 <= hi,
        v@.subrange(r.0 as int, r.1 as int) == trim(v@.subrange(lo as int, hi as int)),
{
    let ghost s = v@.subrange(lo as int, hi as int);
    let mut a = lo;
    while a < hi && is_white_char(v[a])
        invariant
            lo <= a <= hi <= v@.len(),
            s == v@.subrange(lo as int, hi as int),
            forall|i: int| lo <= i < a ==> is_white(#[trigger] v@[i]),
        decreases hi - a,
    {
        a = a + 1;
    }
    proof {
        assert forall|i: int| 0 <= i < a - lo implies is_white(#[trigger] s[i]) by {
            assert(s[i] == v@[lo + i]);
        }
        if a < hi {
            assert(s[a - lo] == v@[a as int]);
        }
        lemma_trim_start_skip(s, a - lo);
        assert(s.skip(a - lo) =~= v@.subrange(a as int, hi as int));
    }
    let ghost t = v@.subrange(a as int, hi as int);
    let mut b = hi;
    while b > a && is_white_char(v[b - 1])
        invariant
            lo <= a <= b <= hi <= v@.len(),
            t == v@.subrange(a as int, hi as int),
            forall|i: int| b <= i < hi ==> is_white(#[trigger] v@[i]),
        decreases b - a,
    {
        b = b - 1;
    }
    proof {
        assert forall|i: int| b - a <= i < t.len() implies is_white(#[trigger] t[i]) by {
            assert(t[i] == v@[a + i]);
        }
        if b > a {
            assert(t[b - a - 1] == v@[b - 1]);
        }
        lemma_trim_end_take(t, b - a);
        assert(t.take(b - a) =~= v@.subrange(a as int, b as int));
    }
    (a, b)
}

/// The bounds of the lines of `v`, as `str::lines` splits it.
pub fn line_ranges(v: &Vec<char>) -> (r: Vec<(usize, usize)>)
    ensures
        r@.map_values(|p: (usize, usize)| v@.subrange(p.0 as int, p.1 as int)) == lines(v@),
        forall|k: int| 0 <= k < r@.len() ==> (#[trigger] r@[k]).0 <= r@[k].1 && r@[k].1 <= v@.len(),
{
    let n = v.len();
    let mut r: Vec<(usize, usize)> = Vec::new();
    let mut pos: usize = 0;
    proof {
        assert(v@.skip(0) =~= v@);
    }
    while pos < n
        invariant
            n == v@.len(),
            pos <= n,
            forall|k: int| 0 <= k < r@.len() ==> (#[trigger] r@[k]).0 <= r@[k].1 && r@[k].1 <= n,
            r@.map_values(|p: (usize, usize)| v@.subrange(p.0 as int, p.1 as int)) + lines(
                v@.skip(pos as int),
            ) == lines(v@),
        decreases n - pos,
    {
        let ghost rest = v@.skip(pos as int);
        let ghost done = r@.map_values(|p: (usize, usize)| v@.subrange(p.0 as int, p.1 as int));
        let mut j = pos;
        while j < n && v[j] != '\n'
            invariant
                pos <= j <= n,
                n == v@.len(),
                forall|i: int| pos <= i < j ==> #[trigger] v@[i] != '\n',
            decreases n - j,
        {
            j = j + 1;
        }
        proof {
            assert forall|i: int| 0 <= i < j - pos implies #[trigger] rest[i] != '\n' by {
                assert(rest[i] == v@[pos + i]);
            }
            if j < n {
                assert(rest[j - pos] == v@[j as int]);
            }
            lemma_line_len(rest, j - pos);
        }
        if j < n {
            let end = if j > pos && v[j - 1] == '\r' {
                j - 1
            } else {
                j
            };
            r.push((pos, end));
            proof {
                assert(rest.take(j - pos) =~= v@.subrange(pos as int, j as int));
                assert(strip_cr(rest.take(j - pos)) =~= v@.subrange(pos as int, end as int));
                assert(rest.skip(j - pos + 1) =~= v@.skip(j + 1));
                let nd = r@.map_values(|p: (usize, usize)| v@.subrange(p.0 as int, p.1 as int));
                assert(nd =~= done.push(v@.subrange(pos as int, end as int)));
                assert(lines(rest) == seq![v@.subrange(pos as int, end as int)] + lines(
                    v@.skip(j + 1),
                ));
                assert(nd + lines(v@.skip(j + 1)) =~= done + lines(rest));
            }
            pos = j + 1;
        } else {
            r.push((pos, n));
            proof {
                assert(rest =~= v@.subrange(pos as int, n as int));
                let nd = r@.map_values(|p: (usize, usize)| v@.subrange(p.0 as int, p.1 as int));
                assert(nd =~= done.push(rest));
                assert(v@.skip(n as int) =~= Seq::<char>::empty());
                assert(nd + lines(v@.skip(n as int)) =~= done + lines(rest));
            }
            pos = n;
        }
    }
    proof {
        assert(v@.skip(n as int) =~= Seq::<char>::empty());
        let d = r@.map_values(|p: (usize, usize)| v@.subrange(p.0 as int, p.1 as int));
        assert(d + Seq::<Seq<char>>::empty() =~= d);
        assert forall|k: int| 0 <= k < r@.len() implies (#[trigger] r@[k]).0 <= r@[k].1 && r@[k].1 <= v@.len() by {
            assert(r@[k].1 <= n);
        }
    }
    r
}


/// Whether `p` occurs in `v` at index `i`.
pub fn matches_at(v: &Vec<char>, i: usize, p: &Vec<char>) -> (b: bool)
    requires
        i <= v@.len(),
    ensures
        b == (i + p@.len() <= v@.len() && v@.subrange(i as int, i + p@.len()) == p@),
{
    let n = v.len();
    if p.len() > n - i {
        return false;
    }
    let mut k: usize = 0;
    while k < p.len()
        invariant
            n == v@.len(),
            i + p@.len() <= v@.len(),
            k <= p@.len(),
            forall|j: int| 0 <= j < k ==> v@[i + j] == #[trigger] p@[j],
        decreases p@.len() - k,
    {
        if v[i + k] != p[k] {
            proof {
                assert(v@.subrange(i as int, i + p@.len())[k as int] != p@[k as int]);
            }
            return false;
        }
        k = k + 1;
    }
    proof {
        assert(v@.subrange(i as int, i + p@.len()) =~= p@);
    }
    true
}

/// Whether `v[lo..hi]` begins with `p`.
pub fn starts_with_in(v: &Vec<char>, lo: usize, hi: usize, p: &Vec<char>) -> (b: bool)
    requires
        lo <= hi <= v@.len(),
    ensures
        b == has_prefix(v@.subrange(lo as int, hi as int), p@),
{
    let ghost s = v@.subrange(lo as int, hi as int);
    if p.len() > hi - lo {
        return false;
    }
    let r = matches_at(v, lo, p);
    proof {
        assert(s.take(p@.len() as int) =~= v@.subrange(lo as int, lo + p@.len()));
    }
    r
}

/// Whether `v[lo..hi]` ends with `p`.
pub fn ends_with_in(v: &Vec<char>, lo: usize, hi: usize, p: &Vec<char>) -> (b: bool)
    requires
        lo <= hi <= v@.len(),
    ensures
        b == has_suffix(v@.subrange(lo as int, hi as int), p@),
{
    let ghost s = v@.subrange(lo as int, hi as int);
    if p.len() > hi - lo {
        return false;
    }
    let r = matches_at(v, hi - p.len(), p);
    proof {
        assert(s.skip(s.len() - p@.len()) =~= v@.subrange(hi - p@.len(), hi as int));
    }
    r
}

/// Whether `p` occurs in `v[lo..hi]`.
pub fn contains_in(v: &Vec<char>, lo: usize, hi: usize, p: &Vec<char>) -> (b: bool)
    requires
        lo <= hi <= v@.len(),
    ensures
        b == contains(v@.subrange(lo as int, hi as int), p@),
{
    let ghost s = v@.subrange(lo as int, hi as int);
    if p.len() > hi - lo {
        proof {
            assert forall|i: int| !occurs_at(s, p@, i) by {}
        }
        return false;
    }
    if p.len() == 0 {
        proof {
            assert(s.subrange(0, 0) =~= p@);
            assert(occurs_at(s, p@, 0));
        }
        return true;
    }
    let last = hi - p.len();
    let mut i = lo;
    while i <= last
        invariant
            lo <= i <= last + 1,
            last + p@.len() == hi,
            p@.len() > 0,
            hi <= v@.len(),
            s == v@.subrange(lo as int, hi as int),
            forall|j: int| 0 <= j < i - lo ==> !occurs_at(s, p@, j),
        decreases last + 1 - i,
    {
        if matches_at(v, i, p) {
            proof {
                assert(s.subrange(i - lo, i - lo + p@.len()) =~= v@.subrange(
                    i as int,
                    i + p@.len(),
                ));
                assert(occurs_at(s, p@, i - lo));
            }
            return true;
        }
        proof {
            assert(s.subrange(i - lo, i - lo + p@.len()) =~= v@.subrange(
                i as int,
                i + p@.len(),
            ));
        }
        i = i + 1;
    }
    proof {
        assert forall|j: int| !occurs_at(s, p@, j) by {
            if 0 <= j < i - lo {
            }
        }
    }
    false
}

/// The index in `v` of the last `c` within `v[lo..hi]`.
pub fn last_index_in(v: &Vec<char>, lo: usize, hi: usize, c: char) -> (r: Option<usize>)
    requires
        lo <= hi <= v@.len(),
    ensures
        match r {
            Some(k) => lo <= k < hi && v@[k as int] == c && last_index_of(
                v@.subrange(lo as int, hi as int),
                c,
            ) == Some(k - lo),
            None => last_index_of(v@.subrange(lo as int, hi as int), c) == None::<int>,
        },
{
    let ghost s = v@.subrange(lo as int, hi as int);
    let mut k = hi;
    while k > lo
        invariant
            lo <= k <= hi <= v@.len(),
            s == v@.subrange(lo as int, hi as int),
            forall|i: int| k <= i < hi ==> #[trigger] v@[i] != c,
        decreases k - lo,
    {
        if v[k - 1] == c {
            proof {
                assert forall|i: int| k - 1 - lo < i < s.len() implies #[trigger] s[i] != c by {
                    assert(s[i] == v@[lo + i]);
                }
                assert(s[k - 1 - lo] == v@[k - 1]);
                lemma_last_index_of(s, c, k - 1 - lo);
            }
            return Some(k - 1);
        }
        k = k - 1;
    }
    proof {
        assert forall|i: int| -1 < i < s.len() implies #[trigger] s[i] != c by {
            assert(s[i] == v@[lo + i]);
        }
        lemma_last_index_of(s, c, -1);
    }
    None
}


/// The characters `v[lo..hi]` of `s` as a string of its own.
pub fn slice_string(s: &str, v: &Vec<char>, lo: usize, hi: usize) -> (r: String)
    requires
        v@ == s@,
        lo <= hi <= v@.len(),
    ensures
        r@ == v@.subrange(lo as int, hi as int),
{
    let piece = s.substring_char(lo, hi);
    String::from_str(piece)
}


/// What `str::to_lowercase` gives for a text: each character replaced by its
/// lower-case mapping under the Unicode `Lowercase` property.
pub uninterp spec fn lowercase(s: Seq<char>) -> Seq<char>;

/// `str::to_lowercase`.
#[verifier::external_body]
fn to_lower(s: &str) -> (r: String)
    ensures
        r@ == lowercase(s@),
{
    s.to_lowercase()
}

/// `s` without leading and trailing white space, as a string of its own.
pub fn trimmed(s: &str) -> (r: String)
    ensures
        r@ == trim(s@),
{
    let v = chars_of(s);
    let (a, b) = trim_range(&v, 0, v.len());
    proof {
        assert(v@.subrange(0, v@.len() as int) =~= v@);
    }
    slice_string(s, &v, a, b)
}

/// An answer agrees to go on: lower-cased once trimmed, it begins with `y`.
pub open spec fn agrees(answer: Seq<char>) -> bool {
    begins_with_y(lowercase(trim(answer)))
}

/// `s` begins with `y`.
pub open spec fn begins_with_y(s: Seq<char>) -> bool {
    s.len() > 0 && s[0] == 'y'
}

/// Whether a lower-cased answer begins with `y`.
pub fn starts_with_y(lowered: &str) -> (b: bool)
    ensures
        b == begins_with_y(lowered@),
{
    let v = chars_of(lowered);
    v.len() > 0 && v[0] == 'y'
}

/// Whether `answer` agrees to go on (`input.trim().to_lowercase().starts_with('y')`).
pub fn answer_agrees(answer: &str) -> (b: bool)
    ensures
        b == agrees(answer@),
{
    let t = trimmed(answer);
    let lowered = to_lower(t.as_str());
    starts_with_y(lowered.as_str())
}


/// The lines of `s` (`str::lines`), each as a string of its own.
pub fn lines_of(s: &str) -> (r: Vec<String>)
    ensures
        views(r@) == lines(s@),
{
    let v = chars_of(s);
    let ranges = line_ranges(&v);
    let ghost ls = lines(v@);
    let mut r: Vec<String> = Vec::new();
    proof {
        assert(ls.take(0) =~= Seq::<Seq<char>>::empty());
        assert(views(r@) =~= Seq::<Seq<char>>::empty());
    }
    for k in 0..ranges.len()
        invariant
            v@ == s@,
            ls == lines(v@),
            ranges@.map_values(|p: (usize, usize)| v@.subrange(p.0 as int, p.1 as int)) == ls,
            forall|j: int|
                0 <= j < ranges@.len() ==> (#[trigger] ranges@[j]).0 <= ranges@[j].1 && ranges@[j].1
                    <= v@.len(),
            views(r@) == ls.take(k as int),
    {
        let (a, b) = ranges[k];
        proof {
            assert(ranges@[k as int] == (a, b));
            assert(ls[k as int] == v@.subrange(a as int, b as int));
        }
        let ghost before = views(r@);
        r.push(slice_string(s, &v, a, b));
        proof {
            assert(views(r@) =~= before.push(ls[k as int]));
            assert(ls.take(k + 1) =~= ls.take(k as int).push(ls[k as int]));
        }
    }
    proof {
        assert(ls.take(ranges@.len() as int) =~= ls);
    }
    r
}


/// The decimal digit for `d`.
pub open spec fn digit_char(d: nat) -> char {
    if d == 0 {
        '0'
    } else if d == 1 {
        '1'
    } else if d == 2 {
        '2'
    } else if d == 3 {
        '3'
    } else if d == 4 {
        '4'
    } else if d == 5 {
        '5'
    } else if d == 6 {
        '6'
    } else if d == 7 {
        '7'
    } else if d == 8 {
        '8'
    } else {
        '9'
    }
}

/// `n` written in decimal, as `Display` writes an integer.
pub open spec fn decimal(n: nat) -> Seq<char>
    decreases n,
{
    if n < 10 {
        seq![digit_char(n)]
    } else {
        decimal(n / 10).push(digit_char(n % 10))
    }
}

fn digit_str(d: usize) -> (s: &'static str)
    requires
        d < 10,
    ensures
        s@ == seq![digit_char(d as nat)],
{
    proof {
        reveal_strlit("0");
        reveal_strlit("1");
        reveal_strlit("2");
        reveal_strlit("3");
        reveal_strlit("4");
        reveal_strlit("5");
        reveal_strlit("6");
        reveal_strlit("7");
        reveal_strlit("8");
        reveal_strlit("9");
    }
    let s = if d == 0 {
        "0"
    } else if d == 1 {
        "1"
    } else if d == 2 {
        "2"
    } else if d == 3 {
        "3"
    } else if d == 4 {
        "4"
    } else if d == 5 {
        "5"
    } else if d == 6 {
        "6"
    } else if d == 7 {
        "7"
    } else if d == 8 {
        "8"
    } else {
        "9"
    };
    assert(s@ =~= seq![digit_char(d as nat)]);
    s
}

/// `n` written in decimal.
pub fn decimal_string(n: usize) -> (r: String)
    ensures
        r@ == decimal(n as nat),
    decreases n,
{
    if n < 10 {
        String::from_str(digit_str(n))
    } else {
        let mut r = decimal_string(n / 10);
        r.append(digit_str(n % 10));
        proof {
            assert(r@ =~= decimal((n / 10) as nat).push(digit_char((n % 10) as nat)));
        }
        r
    }
}


/// `s` with every occurrence of `p` removed, scanning from the left and taking
/// occurrences that do not overlap (`str::replace(p, "")`).
pub open spec fn remove_all(s: Seq<char>, p: Seq<char>) -> Seq<char>
    decreases s.len(),
{
    if p.len() == 0 || s.len() == 0 {
        s
    } else if has_prefix(s, p) {
        remove_all(s.skip(p.len() as int), p)
    } else {
        seq![s[0]] + remove_all(s.drop_first(), p)
    }
}

/// `s` with every occurrence of `p` removed (`str::replace(p, "")`).
pub fn remove_all_of(s: &str, p: &str) -> (r: String)
    ensures
        r@ == remove_all(s@, p@),
{
    let v = chars_of(s);
    let pv = chars_of(p);
    if pv.len() == 0 {
        return String::from_str(s);
    }
    let n = v.len();
    let mut r = String::new();
    let mut start: usize = 0;
    let mut i: usize = 0;
    proof {
        assert(v@.skip(0) =~= v@);
    }
    while i < n
        invariant
            n == v@.len(),
            v@ == s@,
            pv@ == p@,
            pv@.len() > 0,
            start <= i <= n,
            r@ + v@.subrange(start as int, i as int) + remove_all(v@.skip(i as int), p@)
                == remove_all(s@, p@),
        decreases n - i,
    {
        let ghost rest = v@.skip(i as int);
        if matches_at(&v, i, &pv) {
            let piece = slice_string(s, &v, start, i);
            r.append(piece.as_str());
            proof {
                assert(rest.take(pv@.len() as int) =~= v@.subrange(i as int, i + pv@.len()));
                assert(rest.skip(pv@.len() as int) =~= v@.skip(i + pv@.len()));
                assert(v@.subrange((i + pv@.len()) as int, (i + pv@.len()) as int)
                    =~= Seq::<char>::empty());
            }
            i = i + pv.len();
            start = i;
        } else {
            proof {
                if pv@.len() <= rest.len() {
                    assert(rest.take(pv@.len() as int) =~= v@.subrange(i as int, i + pv@.len()));
                }
                assert(rest.drop_first() =~= v@.skip(i + 1));
                assert(v@.subrange(start as int, i + 1) =~= v@.subrange(start as int, i as int)
                    + seq![rest[0]]);
            }
            i = i + 1;
        }
    }
    let tail = slice_string(s, &v, start, n);
    r.append(tail.as_str());
    proof {
        assert(v@.skip(n as int) =~= Seq::<char>::empty());
    }
    r
}

/// Whether `p` occurs in `s` (`str::contains`).
pub fn contains_str(s: &str, p: &str) -> (b: bool)
    ensures
        b == contains(s@, p@),
{
    let v = chars_of(s);
    let pv = chars_of(p);
    let r = contains_in(&v, 0, v.len(), &pv);
    proof {
        assert(v@.subrange(0, v@.len() as int) =~= v@);
    }
    r
}


/// No proper, non-empty suffix of `p` is also a prefix of it, so two
/// occurrences of `p` in a text never overlap.
pub open spec fn border_free(p: Seq<char>) -> bool {
    forall|d: int| 0 < d < p.len() ==> !has_prefix(p, #[trigger] p.skip(d))
}

/// From index `i` on, `c` occurs in `p` at most at index `q`.
pub open spec fn only_at(p: Seq<char>, c: char, q: int, i: int) -> bool
    decreases p.len() - i,
{
    if i < 0 || i >= p.len() {
        true
    } else {
        (i == q || p[i] != c) && only_at(p, c, q, i + 1)
    }
}

proof fn lemma_only_at(p: Seq<char>, c: char, q: int, i: int)
    requires
        0 <= i,
        only_at(p, c, q, i),
    ensures
        forall|k: int| i <= k < p.len() && k != q ==> p[k] != c,
    decreases p.len() - i,
{
    if i < p.len() {
        lemma_only_at(p, c, q, i + 1);
    }
}

/// A text whose first character occurs again only at `q`, and whose second
/// character differs from the one after `q`, is border free.
pub proof fn lemma_border_free_by_first(p: Seq<char>, q: int)
    requires
        0 < q,
        q + 1 < p.len(),
        only_at(p, p[0], q, 1),
        p[q + 1] != p[1],
    ensures
        border_free(p),
{
    lemma_only_at(p, p[0], q, 1);
    assert forall|d: int| 0 < d < p.len() implies !has_prefix(p, #[trigger] p.skip(d)) by {
        if has_prefix(p, p.skip(d)) {
            assert(p.take(p.len() - d)[0] == p.skip(d)[0]);
            if d == q {
                assert(p.take(p.len() - d)[1] == p.skip(d)[1]);
            }
        }
    }
}

/// Where `p` starts at no index of `f` in `f + q`, removing `p` from `f + q`
/// keeps `f` whole.
pub proof fn lemma_remove_all_keeps_head(f: Seq<char>, q: Seq<char>, p: Seq<char>)
    requires
        p.len() > 0,
        forall|i: int| 0 <= i < f.len() ==> !has_prefix(#[trigger] (f + q).skip(i), p),
    ensures
        remove_all(f + q, p) == f + remove_all(q, p),
    decreases f.len(),
{
    let s = f + q;
    if f.len() == 0 {
        assert(s =~= q);
        assert(f + remove_all(q, p) =~= remove_all(q, p));
    } else {
        assert(s.skip(0) =~= s);
        let g = f.drop_first();
        assert(s.drop_first() =~= g + q);
        assert forall|i: int| 0 <= i < g.len() implies !has_prefix(#[trigger] (g + q).skip(i), p) by {
            assert((g + q).skip(i) =~= s.skip(i + 1));
        }
        lemma_remove_all_keeps_head(g, q, p);
        assert(f + remove_all(q, p) =~= seq![f[0]] + (g + remove_all(q, p)));
    }
}

/// A border-free `p` appended to a text `f` that does not hold it starts at no
/// index of `f`.
pub proof fn lemma_no_straddle(f: Seq<char>, p: Seq<char>, t: Seq<char>)
    requires
        p.len() > 0,
        border_free(p),
        !contains(f, p),
    ensures
        forall|i: int| 0 <= i < f.len() ==> !has_prefix(#[trigger] (f + (p + t)).skip(i), p),
{
    let s = f + (p + t);
    assert forall|i: int| 0 <= i < f.len() implies !has_prefix(#[trigger] (f + (p + t)).skip(i), p) by {
        if has_prefix(s.skip(i), p) {
            assert forall|k: int| 0 <= k < p.len() implies p[k] == s[i + k] by {
                assert(s.skip(i).take(p.len() as int)[k] == p[k]);
            }
            if i + p.len() <= f.len() {
                assert(f.subrange(i, i + p.len()) =~= p);
                assert(occurs_at(f, p, i));
            } else {
                let d = f.len() - i;
                assert(0 < d < p.len());
                assert forall|j: int| 0 <= j < p.len() - d implies p.take(p.len() - d)[j] == p.skip(d)[j] by {
                    assert(p[d + j] == s[i + d + j]);
                    assert(s[i + d + j] == p[j]);
                }
                assert(p.take(p.len() - d) =~= p.skip(d));
                assert(has_prefix(p, p.skip(d)));
            }
        }
    }
}

/// `p` followed by `t` holds `p`.
pub proof fn lemma_contains_appended(f: Seq<char>, p: Seq<char>, t: Seq<char>)
    ensures
        contains(f + p + t, p),
{
    let s = f + p + t;
    assert(s.subrange(f.len() as int, (f.len() + p.len()) as int) =~= p);
    assert(occurs_at(s, p, f.len() as int));
}

/// Removing a border-free `p` from a text `f` that does not hold it, followed
/// by `p` and a line feed, leaves `f` and the line feed.
pub proof fn lemma_remove_appended_line(f: Seq<char>, p: Seq<char>)
    requires
        p.len() > 1,
        border_free(p),
        !contains(f, p),
    ensures
        remove_all(f + p + seq!['\n'], p) == f + seq!['\n'],
{
    let t = seq!['\n'];
    lemma_no_straddle(f, p, t);
    lemma_remove_all_keeps_head(f, p + t, p);
    assert(f + p + t =~= f + (p + t));
    let q = p + t;
    assert(q.take(p.len() as int) =~= p);
    assert(q.skip(p.len() as int) =~= t);
    assert(t.drop_first() =~= Seq::<char>::empty());
    assert(remove_all(t, p) =~= seq!['\n'] + remove_all(t.drop_first(), p));
    assert(remove_all(q, p) =~= t);
}

/// Removing a text that does not occur leaves the text whole.
pub proof fn lemma_remove_all_absent(f: Seq<char>, p: Seq<char>)
    requires
        p.len() > 0,
        !contains(f, p),
    ensures
        remove_all(f, p) == f,
    decreases f.len(),
{
    if f.len() > 0 {
        if has_prefix(f, p) {
            assert(f.subrange(0, p.len() as int) =~= f.take(p.len() as int));
            assert(occurs_at(f, p, 0));
        }
        let g = f.drop_first();
        if contains(g, p) {
            let i = choose|i: int| occurs_at(g, p, i);
            assert(f.subrange(i + 1, i + 1 + p.len()) =~= g.subrange(i, i + p.len()));
            assert(occurs_at(f, p, i + 1));
        }
        lemma_remove_all_absent(g, p);
        assert(seq![f[0]] + g =~= f);
    }
}

} // verus!
