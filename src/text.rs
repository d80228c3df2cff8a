//! Character-level scanning of protocol lines.
use vstd::prelude::*;

verus! {

/// The blank characters that separate fields on a control line.
pub open spec fn is_space(c: char) -> bool {
    c == ' ' || c == '\t' || c == '\r' || c == '\n'
}

/// The blank-separated words of `s[start..]`, scanning from `i`.
pub open spec fn words_from(s: Seq<char>, i: int, start: int) -> Seq<Seq<char>>
    decreases s.len() - i,
{
    if i >= s.len() {
        if start < s.len() {
            seq![s.subrange(start, s.len() as int)]
        } else {
            seq![]
        }
    } else if is_space(s[i]) {
        let head: Seq<Seq<char>> = if start < i {
            seq![s.subrange(start, i)]
        } else {
            seq![]
        };
        head + words_from(s, i + 1, i + 1)
    } else {
        words_from(s, i + 1, start)
    }
}

/// The blank-separated words of `s`, in order, none of them empty.
pub open spec fn words(s: Seq<char>) -> Seq<Seq<char>> {
    words_from(s, 0, 0)
}

/// The pieces of `s[start..]` between occurrences of `sep`, scanning from `i`.
pub open spec fn split_from(s: Seq<char>, sep: char, i: int, start: int) -> Seq<Seq<char>>
    decreases s.len() - i,
{
    if i >= s.len() {
        seq![s.subrange(start, s.len() as int)]
    } else if s[i] == sep {
        seq![s.subrange(start, i)] + split_from(s, sep, i + 1, i + 1)
    } else {
        split_from(s, sep, i + 1, start)
    }
}

/// The pieces of `s` between occurrences of `sep` (empty pieces kept).
pub open spec fn split_on(s: Seq<char>, sep: char) -> Seq<Seq<char>> {
    split_from(s, sep, 0, 0)
}

/// `p` occurs in `s` at position `i`.
pub open spec fn occurs_at(s: Seq<char>, p: Seq<char>, i: int) -> bool {
    0 <= i && i + p.len() <= s.len() && s.subrange(i, i + p.len()) == p
}

pub open spec fn has_prefix(s: Seq<char>, p: Seq<char>) -> bool {
    occurs_at(s, p, 0)
}

pub open spec fn contains(s: Seq<char>, p: Seq<char>) -> bool {
    exists|i: int| occurs_at(s, p, i)
}

/// First position at or after `i` where `c` occurs, or the length.
pub open spec fn find_from(s: Seq<char>, c: char, i: int) -> int
    decreases s.len() - i,
{
    if i >= s.len() {
        s.len() as int
    } else if s[i] == c {
        i
    } else {
        find_from(s, c, i + 1)
    }
}

pub open spec fn views(v: Seq<String>) -> Seq<Seq<char>> {
    v.map_values(|w: String| w@)
}

/// The characters of `s` from `from` to `to`, as an owned string.
pub fn slice_string(s: &str, from: usize, to: usize) -> (r: String)
    requires
        from <= to <= s@.len(),
    ensures
        r@ == s@.subrange(from as int, to as int),
{
    s.substring_char(from, to).to_owned()
}

/// Whether `p` occurs in `s` at character position `at`.
pub fn occurs_at_exec(s: &str, p: &str, at: usize) -> (r: bool)
    ensures
        r == occurs_at(s@, p@, at as int),
{
    let n = s.unicode_len();
    let m = p.unicode_len();
    if at > n || m > n - at {
        return false;
    }
    let mut k: usize = 0;
    while k < m
        invariant
            at + m <= n,
            n == s@.len(),
            m == p@.len(),
            k <= m,
            forall|j: int| 0 <= j < k ==> s@[at + j] == p@[j],
        decreases m - k,
    {
        if s.get_char(at + k) != p.get_char(k) {
            assert(s@.subrange(at as int, at + m)[k as int] != p@[k as int]);
            return false;
        }
        k = k + 1;
    }
    assert(s@.subrange(at as int, at + m) =~= p@);
    true
}

pub fn starts_with(s: &str, p: &str) -> (r: bool)
    ensures
        r == has_prefix(s@, p@),
{
    occurs_at_exec(s, p, 0)
}

pub fn contains_exec(s: &str, p: &str) -> (r: bool)
    ensures
        r == contains(s@, p@),
{
    let n = s.unicode_len();
    if occurs_at_exec(s, p, 0) {
        return true;
    }
    proof {
        if p@.len() == 0 {
            assert(s@.subrange(0, 0) =~= p@);
        }
    }
    let mut i: usize = 1;
    while i < n
        invariant
            n == s@.len(),
            1 <= i,
            forall|j: int| 0 <= j < i ==> !occurs_at(s@, p@, j),
        decreases n - i,
    {
        if occurs_at_exec(s, p, i) {
            return true;
        }
        i = i + 1;
    }
    assert forall|j: int| !occurs_at(s@, p@, j) by {
        if 0 <= j && j >= i {
            assert(j + p@.len() > s@.len());
        }
    }
    false
}

pub fn is_space_exec(c: char) -> (r: bool)
    ensures
        r == is_space(c),
{
    c == ' ' || c == '\t' || c == '\r' || c == '\n'
}

/// The blank-separated words of `s`.
pub fn split_words(s: &str) -> (r: Vec<String>)
    ensures
        views(r@) == words(s@),
{
    let n = s.unicode_len();
    let mut out: Vec<String> = Vec::new();
    let mut i: usize = 0;
    let mut start: usize = 0;
    while i < n
        invariant
            n == s@.len(),
            start <= i <= n,
            views(out@) + words_from(s@, i as int, start as int) == words(s@),
        decreases n - i,
    {
        if is_space_exec(s.get_char(i)) {
            if start < i {
                let w = slice_string(s, start, i);
                proof {
                    assert(views(out@.push(w)) =~= views(out@).push(w@));
                }
                out.push(w);
            }
            assert(views(out@) + words_from(s@, i + 1, i + 1) =~= words(s@));
            start = i + 1;
        }
        i = i + 1;
    }
    if start < n {
        let w = slice_string(s, start, n);
        proof {
            assert(views(out@.push(w)) =~= views(out@).push(w@));
        }
        out.push(w);
    }
    assert(views(out@) =~= words(s@));
    out
}

/// The pieces of `s` between occurrences of `sep`.
pub fn split_by(s: &str, sep: char) -> (r: Vec<String>)
    ensures
        views(r@) == split_on(s@, sep),
{
    let n = s.unicode_len();
    let mut out: Vec<String> = Vec::new();
    let mut i: usize = 0;
    let mut start: usize = 0;
    while i < n
        invariant
            n == s@.len(),
            start <= i <= n,
            views(out@) + split_from(s@, sep, i as int, start as int) == split_on(s@, sep),
        decreases n - i,
    {
        if s.get_char(i) == sep {
            let w = slice_string(s, start, i);
            proof {
                assert(views(out@.push(w)) =~= views(out@).push(w@));
            }
            out.push(w);
            assert(views(out@) + split_from(s@, sep, i + 1, i + 1) =~= split_on(s@, sep));
            start = i + 1;
        }
        i = i + 1;
    }
    let w = slice_string(s, start, n);
    proof {
        assert(views(out@.push(w)) =~= views(out@).push(w@));
    }
    out.push(w);
    assert(views(out@) =~= split_on(s@, sep));
    out
}

/// First character position at or after `i` holding `c`, or the length.
pub fn find_char(s: &str, c: char, i: usize) -> (r: usize)
    requires
        i <= s@.len(),
    ensures
        r as int == find_from(s@, c, i as int),
        i <= r <= s@.len(),
{
    let n = s.unicode_len();
    let mut j: usize = i;
    while j < n && s.get_char(j) != c
        invariant
            n == s@.len(),
            i <= j <= n,
            find_from(s@, c, j as int) == find_from(s@, c, i as int),
        decreases n - j,
    {
        j = j + 1;
    }
    j
}

/// First index at or after `i` that does not hold `c`, or the length.
pub open spec fn skip_char(s: Seq<char>, c: char, i: int) -> int
    decreases s.len() - i,
{
    if i >= s.len() {
        s.len() as int
    } else if s[i] == c {
        skip_char(s, c, i + 1)
    } else {
        i
    }
}

/// Last end position at or before `j`, and not before `lo`, that follows no `c`.
pub open spec fn back_char(s: Seq<char>, c: char, lo: int, j: int) -> int
    decreases j - lo,
{
    if j <= lo {
        lo
    } else if s[j - 1] == c {
        back_char(s, c, lo, j - 1)
    } else {
        j
    }
}

/// `s` without the copies of `c` at its two ends.
pub open spec fn strip_char(s: Seq<char>, c: char) -> Seq<char> {
    let a = skip_char(s, c, 0);
    s.subrange(a, back_char(s, c, a, s.len() as int))
}

/// `s` without the copies of `c` at its two ends.
pub fn strip_char_string(s: &str, c: char) -> (r: String)
    ensures
        r@ == strip_char(s@, c),
{
    let n = s.unicode_len();
    let mut a: usize = 0;
    while a < n && s.get_char(a) == c
        invariant
            n == s@.len(),
            a <= n,
            skip_char(s@, c, a as int) == skip_char(s@, c, 0),
        decreases n - a,
    {
        a = a + 1;
    }
    let mut b: usize = n;
    while b > a && s.get_char(b - 1) == c
        invariant
            n == s@.len(),
            a <= b <= n,
            a == skip_char(s@, c, 0),
            back_char(s@, c, a as int, b as int) == back_char(s@, c, a as int, n as int),
        decreases b,
    {
        b = b - 1;
    }
    slice_string(s, a, b)
}

/// First position at or after `i` where `p` occurs, or `None`.
pub open spec fn first_occurrence(s: Seq<char>, p: Seq<char>, i: int) -> Option<int>
    decreases s.len() + 1 - i,
{
    if i < 0 || i > s.len() {
        None
    } else if occurs_at(s, p, i) {
        Some(i)
    } else {
        first_occurrence(s, p, i + 1)
    }
}

/// First character position where `p` occurs in `s`.
pub fn find_str(s: &str, p: &str) -> (r: Option<usize>)
    ensures
        r matches Some(k) ==> first_occurrence(s@, p@, 0) == Some(k as int),
        r matches Some(k) ==> occurs_at(s@, p@, k as int),
        r is None ==> first_occurrence(s@, p@, 0) is None,
{
    let n = s.unicode_len();
    let mut i: usize = 0;
    while i < n
        invariant
            n == s@.len(),
            i <= n,
            first_occurrence(s@, p@, i as int) == first_occurrence(s@, p@, 0),
        decreases n - i,
    {
        if occurs_at_exec(s, p, i) {
            return Some(i);
        }
        i = i + 1;
    }
    if occurs_at_exec(s, p, n) {
        Some(n)
    } else {
        assert(first_occurrence(s@, p@, n + 1) is None);
        None
    }
}

/// The characters that end a line on the wire.
pub open spec fn is_eol(c: char) -> bool {
    c == '\r' || c == '\n'
}

/// Last end position at or before `j` that follows no line terminator.
pub open spec fn back_eol(s: Seq<char>, j: int) -> int
    decreases j,
{
    if j <= 0 {
        0
    } else if is_eol(s[j - 1]) {
        back_eol(s, j - 1)
    } else {
        j
    }
}

/// `s` without the line terminators at its end.
pub open spec fn strip_eol(s: Seq<char>) -> Seq<char> {
    s.subrange(0, back_eol(s, s.len() as int))
}

/// `s` without the line terminators at its end.
pub fn strip_eol_string(s: &str) -> (r: String)
    ensures
        r@ == strip_eol(s@),
{
    let n = s.unicode_len();
    let mut b: usize = n;
    while b > 0 && (s.get_char(b - 1) == '\r' || s.get_char(b - 1) == '\n')
        invariant
            n == s@.len(),
            b <= n,
            back_eol(s@, b as int) == back_eol(s@, n as int),
        decreases b,
    {
        b = b - 1;
    }
    slice_string(s, 0, b)
}

} // verus!
