//! Character-level text helpers: searching, trimming and line splitting.

use vstd::prelude::*;

verus! {

/// Whitespace recognized when trimming a key or a value: the ASCII
/// whitespace characters.
pub open spec fn is_space(c: char) -> bool {
    c == ' ' || c == '\t' || c == '\n' || c == '\r' || c == '\x0c'
}

/// Whether `c` is trimmed as whitespace.
pub fn is_space_char(c: char) -> (r: bool)
    ensures
        r == is_space(c),
{
    c == ' ' || c == '\t' || c == '\n' || c == '\r' || c == '\x0c'
}

/// Index of the first occurrence of `c` in `s`, or `s.len()` when `c` is
/// absent.
pub open spec fn first_index_of(s: Seq<char>, c: char) -> int
    decreases s.len(),
{
    if s.len() == 0 {
        0
    } else if s[0] == c {
        0
    } else {
        1 + first_index_of(s.subrange(1, s.len() as int), c)
    }
}

/// `first_index_of` is in bounds, lands on `c` when `c` occurs, and nothing
/// before it is `c`.
pub proof fn lemma_first_index_of(s: Seq<char>, c: char)
    ensures
        0 <= first_index_of(s, c) <= s.len(),
        first_index_of(s, c) < s.len() ==> s[first_index_of(s, c)] == c,
        forall|j: int| 0 <= j < first_index_of(s, c) ==> s[j] != c,
    decreases s.len(),
{
    if s.len() == 0 {
    } else if s[0] == c {
    } else {
        let t = s.subrange(1, s.len() as int);
        lemma_first_index_of(t, c);
        assert forall|j: int| 0 <= j < first_index_of(s, c) implies s[j] != c by {
            if j > 0 {
                assert(s[j] == t[j - 1]);
            }
        }
    }
}

/// Any position that holds `c` (or the end, when `c` never occurs) with no
/// `c` before it is exactly `first_index_of`.
pub proof fn lemma_first_index_of_unique(s: Seq<char>, c: char, r: int)
    requires
        0 <= r <= s.len(),
        r < s.len() ==> s[r] == c,
        forall|j: int| 0 <= j < r ==> s[j] != c,
    ensures
        first_index_of(s, c) == r,
{
    lemma_first_index_of(s, c);
    let f = first_index_of(s, c);
    if f < r {
        assert(s[f] == c);
        assert(s[f] != c);
    }
    if r < f {
        assert(s[r] != c);
    }
}

/// First position at or after `from` where `c` occurs in `s`, or `s@.len()`
/// when there is none.
pub fn find_char(s: &str, c: char, from: usize) -> (r: usize)
    requires
        from <= s@.len(),
    ensures
        from <= r <= s@.len(),
        r < s@.len() ==> s@[r as int] == c,
        forall|j: int| from <= j < r ==> s@[j] != c,
{
    let n: usize = s.unicode_len();
    let mut i: usize = from;
    while i < n
        invariant
            from <= i <= n,
            n == s@.len(),
            forall|j: int| from <= j < i ==> s@[j] != c,
        decreases n - i,
    {
        if s.get_char(i) == c {
            return i;
        }
        i = i + 1;
    }
    i
}

/// Whether two strings hold the same characters.
pub fn str_eq(a: &str, b: &str) -> (r: bool)
    ensures
        r == (a@ == b@),
{
    let n: usize = a.unicode_len();
    if n != b.unicode_len() {
        return false;
    }
    let mut i: usize = 0;
    while i < n
        invariant
            0 <= i <= n,
            n == a@.len(),
            n == b@.len(),
            forall|j: int| 0 <= j < i ==> a@[j] == b@[j],
        decreases n - i,
    {
        if a.get_char(i) != b.get_char(i) {
            return false;
        }
        i = i + 1;
    }
    proof {
        assert(a@ =~= b@);
    }
    true
}

/// `s` without leading whitespace.
pub open spec fn trim_start(s: Seq<char>) -> Seq<char>
    decreases s.len(),
{
    if s.len() > 0 && is_space(s[0]) {
        trim_start(s.subrange(1, s.len() as int))
    } else {
        s
    }
}

/// `s` without trailing whitespace.
pub open spec fn trim_end(s: Seq<char>) -> Seq<char>
    decreases s.len(),
{
    if s.len() > 0 && is_space(s[s.len() - 1]) {
        trim_end(s.subrange(0, s.len() - 1))
    } else {
        s
    }
}

/// `s` without surrounding whitespace.
pub open spec fn trim(s: Seq<char>) -> Seq<char> {
    trim_end(trim_start(s))
}

proof fn lemma_trim_start_at(s: Seq<char>, a: int)
    requires
        0 <= a <= s.len(),
        forall|j: int| 0 <= j < a ==> is_space(s[j]),
        a < s.len() ==> !is_space(s[a]),
    ensures
        trim_start(s) == s.subrange(a, s.len() as int),
    decreases a,
{
    if a == 0 {
        assert(s.subrange(0, s.len() as int) =~= s);
    } else {
        assert(is_space(s[0]));
        let t = s.subrange(1, s.len() as int);
        assert(forall|j: int| 0 <= j < a - 1 ==> t[j] == s[j + 1]);
        lemma_trim_start_at(t, a - 1);
        assert(t.subrange(a - 1, t.len() as int) =~= s.subrange(a, s.len() as int));
    }
}

proof fn lemma_trim_end_at(s: Seq<char>, b: int)
    requires
        0 <= b <= s.len(),
        forall|j: int| b <= j < s.len() ==> is_space(s[j]),
        b > 0 ==> !is_space(s[b - 1]),
    ensures
        trim_end(s) == s.subrange(0, b),
    decreases s.len(),
{
    if b == s.len() {
        assert(s.subrange(0, b) =~= s);
    } else {
        assert(is_space(s[s.len() - 1]));
        let t = s.subrange(0, s.len() - 1);
        assert(forall|j: int| b <= j < t.len() ==> t[j] == s[j]);
        lemma_trim_end_at(t, b);
        assert(t.subrange(0, b) =~= s.subrange(0, b));
    }
}

/// `s` with surrounding whitespace removed.
pub fn trim_str<'a>(s: &'a str) -> (r: &'a str)
    ensures
        r@ == trim(s@),
{
    let n: usize = s.unicode_len();
    let mut a: usize = 0;
    while a < n && is_space_char(s.get_char(a))
        invariant
            0 <= a <= n,
            n == s@.len(),
            forall|j: int| 0 <= j < a ==> is_space(s@[j]),
        decreases n - a,
    {
        a = a + 1;
    }
    let mut b: usize = n;
    while b > a && is_space_char(s.get_char(b - 1))
        invariant
            a <= b <= n,
            n == s@.len(),
            forall|j: int| b <= j < n ==> is_space(s@[j]),
        decreases b,
    {
        b = b - 1;
    }
    proof {
        lemma_trim_start_at(s@, a as int);
        let t = s@.subrange(a as int, n as int);
        assert(forall|j: int| b - a <= j < t.len() ==> t[j] == s@[j + a]);
        lemma_trim_end_at(t, b - a);
        assert(t.subrange(0, b - a) =~= s@.subrange(a as int, b as int));
    }
    s.substring_char(a, b)
}

/// The segments of `t` between newline characters, in order. A final segment
/// always exists, so the empty text has one empty line.
pub open spec fn split_lines(t: Seq<char>) -> Seq<Seq<char>>
    decreases t.len(),
{
    let p = first_index_of(t, '\n');
    if 0 <= p < t.len() {
        seq![t.subrange(0, p)] + split_lines(t.subrange(p + 1, t.len() as int))
    } else {
        seq![t]
    }
}

/// Splitting off the first line: when the first newline of `t` is at `p`, the
/// lines of `t` are the text before `p` followed by the lines after `p`.
pub proof fn lemma_split_lines_step(t: Seq<char>, p: int)
    requires
        0 <= p < t.len(),
        t[p] == '\n',
        forall|j: int| 0 <= j < p ==> t[j] != '\n',
    ensures
        split_lines(t) == seq![t.subrange(0, p)] + split_lines(t.subrange(p + 1, t.len() as int)),
{
    lemma_first_index_of_unique(t, '\n', p);
}

/// A text without a newline is a single line.
pub proof fn lemma_split_lines_whole(t: Seq<char>)
    requires
        forall|j: int| 0 <= j < t.len() ==> t[j] != '\n',
    ensures
        split_lines(t) == seq![t],
{
    lemma_first_index_of_unique(t, '\n', t.len() as int);
}

/// The views of a sequence of owned strings.
pub open spec fn views_of(ls: Seq<String>) -> Seq<Seq<char>> {
    ls.map_values(|l: String| l@)
}

/// The lines of `text`, split on the newline character.
pub fn split_lines_vec(text: &str) -> (lines: Vec<String>)
    ensures
        views_of(lines@) == split_lines(text@),
{
    let n: usize = text.unicode_len();
    let mut lines: Vec<String> = Vec::new();
    let mut pos: usize = 0;
    proof {
        assert(text@.subrange(0, n as int) =~= text@);
        assert(views_of(lines@) + split_lines(text@) =~= split_lines(text@));
    }
    loop
        invariant_except_break
            0 <= pos <= n,
            n == text@.len(),
            split_lines(text@) =~~= views_of(lines@) + split_lines(
                text@.subrange(pos as int, n as int),
            ),
        ensures
            views_of(lines@) == split_lines(text@),
        decreases n - pos,
    {
        let ghost pre = lines@;
        let p: usize = find_char(text, '\n', pos);
        let seg: &str = text.substring_char(pos, p);
        lines.push(seg.to_owned());
        proof {
            let t = text@;
            let suf = t.subrange(pos as int, n as int);
            assert(seg@ =~= suf.subrange(0, p - pos));
            assert forall|j: int| 0 <= j < p - pos implies suf[j] != '\n' by {
                assert(suf[j] == t[pos + j]);
            }
            assert(views_of(lines@) =~= views_of(pre).push(seg@));
            if p < n {
                assert(suf[p - pos] == '\n');
                lemma_split_lines_step(suf, p - pos);
                assert(suf.subrange(p - pos + 1, suf.len() as int) =~= t.subrange(
                    p + 1,
                    n as int,
                ));
                assert(split_lines(t) =~~= views_of(lines@) + split_lines(
                    t.subrange(p + 1, n as int),
                ));
            } else {
                lemma_split_lines_whole(suf);
                assert(seg@ =~= suf);
                assert(split_lines(t) =~~= views_of(lines@));
            }
        }
        if p == n {
            break;
        }
        pos = p + 1;
    }
    lines
}

} // verus!
