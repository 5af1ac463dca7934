//! The raw record: field names mapped to raw field values, parsed from
//! newline-delimited `KEY=VALUE` text.

use vstd::prelude::*;

use crate::text::{
    find_char, first_index_of, lemma_first_index_of_unique, split_lines, split_lines_vec, str_eq,
    trim, trim_str, views_of,
};

verus! {

/// A parsed record: raw field names mapped to raw field values. When a key is
/// recorded twice, the last occurrence wins.
pub struct RawRecord {
    entries: Vec<(String, String)>,
}

/// The mapping described by a sequence of key/value pairs, a later pair
/// overriding an earlier one with the same key.
spec fn entries_map(es: Seq<(String, String)>) -> Map<Seq<char>, Seq<char>>
    decreases es.len(),
{
    if es.len() == 0 {
        Map::empty()
    } else {
        entries_map(es.subrange(0, es.len() - 1)).insert(
            es[es.len() - 1].0@,
            es[es.len() - 1].1@,
        )
    }
}

impl View for RawRecord {
    type V = Map<Seq<char>, Seq<char>>;

    closed spec fn view(&self) -> Map<Seq<char>, Seq<char>> {
        entries_map(self.entries@)
    }
}

proof fn lemma_entries_map_found(es: Seq<(String, String)>, k: Seq<char>, j: int)
    requires
        0 <= j < es.len(),
        es[j].0@ == k,
        forall|l: int| j < l < es.len() ==> es[l].0@ != k,
    ensures
        entries_map(es).contains_key(k),
        entries_map(es)[k] == es[j].1@,
    decreases es.len(),
{
    if j < es.len() - 1 {
        let t = es.subrange(0, es.len() - 1);
        lemma_entries_map_found(t, k, j);
    }
}

proof fn lemma_entries_map_absent(es: Seq<(String, String)>, k: Seq<char>)
    requires
        forall|l: int| 0 <= l < es.len() ==> es[l].0@ != k,
    ensures
        !entries_map(es).contains_key(k),
    decreases es.len(),
{
    if es.len() > 0 {
        lemma_entries_map_absent(es.subrange(0, es.len() - 1), k);
    }
}

impl RawRecord {
    /// An empty record.
    pub fn new() -> (r: RawRecord)
        ensures
            r@ == Map::<Seq<char>, Seq<char>>::empty(),
    {
        RawRecord { entries: Vec::new() }
    }

    /// Records a value for a key, replacing any earlier value.
    pub fn insert(&mut self, key: String, value: String)
        ensures
            final(self)@ == old(self)@.insert(key@, value@),
    {
        self.entries.push((key, value));
        proof {
            assert(self.entries@.subrange(0, self.entries@.len() - 1) =~= old(self).entries@);
        }
    }

    /// The raw value recorded for `key`, when one is present.
    pub fn get<'a>(&'a self, key: &str) -> (r: Option<&'a String>)
        ensures
            match r {
                Some(v) => self@.contains_key(key@) && v@ == self@[key@],
                None => !self@.contains_key(key@),
            },
    {
        let n: usize = self.entries.len();
        let mut i: usize = n;
        while i > 0
            invariant
                0 <= i <= n,
                n == self.entries@.len(),
                forall|l: int| i <= l < n ==> self.entries@[l].0@ != key@,
            decreases i,
        {
            i = i - 1;
            if str_eq(self.entries[i].0.as_str(), key) {
                proof {
                    lemma_entries_map_found(self.entries@, key@, i as int);
                }
                return Some(&self.entries[i].1);
            }
        }
        proof {
            lemma_entries_map_absent(self.entries@, key@);
        }
        None
    }
}

/// Whether a line holds a `=` separator.
pub open spec fn line_has_separator(l: Seq<char>) -> bool {
    first_index_of(l, '=') < l.len()
}

/// The key of a line: the text before the first `=`, trimmed.
pub open spec fn line_key(l: Seq<char>) -> Seq<char> {
    trim(l.subrange(0, first_index_of(l, '=')))
}

/// The value of a line: the text after the first `=`, trimmed.
pub open spec fn line_value(l: Seq<char>) -> Seq<char> {
    trim(l.subrange(first_index_of(l, '=') + 1, l.len() as int))
}

/// One line applied to a record: a line with a separator binds its key to its
/// value; a line without one changes nothing.
pub open spec fn apply_line(
    m: Map<Seq<char>, Seq<char>>,
    l: Seq<char>,
) -> Map<Seq<char>, Seq<char>> {
    if line_has_separator(l) {
        m.insert(line_key(l), line_value(l))
    } else {
        m
    }
}

/// The record described by a sequence of lines, applied first to last.
pub open spec fn lines_to_map(ls: Seq<Seq<char>>) -> Map<Seq<char>, Seq<char>>
    decreases ls.len(),
{
    if ls.len() == 0 {
        Map::<Seq<char>, Seq<char>>::empty()
    } else {
        apply_line(lines_to_map(ls.subrange(0, ls.len() - 1)), ls[ls.len() - 1])
    }
}

/// The record described by a whole text: its lines, applied in order.
pub open spec fn record_of(t: Seq<char>) -> Map<Seq<char>, Seq<char>> {
    lines_to_map(split_lines(t))
}

proof fn lemma_lines_to_map_step(ls: Seq<Seq<char>>, j: int)
    requires
        0 <= j < ls.len(),
    ensures
        lines_to_map(ls.subrange(0, j + 1)) == apply_line(lines_to_map(ls.subrange(0, j)), ls[j]),
{
    assert(ls.subrange(0, j + 1).subrange(0, j) =~= ls.subrange(0, j));
}

/// A line without a `=` separator never disturbs the record: the lines around
/// it describe the same mapping as if the line were absent, so nothing it
/// holds overwrites a field, and later lines apply as usual.
pub proof fn lemma_malformed_line_ignored(pre: Seq<Seq<char>>, line: Seq<char>, post: Seq<
    Seq<char>,
>)
    requires
        forall|j: int| 0 <= j < line.len() ==> line[j] != '=',
    ensures
        lines_to_map(pre + seq![line] + post) == lines_to_map(pre + post),
    decreases post.len(),
{
    lemma_first_index_of_unique(line, '=', line.len() as int);
    if post.len() == 0 {
        let a = pre + seq![line] + post;
        assert(a.subrange(0, a.len() - 1) =~= pre);
        assert(a[a.len() - 1] == line);
        assert(pre + post =~= pre);
    } else {
        let rest = post.subrange(0, post.len() - 1);
        lemma_malformed_line_ignored(pre, line, rest);
        let a = pre + seq![line] + post;
        let b = pre + post;
        assert(a.subrange(0, a.len() - 1) =~= pre + seq![line] + rest);
        assert(b.subrange(0, b.len() - 1) =~= pre + rest);
        assert(a[a.len() - 1] == post[post.len() - 1]);
        assert(b[b.len() - 1] == post[post.len() - 1]);
    }
}

/// Parses a whole text into a record: one binding per line that holds a `=`
/// separator, the key being the trimmed text before the first `=` and the
/// value the trimmed text after it, with the last occurrence of a key
/// winning. A line without a separator is skipped.
pub fn parse_record(text: &str) -> (r: RawRecord)
    ensures
        r@ == record_of(text@),
{
    let lines = split_lines_vec(text);
    let mut rec = RawRecord::new();
    let n: usize = lines.len();
    let mut j: usize = 0;
    proof {
        assert(split_lines(text@).subrange(0, 0) =~= Seq::<Seq<char>>::empty());
    }
    while j < n
        invariant
            0 <= j <= n,
            n == lines@.len(),
            views_of(lines@) == split_lines(text@),
            rec@ == lines_to_map(split_lines(text@).subrange(0, j as int)),
        decreases n - j,
    {
        let line: &str = lines[j].as_str();
        let ghost lv = line@;
        let llen: usize = line.unicode_len();
        let p: usize = find_char(line, '=', 0);
        proof {
            lemma_first_index_of_unique(lv, '=', p as int);
            lemma_lines_to_map_step(split_lines(text@), j as int);
            assert(split_lines(text@)[j as int] == lv);
        }
        if p < llen {
            let key: String = trim_str(line.substring_char(0, p)).to_owned();
            let value: String = trim_str(line.substring_char(p + 1, llen)).to_owned();
            rec.insert(key, value);
        }
        j = j + 1;
    }
    proof {
        assert(split_lines(text@).subrange(0, n as int) =~= split_lines(text@));
    }
    rec
}

} // verus!
