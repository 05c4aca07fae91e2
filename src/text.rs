//! Characters, substrings and lines: the mathematical model of a text body and
//! the verified operations on it.

use vstd::prelude::*;

verus! {

broadcast use vstd::string::group_string_axioms;

/// `needle` occurs in `hay` as a contiguous run of characters.
pub open spec fn contains(hay: Seq<char>, needle: Seq<char>) -> bool {
    exists|i: int|
        0 <= i <= hay.len() - needle.len() && #[trigger] hay.subrange(i, i + needle.len())
            == needle
}

/// How many characters of `t` come before its first newline (all of them,
/// where it has none).
pub open spec fn line_len(t: Seq<char>) -> nat
    decreases t.len(),
{
    if t.len() == 0 || t[0] == '\n' {
        0
    } else {
        1 + line_len(t.drop_first())
    }
}

/// `l` without the carriage return that ends it, if one does.
pub open spec fn strip_cr(l: Seq<char>) -> Seq<char> {
    if l.len() > 0 && l.last() == '\r' {
        l.drop_last()
    } else {
        l
    }
}

/// The lines of `t`, in order. A line ends at a newline, which is not part of
/// it, nor is a carriage return just before that newline. The last line need
/// not end in a newline; an empty text has no lines, and a final newline
/// starts no new line.
pub open spec fn lines(t: Seq<char>) -> Seq<Seq<char>>
    decreases t.len(),
{
    if t.len() == 0 {
        seq![]
    } else {
        let k = line_len(t);
        if k < t.len() {
            seq![strip_cr(t.take(k as int))] + lines(t.skip((k + 1) as int))
        } else {
            seq![t]
        }
    }
}

/// What a sequence of string slices holds, slice by slice.
pub open spec fn views(v: Seq<&str>) -> Seq<Seq<char>> {
    v.map_values(|l: &str| l@)
}

/// Where the first `m` characters of `t` hold no newline and a newline or the
/// end of `t` follows them, the first line of `t` is `m` characters long.
proof fn lemma_line_len(t: Seq<char>, m: nat)
    requires
        m <= t.len(),
        forall|j: int| 0 <= j < m ==> t[j] != '\n',
        m == t.len() || t[m as int] == '\n',
    ensures
        line_len(t) == m,
    decreases m,
{
    if m > 0 {
        lemma_line_len(t.drop_first(), (m - 1) as nat);
    }
}

/// The characters of `s`, in order.
fn chars_of(s: &str) -> (r: Vec<char>)
    ensures
        r@ == s@,
{
    let mut r: Vec<char> = Vec::new();
    for c in it: s.chars()
        invariant
            it.seq() == s@,
            r@ == it.seq().take(it.index() as int),
    {
        r.push(c);
    }
    r
}

/// The lines of `text`, as slices of it.
pub(crate) fn split_lines<'a>(text: &'a str) -> (r: Vec<&'a str>)
    ensures
        views(r@) == lines(text@),
{
    let c = chars_of(text);
    let n = c.len();
    let mut r: Vec<&'a str> = Vec::new();
    let mut start: usize = 0;
    let mut i: usize = 0;
    assert(text@.skip(0) =~= text@);
    assert(views(r@) + lines(text@) =~= lines(text@));
    while i < n
        invariant
            c@ == text@,
            n == c@.len(),
            start <= i <= n,
            forall|j: int| start <= j < i ==> c@[j] != '\n',
            views(r@) + lines(text@.skip(start as int)) == lines(text@),
        decreases n - i,
    {
        if c[i] == '\n' {
            let end = if i > start && c[i - 1] == '\r' {
                i - 1
            } else {
                i
            };
            let line = text.substring_char(start, end);
            proof {
                let rest = text@.skip(start as int);
                lemma_line_len(rest, (i - start) as nat);
                assert(strip_cr(rest.take(i - start)) =~= line@);
                assert(rest.skip(i - start + 1) =~= text@.skip(i + 1));
                assert(views(r@.push(line)) =~= views(r@).push(line@));
            }
            r.push(line);
            start = i + 1;
        }
        i += 1;
    }
    if start < n {
        let line = text.substring_char(start, n);
        proof {
            let rest = text@.skip(start as int);
            lemma_line_len(rest, (n - start) as nat);
            assert(rest =~= line@);
            assert(views(r@.push(line)) =~= views(r@).push(line@));
        }
        r.push(line);
    } else {
        assert(text@.skip(start as int) =~= Seq::<char>::empty());
    }
    assert(views(r@) + seq![] =~= views(r@));
    r
}

/// Whether `query` occurs in `line`.
pub fn contains_query(line: &str, query: &str) -> (r: bool)
    ensures
        r == contains(line@, query@),
{
    let l = chars_of(line);
    let q = chars_of(query);
    occurs(l.as_slice(), q.as_slice())
}

/// Whether `needle` stands in `hay` at position `at`.
fn occurs_at(hay: &[char], needle: &[char], at: usize) -> (r: bool)
    requires
        at + needle@.len() <= hay@.len(),
    ensures
        r == (hay@.subrange(at as int, at + needle@.len()) == needle@),
{
    let n = needle.len();
    let mut j: usize = 0;
    while j < n
        invariant
            j <= n,
            n == needle@.len(),
            at + n <= hay@.len(),
            hay@.len() == hay.len(),
            forall|k: int| 0 <= k < j ==> hay@[at + k] == needle@[k],
        decreases n - j,
    {
        if hay[at + j] != needle[j] {
            assert(hay@.subrange(at as int, at + n)[j as int] != needle@[j as int]);
            return false;
        }
        j += 1;
    }
    assert(hay@.subrange(at as int, at + n) =~= needle@);
    true
}

/// Whether `needle` occurs anywhere in `hay`.
fn occurs(hay: &[char], needle: &[char]) -> (r: bool)
    ensures
        r == contains(hay@, needle@),
{
    if needle.len() > hay.len() {
        return false;
    }
    let last = hay.len() - needle.len();
    let mut i: usize = 0;
    while i <= last
        invariant
            i <= last + 1,
            last == hay@.len() - needle@.len(),
            forall|k: int|
                0 <= k < i ==> #[trigger] hay@.subrange(k, k + needle@.len()) != needle@,
        decreases last + 1 - i,
    {
        if occurs_at(hay, needle, i) {
            return true;
        }
        if i == last {
            return false;
        }
        i += 1;
    }
    false
}

} // verus!
