//! Text as sequences of characters: conversions between `str`, `String` and
//! `Vec<char>`, and the searches the downloader needs.

use vstd::prelude::*;
use vstd::std_specs::iter::IteratorSpec;

verus! {

broadcast use vstd::string::group_string_axioms;

/// `String::push` appends the given character at the end of the string and
/// leaves what was there before untouched.
pub assume_specification[ String::push ](s: &mut String, c: char)
    ensures
        final(s)@ == old(s)@.push(c),
;

/// The characters of a string slice, in order.
pub fn chars_of(s: &str) -> (v: Vec<char>)
    ensures
        v@ == s@,
{
    let mut v: Vec<char> = Vec::new();
    for c in it: s.chars()
        invariant
            it.seq() == s@,
            v@ == s@.take(it.index()),
    {
        v.push(c);
        assert(s@.take(it.index() + 1) == s@.take(it.index()).push(s@[it.index()]));
    }
    assert(s@.take(s@.len() as int) == s@);
    v
}

/// The string made of the given characters, in order.
pub fn text_of(v: &Vec<char>) -> (s: String)
    ensures
        s@ == v@,
{
    let mut s = String::new();
    let mut i: usize = 0;
    while i < v.len()
        invariant
            i <= v.len(),
            s@ == v@.subrange(0, i as int),
        decreases v.len() - i,
    {
        s.push(v[i]);
        i += 1;
        assert(v@.subrange(0, i as int) == v@.subrange(0, i - 1).push(v@[i - 1]));
    }
    assert(v@.subrange(0, v.len() as int) == v@);
    s
}

/// Whether `needle` stands in `hay` at position `at`.
pub open spec fn has_at(hay: Seq<char>, needle: Seq<char>, at: int) -> bool {
    &&& 0 <= at
    &&& at + needle.len() <= hay.len()
    &&& hay.subrange(at, at + needle.len()) == needle
}

/// Whether two vectors hold the same characters.
pub fn same_chars(a: &Vec<char>, b: &Vec<char>) -> (r: bool)
    ensures
        r == (a@ == b@),
{
    if a.len() != b.len() {
        return false;
    }
    let mut i: usize = 0;
    while i < a.len()
        invariant
            i <= a.len(),
            a.len() == b.len(),
            a@.subrange(0, i as int) == b@.subrange(0, i as int),
        decreases a.len() - i,
    {
        if a[i] != b[i] {
            return false;
        }
        i += 1;
        assert(a@.subrange(0, i as int) == a@.subrange(0, i - 1).push(a@[i - 1]));
        assert(b@.subrange(0, i as int) == b@.subrange(0, i - 1).push(b@[i - 1]));
    }
    assert(a@.subrange(0, a.len() as int) == a@);
    assert(b@.subrange(0, b.len() as int) == b@);
    true
}

/// Whether two string slices hold the same text.
pub fn same_text(a: &str, b: &str) -> (r: bool)
    ensures
        r == (a@ == b@),
{
    let x = chars_of(a);
    let y = chars_of(b);
    same_chars(&x, &y)
}

/// Whether `needle` stands in `hay` at position `at`.
pub fn found_at(hay: &Vec<char>, needle: &Vec<char>, at: usize) -> (r: bool)
    ensures
        r == has_at(hay@, needle@, at as int),
{
    if at > hay.len() || needle.len() > hay.len() - at {
        return false;
    }
    let mut i: usize = 0;
    while i < needle.len()
        invariant
            i <= needle.len(),
            at + needle.len() <= hay.len(),
            hay@.subrange(at as int, at + i) == needle@.subrange(0, i as int),
        decreases needle.len() - i,
    {
        if hay[at + i] != needle[i] {
            assert(hay@.subrange(at as int, at + needle.len())[i as int] != needle@[i as int]);
            return false;
        }
        i += 1;
        assert(hay@.subrange(at as int, at + i) == hay@.subrange(at as int, at + i - 1).push(
            hay@[at + i - 1],
        ));
        assert(needle@.subrange(0, i as int) == needle@.subrange(0, i - 1).push(needle@[i - 1]));
    }
    assert(needle@.subrange(0, needle.len() as int) == needle@);
    true
}

/// The characters of `v` from position `from` up to, not including, `to`.
pub(crate) fn slice_of(v: &Vec<char>, from: usize, to: usize) -> (r: Vec<char>)
    requires
        from <= to <= v.len(),
    ensures
        r@ == v@.subrange(from as int, to as int),
{
    let mut r: Vec<char> = Vec::new();
    let mut i: usize = from;
    while i < to
        invariant
            from <= i <= to <= v.len(),
            r@ == v@.subrange(from as int, i as int),
        decreases to - i,
    {
        r.push(v[i]);
        i += 1;
        assert(v@.subrange(from as int, i as int) == v@.subrange(from as int, i - 1).push(
            v@[i - 1],
        ));
    }
    r
}

/// Appends the characters of `tail` to `head`.
pub fn extend_chars(head: &mut Vec<char>, tail: &Vec<char>)
    ensures
        final(head)@ == old(head)@ + tail@,
{
    let mut i: usize = 0;
    while i < tail.len()
        invariant
            i <= tail.len(),
            head@ == old(head)@ + tail@.subrange(0, i as int),
        decreases tail.len() - i,
    {
        head.push(tail[i]);
        i += 1;
        assert(tail@.subrange(0, i as int) == tail@.subrange(0, i - 1).push(tail@[i - 1]));
    }
    assert(tail@.subrange(0, tail.len() as int) == tail@);
}

/// A path followed by one more component, with `/` between them where the
/// path does not already end in one. A component that starts with `/` stands
/// for itself, and an empty path adds no separator.
pub open spec fn joined(base: Seq<char>, part: Seq<char>) -> Seq<char> {
    if part.len() > 0 && part[0] == '/' {
        part
    } else if base.len() == 0 || base.last() == '/' {
        base + part
    } else {
        base + seq!['/'] + part
    }
}

/// Joins a path and a component: see [`joined`].
pub fn join_path(base: &str, part: &str) -> (r: String)
    ensures
        r@ == joined(base@, part@),
{
    let mut b = chars_of(base);
    let p = chars_of(part);
    if p.len() > 0 && p[0] == '/' {
        return text_of(&p);
    }
    if b.len() > 0 && b[b.len() - 1] != '/' {
        b.push('/');
    }
    extend_chars(&mut b, &p);
    text_of(&b)
}

/// The position of the first line feed at or after `from`, or the length of
/// the text where there is none.
pub open spec fn line_end(s: Seq<char>, from: int) -> int
    decreases s.len() - from,
{
    if from < 0 || from >= s.len() {
        s.len() as int
    } else if s[from] == '\n' {
        from
    } else {
        line_end(s, from + 1)
    }
}

/// The lines of the text that starts at `from`, each with its line feed
/// where it has one.
pub open spec fn lines_from(s: Seq<char>, from: int) -> Seq<Seq<char>>
    decreases s.len() - from,
{
    if from < 0 || from >= s.len() {
        Seq::empty()
    } else {
        let e = line_end(s, from);
        if e < from || e >= s.len() {
            seq![s.subrange(from, s.len() as int)]
        } else {
            seq![s.subrange(from, e + 1)] + lines_from(s, e + 1)
        }
    }
}

/// The lines of a text, each with its line feed where it has one. The text
/// is the concatenation of its lines.
pub open spec fn lines_of(s: Seq<char>) -> Seq<Seq<char>> {
    lines_from(s, 0)
}

/// A line without the line feed, or carriage return and line feed, that ends it.
pub open spec fn bare_line(line: Seq<char>) -> Seq<char> {
    if line.len() > 0 && line.last() == '\n' {
        let l = line.drop_last();
        if l.len() > 0 && l.last() == '\r' {
            l.drop_last()
        } else {
            l
        }
    } else {
        line
    }
}

/// Blank characters: the characters that Unicode calls white space. These
/// are tab to carriage return, the space, the next-line character, the
/// no-break space, the Ogham space mark, the spaces of fixed width from en
/// quad to hair space, the line and the paragraph separator, the narrow
/// no-break space, the medium mathematical space and the ideographic space.
pub open spec fn is_blank(c: char) -> bool {
    ||| '\u{9}' <= c && c <= '\u{d}'
    ||| c == ' '
    ||| c == '\u{85}'
    ||| c == '\u{a0}'
    ||| c == '\u{1680}'
    ||| '\u{2000}' <= c && c <= '\u{200a}'
    ||| c == '\u{2028}'
    ||| c == '\u{2029}'
    ||| c == '\u{202f}'
    ||| c == '\u{205f}'
    ||| c == '\u{3000}'
}

/// The position of the first character at or after `from` that is not blank,
/// or the length of the text.
pub open spec fn blanks_end(s: Seq<char>, from: int) -> int
    decreases s.len() - from,
{
    if from < 0 || from >= s.len() {
        s.len() as int
    } else if !is_blank(s[from]) {
        from
    } else {
        blanks_end(s, from + 1)
    }
}

/// The length of the text up to `to` once the blanks at its end are dropped.
pub open spec fn text_end(s: Seq<char>, to: int) -> int
    decreases to,
{
    if to <= 0 || to > s.len() {
        0
    } else if !is_blank(s[to - 1]) {
        to
    } else {
        text_end(s, to - 1)
    }
}

/// A text without the blanks at its start and at its end.
pub open spec fn trimmed(s: Seq<char>) -> Seq<char> {
    let a = blanks_end(s, 0);
    let b = text_end(s, s.len() as int);
    if a >= b {
        Seq::empty()
    } else {
        s.subrange(a, b)
    }
}

proof fn lemma_line_end(s: Seq<char>, from: int, e: int)
    requires
        0 <= from <= e <= s.len(),
        forall|j: int| from <= j < e ==> s[j] != '\n',
        e == s.len() || s[e] == '\n',
    ensures
        line_end(s, from) == e,
    decreases e - from,
{
    if from < e {
        lemma_line_end(s, from + 1, e);
    }
}

proof fn lemma_blanks_end(s: Seq<char>, from: int, e: int)
    requires
        0 <= from <= e <= s.len(),
        forall|j: int| from <= j < e ==> is_blank(s[j]),
        e == s.len() || !is_blank(s[e]),
    ensures
        blanks_end(s, from) == e,
    decreases e - from,
{
    if from < e {
        lemma_blanks_end(s, from + 1, e);
    }
}

proof fn lemma_text_end(s: Seq<char>, to: int, e: int)
    requires
        0 <= e <= to <= s.len(),
        forall|j: int| e <= j < to ==> is_blank(s[j]),
        e == 0 || !is_blank(s[e - 1]),
    ensures
        text_end(s, to) == e,
    decreases to - e,
{
    if e < to {
        lemma_text_end(s, to - 1, e);
    }
}

/// Whether a character is blank: see [`is_blank`].
pub fn blank(c: char) -> (r: bool)
    ensures
        r == is_blank(c),
{
    ('\u{9}' <= c && c <= '\u{d}') || c == ' ' || c == '\u{85}' || c == '\u{a0}' || c
        == '\u{1680}' || ('\u{2000}' <= c && c <= '\u{200a}') || c == '\u{2028}' || c
        == '\u{2029}' || c == '\u{202f}' || c == '\u{205f}' || c == '\u{3000}'
}

/// The views of the vectors of a list.
pub open spec fn rows(list: Seq<Vec<char>>) -> Seq<Seq<char>> {
    list.map_values(|l: Vec<char>| l@)
}

/// Splits a text into its lines: see [`lines_of`].
pub fn split_lines(v: &Vec<char>) -> (r: Vec<Vec<char>>)
    ensures
        rows(r@) == lines_of(v@),
{
    let mut r: Vec<Vec<char>> = Vec::new();
    let mut pos: usize = 0;
    while pos < v.len()
        invariant
            pos <= v.len(),
            lines_of(v@) == rows(r@) + lines_from(v@, pos as int),
        decreases v.len() - pos,
    {
        let mut e: usize = pos;
        while e < v.len() && v[e] != '\n'
            invariant
                pos <= e <= v.len(),
                forall|j: int| pos <= j < e ==> v@[j] != '\n',
            decreases v.len() - e,
        {
            e += 1;
        }
        proof {
            lemma_line_end(v@, pos as int, e as int);
        }
        let stop: usize = if e < v.len() {
            e + 1
        } else {
            e
        };
        let line = slice_of(v, pos, stop);
        let ghost before = rows(r@);
        r.push(line);
        proof {
            assert(rows(r@) =~= before.push(line@));
            if e >= v.len() {
                assert(lines_from(v@, stop as int) == Seq::<Seq<char>>::empty());
                assert(lines_from(v@, pos as int) =~= seq![line@]);
            } else {
                assert(lines_from(v@, pos as int) == seq![line@] + lines_from(v@, stop as int));
            }
            assert(before + lines_from(v@, pos as int) =~= rows(r@) + lines_from(
                v@,
                stop as int,
            ));
        }
        pos = stop;
    }
    assert(lines_from(v@, pos as int) == Seq::<Seq<char>>::empty());
    assert(rows(r@) + Seq::<Seq<char>>::empty() =~= rows(r@));
    r
}

/// Drops the line ending of a line: see [`bare_line`].
pub fn strip_line_end(line: &Vec<char>) -> (r: Vec<char>)
    ensures
        r@ == bare_line(line@),
{
    let n = line.len();
    if n > 0 && line[n - 1] == '\n' {
        if n > 1 && line[n - 2] == '\r' {
            let r = slice_of(line, 0, n - 2);
            assert(r@ =~= line@.drop_last().drop_last());
            r
        } else {
            let r = slice_of(line, 0, n - 1);
            assert(r@ =~= line@.drop_last());
            r
        }
    } else {
        let r = slice_of(line, 0, n);
        assert(r@ =~= line@);
        r
    }
}

/// Drops the blanks at both ends of a text: see [`trimmed`].
pub fn trim_chars(s: &Vec<char>) -> (r: Vec<char>)
    ensures
        r@ == trimmed(s@),
{
    let mut a: usize = 0;
    while a < s.len() && blank(s[a])
        invariant
            a <= s.len(),
            forall|j: int| 0 <= j < a ==> is_blank(s@[j]),
        decreases s.len() - a,
    {
        a += 1;
    }
    let mut b: usize = s.len();
    while b > 0 && blank(s[b - 1])
        invariant
            b <= s.len(),
            forall|j: int| b <= j < s.len() ==> is_blank(s@[j]),
        decreases b,
    {
        b -= 1;
    }
    proof {
        lemma_blanks_end(s@, 0, a as int);
        lemma_text_end(s@, s.len() as int, b as int);
    }
    if a >= b {
        Vec::new()
    } else {
        slice_of(s, a, b)
    }
}

/// The text `a` followed by the text `b`.
pub fn concat_text(a: &str, b: &str) -> (r: String)
    ensures
        r@ == a@ + b@,
{
    let mut v = chars_of(a);
    let w = chars_of(b);
    extend_chars(&mut v, &w);
    text_of(&v)
}

/// Where a line ends: at or behind its start, before the first line feed.
pub proof fn lemma_line_end_bounds(s: Seq<char>, from: int)
    requires
        0 <= from <= s.len(),
    ensures
        from <= line_end(s, from) <= s.len(),
        forall|j: int| from <= j < line_end(s, from) ==> s[j] != '\n',
        line_end(s, from) < s.len() ==> s[line_end(s, from)] == '\n',
    decreases s.len() - from,
{
    if from < s.len() && s[from] != '\n' {
        lemma_line_end_bounds(s, from + 1);
    }
}

proof fn lemma_line_end_shift(a: Seq<char>, b: Seq<char>, k: int)
    requires
        0 <= k <= b.len(),
    ensures
        line_end(a + b, a.len() + k) == a.len() + line_end(b, k),
    decreases b.len() - k,
{
    if k < b.len() {
        assert((a + b)[a.len() + k] == b[k]);
        if b[k] != '\n' {
            lemma_line_end_shift(a, b, k + 1);
        }
    }
}

proof fn lemma_lines_shift(a: Seq<char>, b: Seq<char>, k: int)
    requires
        0 <= k <= b.len(),
    ensures
        lines_from(a + b, a.len() + k) == lines_from(b, k),
    decreases b.len() - k,
{
    if k < b.len() {
        lemma_line_end_shift(a, b, k);
        lemma_line_end_bounds(b, k);
        let e = line_end(b, k);
        if e >= b.len() {
            assert((a + b).subrange(a.len() + k, (a + b).len() as int) =~= b.subrange(
                k,
                b.len() as int,
            ));
        } else {
            assert((a + b).subrange(a.len() + k, a.len() + e + 1) =~= b.subrange(k, e + 1));
            lemma_lines_shift(a, b, e + 1);
        }
    }
}

proof fn lemma_line_end_prefix(a: Seq<char>, b: Seq<char>, from: int)
    requires
        0 <= from <= a.len(),
        line_end(a, from) < a.len(),
    ensures
        line_end(a + b, from) == line_end(a, from),
    decreases a.len() - from,
{
    if from < a.len() {
        assert((a + b)[from] == a[from]);
        if a[from] != '\n' {
            lemma_line_end_prefix(a, b, from + 1);
        }
    }
}

proof fn lemma_lines_concat_from(a: Seq<char>, b: Seq<char>, from: int)
    requires
        a.len() == 0 || a.last() == '\n',
        0 <= from <= a.len(),
    ensures
        lines_from(a + b, from) == lines_from(a, from) + lines_from(b, 0),
    decreases a.len() - from,
{
    if from == a.len() {
        lemma_lines_shift(a, b, 0);
        assert(lines_from(a, from) + lines_from(b, 0) =~= lines_from(b, 0));
    } else {
        lemma_line_end_bounds(a, from);
        let e = line_end(a, from);
        assert(e < a.len()) by {
            if e >= a.len() {
                assert(a[a.len() - 1] != '\n');
            }
        }
        lemma_line_end_prefix(a, b, from);
        lemma_lines_concat_from(a, b, e + 1);
        assert((a + b).subrange(from, e + 1) =~= a.subrange(from, e + 1));
        assert(seq![a.subrange(from, e + 1)] + (lines_from(a, e + 1) + lines_from(b, 0)) =~= (
        seq![a.subrange(from, e + 1)] + lines_from(a, e + 1)) + lines_from(b, 0));
    }
}

/// The lines of two texts written one behind the other are the lines of the
/// first and then the lines of the second, as long as the first is empty or
/// ends with a line feed.
pub proof fn lemma_lines_concat(a: Seq<char>, b: Seq<char>)
    requires
        a.len() == 0 || a.last() == '\n',
    ensures
        lines_of(a + b) == lines_of(a) + lines_of(b),
{
    lemma_lines_concat_from(a, b, 0);
}

/// Whether a text is one line: not empty, and without a line feed except,
/// perhaps, as its last character.
pub open spec fn is_line(line: Seq<char>) -> bool {
    &&& line.len() > 0
    &&& forall|j: int| 0 <= j < line.len() - 1 ==> line[j] != '\n'
}

/// A text that is one line has itself as its only line.
pub proof fn lemma_single_line(line: Seq<char>)
    requires
        is_line(line),
    ensures
        lines_of(line) == seq![line],
{
    let n = line.len() as int;
    if line[n - 1] == '\n' {
        lemma_line_end(line, 0, n - 1);
        assert(line.subrange(0, n) =~= line);
        assert(lines_from(line, n) == Seq::<Seq<char>>::empty());
        assert(seq![line] + Seq::<Seq<char>>::empty() =~= seq![line]);
    } else {
        lemma_line_end(line, 0, n);
        assert(line.subrange(0, n) =~= line);
    }
}

} // verus!
