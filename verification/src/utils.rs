//! Small helpers on paths and names.

use crate::text::{chars_of, found_at, has_at, join_path, joined, same_text, slice_of, text_of};
use vstd::prelude::*;

verus! {

/// The prefix that marks a verbatim path on Windows: `\\?\`.
pub open spec fn verbatim_prefix() -> Seq<char> {
    seq!['\\', '\\', '?', '\\']
}

/// A text with every backslash turned into a slash.
pub open spec fn slashed(s: Seq<char>) -> Seq<char> {
    s.map_values(
        |c: char|
            if c == '\\' {
                '/'
            } else {
                c
            },
    )
}

/// The form in which a path is shown to other programs: on Windows without
/// the verbatim prefix and with slashes for backslashes, elsewhere as it is.
pub open spec fn path_name(p: Seq<char>, platform: Seq<char>) -> Seq<char> {
    if platform == "windows"@ {
        if has_at(p, verbatim_prefix(), 0) {
            slashed(p.skip(4))
        } else {
            slashed(p)
        }
    } else {
        p
    }
}

/// The path in the form in which it is shown to other programs, for the
/// platform of the given name (`windows`, `macos`, `linux`, ...).
pub fn get_path_name(p: &str, platform: &str) -> (r: String)
    ensures
        r@ == path_name(p@, platform@),
{
    if !same_text(platform, "windows") {
        return text_of(&chars_of(p));
    }
    let v = chars_of(p);
    let mut prefix: Vec<char> = Vec::new();
    prefix.push('\\');
    prefix.push('\\');
    prefix.push('?');
    prefix.push('\\');
    assert(prefix@ =~= verbatim_prefix());
    let start: usize = if found_at(&v, &prefix, 0) {
        4
    } else {
        0
    };
    let mut out: Vec<char> = Vec::new();
    let mut i: usize = start;
    while i < v.len()
        invariant
            start <= i <= v.len(),
            out@ == slashed(v@.subrange(start as int, i as int)),
        decreases v.len() - i,
    {
        let c = v[i];
        out.push(
            if c == '\\' {
                '/'
            } else {
                c
            },
        );
        i += 1;
        assert(v@.subrange(start as int, i as int) == v@.subrange(start as int, i - 1).push(c));
        assert(out@ =~= slashed(v@.subrange(start as int, i as int)));
    }
    assert(v@.subrange(start as int, v.len() as int) =~= v@.skip(start as int));
    assert(v@.skip(0) =~= v@);
    text_of(&out)
}

/// The position of the first colon of a text, if it has one.
pub open spec fn colon_at(s: Seq<char>, from: int) -> Option<int>
    decreases s.len() - from,
{
    if from < 0 || from >= s.len() {
        None
    } else if s[from] == ':' {
        Some(from)
    } else {
        colon_at(s, from + 1)
    }
}

proof fn lemma_colon_at(s: Seq<char>, from: int, e: int)
    requires
        0 <= from <= e <= s.len(),
        forall|j: int| from <= j < e ==> s[j] != ':',
    ensures
        e == s.len() ==> colon_at(s, from) is None,
        e < s.len() && s[e] == ':' ==> colon_at(s, from) == Some(e),
    decreases e - from,
{
    if from < e {
        lemma_colon_at(s, from + 1, e);
    }
}

/// The file that a connection string names, placed under the application's
/// directory. A connection string is a scheme, a colon and a path: the part
/// behind the first colon is joined to the directory.
pub fn path_mapper(app_path: String, connection_string: &str) -> (r: String)
    requires
        colon_at(connection_string@, 0) is Some,
    ensures
        r@ == joined(
            app_path@,
            connection_string@.skip(colon_at(connection_string@, 0)->0 + 1),
        ),
{
    let c = chars_of(connection_string);
    let mut e: usize = 0;
    while e < c.len() && c[e] != ':'
        invariant
            e <= c.len(),
            forall|j: int| 0 <= j < e ==> c@[j] != ':',
        decreases c.len() - e,
    {
        e += 1;
    }
    proof {
        lemma_colon_at(c@, 0, e as int);
    }
    let rest = slice_of(&c, e + 1, c.len());
    assert(rest@ =~= c@.skip(e + 1));
    let rest_text = text_of(&rest);
    join_path(app_path.as_str(), rest_text.as_str())
}

/// Whether the application runs for the first time: its settings store
/// holds no entry yet.
pub fn is_first_run(store_length: usize) -> (r: bool)
    ensures
        r == (store_length == 0),
{
    store_length == 0
}

/// A text without its hyphens.
pub open spec fn unhyphened(s: Seq<char>) -> Seq<char> {
    s.filter(|c: char| c != '-')
}

/// Drops the hyphens of a text.
pub fn strip_hyphens(text: &str) -> (r: String)
    ensures
        r@ == unhyphened(text@),
{
    let v = chars_of(text);
    let mut out: Vec<char> = Vec::new();
    let mut i: usize = 0;
    while i < v.len()
        invariant
            i <= v.len(),
            out@ == unhyphened(v@.take(i as int)),
        decreases v.len() - i,
    {
        let ghost before = v@.take(i as int);
        if v[i] != '-' {
            out.push(v[i]);
        }
        i += 1;
        proof {
            reveal(Seq::filter);
            assert(v@.take(i as int).drop_last() =~= before);
        }
    }
    assert(v@.take(v.len() as int) =~= v@);
    text_of(&out)
}

/// Calls `uuid::Uuid::new_v4` and formats the identifier with `to_string`.
/// The identifier is random; whatever it is, `to_string` writes it in the
/// hyphenated form: 32 lowercase hexadecimal digits in groups of 8, 4, 4, 4
/// and 12 with a hyphen between the groups. `new_v4` fixes the bits of
/// version and variant, so the third group starts with `4` and the fourth
/// with `8`, `9`, `a` or `b`.
#[verifier::external_body]
fn random_uuid_text() -> (r: String)
    ensures
        is_hyphenated(r@),
        r@[14] == '4',
        is_variant_digit(r@[19]),
{
    uuid::Uuid::new_v4().to_string()
}

/// A fresh random identifier of version 4, written without hyphens: 32
/// lowercase hexadecimal digits, of which the one at place 12 is `4` and
/// the one at place 16 is `8`, `9`, `a` or `b`.
pub fn uuid() -> (r: String)
    ensures
        r@.len() == 32,
        forall|i: int| 0 <= i < r@.len() ==> is_lower_hex(#[trigger] r@[i]),
        r@[12] == '4',
        is_variant_digit(r@[16]),
{
    let raw = random_uuid_text();
    let r = strip_hyphens(raw.as_str());
    proof {
        lemma_unhyphened_identifier(raw@);
    }
    r
}

/// Whether a character is a lowercase hexadecimal digit.
pub open spec fn is_lower_hex(c: char) -> bool {
    ('0' <= c && c <= '9') || ('a' <= c && c <= 'f')
}

/// Whether a character is a digit that the variant of a random identifier
/// can show.
pub open spec fn is_variant_digit(c: char) -> bool {
    c == '8' || c == '9' || c == 'a' || c == 'b'
}

/// Whether a position of a hyphenated identifier holds a hyphen.
pub open spec fn is_hyphen_place(i: int) -> bool {
    i == 8 || i == 13 || i == 18 || i == 23
}

/// Whether a text is an identifier in the hyphenated form: 36 characters,
/// hyphens at the places 8, 13, 18 and 23, lowercase hexadecimal digits at
/// the others.
pub open spec fn is_hyphenated(s: Seq<char>) -> bool {
    &&& s.len() == 36
    &&& s[8] == '-' && s[13] == '-' && s[18] == '-' && s[23] == '-'
    &&& forall|i: int| 0 <= i < 36 && !is_hyphen_place(i) ==> is_lower_hex(#[trigger] s[i])
}

proof fn lemma_unhyphened_keeps(s: Seq<char>)
    requires
        forall|i: int| 0 <= i < s.len() ==> s[i] != '-',
    ensures
        unhyphened(s) == s,
    decreases s.len(),
{
    reveal(Seq::filter);
    if s.len() > 0 {
        lemma_unhyphened_keeps(s.drop_last());
        assert(s.drop_last().push(s.last()) =~= s);
    }
}

proof fn lemma_unhyphened_concat(a: Seq<char>, b: Seq<char>)
    ensures
        unhyphened(a + b) == unhyphened(a) + unhyphened(b),
    decreases b.len(),
{
    reveal(Seq::filter);
    if b.len() == 0 {
        assert(a + b =~= a);
        assert(unhyphened(a) + unhyphened(b) =~= unhyphened(a));
    } else {
        lemma_unhyphened_concat(a, b.drop_last());
        assert((a + b).drop_last() =~= a + b.drop_last());
        assert((a + b).last() == b.last());
        if b.last() != '-' {
            assert((unhyphened(a) + unhyphened(b.drop_last())).push(b.last()) =~= unhyphened(a)
                + unhyphened(b.drop_last()).push(b.last()));
        }
    }
}

proof fn lemma_unhyphened_group(t: Seq<char>, n: int)
    requires
        0 <= n < t.len(),
        forall|i: int| 0 <= i < n ==> t[i] != '-',
        t[n] == '-',
    ensures
        unhyphened(t) == t.take(n) + unhyphened(t.skip(n + 1)),
        unhyphened(t).len() == n + unhyphened(t.skip(n + 1)).len(),
{
    reveal(Seq::filter);
    let head = t.take(n);
    let mark = t.subrange(n, n + 1);
    let rest = t.skip(n + 1);
    assert(t =~= head + mark + rest);
    lemma_unhyphened_concat(head + mark, rest);
    lemma_unhyphened_concat(head, mark);
    lemma_unhyphened_keeps(head);
    assert(mark.last() == '-');
    lemma_unhyphened_keeps(mark.drop_last());
    assert(unhyphened(mark) == unhyphened(mark.drop_last()));
    assert(unhyphened(mark).len() == 0);
    assert(head + unhyphened(mark) + unhyphened(rest) =~= head + unhyphened(rest));
}

proof fn lemma_unhyphened_chars(s: Seq<char>)
    requires
        forall|j: int| 0 <= j < s.len() && s[j] != '-' ==> is_lower_hex(#[trigger] s[j]),
    ensures
        forall|i: int| 0 <= i < unhyphened(s).len() ==> is_lower_hex(#[trigger] unhyphened(s)[i]),
    decreases s.len(),
{
    reveal(Seq::filter);
    if s.len() > 0 {
        let init = s.drop_last();
        assert forall|j: int| 0 <= j < init.len() && init[j] != '-' implies is_lower_hex(
            #[trigger] init[j],
        ) by {
            assert(init[j] == s[j]);
        }
        lemma_unhyphened_chars(init);
        let kept = unhyphened(init);
        assert forall|i: int| 0 <= i < unhyphened(s).len() implies is_lower_hex(
            #[trigger] unhyphened(s)[i],
        ) by {
            if s.last() != '-' {
                assert(unhyphened(s) == kept.push(s.last()));
                if i < kept.len() {
                    assert(unhyphened(s)[i] == kept[i]);
                } else {
                    assert(unhyphened(s)[i] == s[s.len() - 1]);
                }
            } else {
                assert(unhyphened(s) == kept);
            }
        }
    }
}

/// A hyphenated identifier without its hyphens is 32 lowercase
/// hexadecimal digits. The first digit of its third group comes to stand at
/// place 12, the first digit of its fourth group at place 16.
pub proof fn lemma_unhyphened_identifier(s: Seq<char>)
    requires
        is_hyphenated(s),
    ensures
        unhyphened(s).len() == 32,
        forall|i: int| 0 <= i < unhyphened(s).len() ==> is_lower_hex(#[trigger] unhyphened(s)[i]),
        unhyphened(s)[12] == s[14],
        unhyphened(s)[16] == s[19],
{
    assert forall|j: int| 0 <= j < 36 && !is_hyphen_place(j) implies s[j] != '-' by {
        assert(is_lower_hex(s[j]));
    }
    lemma_unhyphened_chars(s);
    let t1 = s.skip(9);
    let t2 = s.skip(14);
    let t3 = s.skip(19);
    let t4 = s.skip(24);
    assert(unhyphened(s).len() == 8 + unhyphened(t1).len()) by {
        lemma_unhyphened_group(s, 8);
    }
    assert(unhyphened(t1).len() == 4 + unhyphened(t2).len()) by {
        assert(t1.skip(5) =~= t2);
        lemma_unhyphened_group(t1, 4);
    }
    assert(unhyphened(t2).len() == 4 + unhyphened(t3).len()) by {
        assert(t2.skip(5) =~= t3);
        lemma_unhyphened_group(t2, 4);
    }
    assert(unhyphened(t3).len() == 4 + unhyphened(t4).len()) by {
        assert(t3.skip(5) =~= t4);
        lemma_unhyphened_group(t3, 4);
    }
    assert(unhyphened(t4).len() == 12) by {
        lemma_unhyphened_keeps(t4);
    }
    assert(unhyphened(t3)[0] == s[19]) by {
        lemma_unhyphened_group(t3, 4);
        assert(unhyphened(t3)[0] == t3.take(4)[0]);
    }
    assert(unhyphened(t2)[0] == s[14] && unhyphened(t2)[4] == unhyphened(t3)[0]) by {
        assert(t2.skip(5) =~= t3);
        lemma_unhyphened_group(t2, 4);
        assert(unhyphened(t2)[0] == t2.take(4)[0]);
    }
    assert(unhyphened(t1)[4] == unhyphened(t2)[0] && unhyphened(t1)[8] == unhyphened(t2)[4]) by {
        assert(t1.skip(5) =~= t2);
        lemma_unhyphened_group(t1, 4);
    }
    assert(unhyphened(s)[12] == unhyphened(t1)[4] && unhyphened(s)[16] == unhyphened(t1)[8]) by {
        lemma_unhyphened_group(s, 8);
    }
}

} // verus!
