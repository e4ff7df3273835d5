//! Quoting for `/bin/sh` command lines.
use vstd::prelude::*;

use crate::text::{chars_of, concat, replace_char, replaced, string_views};

verus! {

/// `v` in single quotes for `/bin/sh`, each `'` inside written as `'\''`.
pub open spec fn sh_quoted(v: Seq<char>) -> Seq<char> {
    seq!['\''] + replace_char(v, '\'', "'\\''"@) + seq!['\'']
}

/// Single-quote a value for safe embedding in a `/bin/sh -c` command line.
pub fn sh_quote(value: &str) -> (r: String)
    ensures
        r@ == sh_quoted(value@),
{
    let v = chars_of(value);
    let inner = replaced(&v, '\'', "'\\''");
    let a = concat("'", inner.as_str());
    let r = concat(a.as_str(), "'");
    proof {
        reveal_strlit("'");
        assert("'"@ =~= seq!['\'']);
    }
    r
}

/// The value of a shell word written as single-quoted runs and
/// backslash-escaped characters; none for any other text (an unquoted
/// character or an unterminated quote).
pub open spec fn sh_word(s: Seq<char>) -> Option<Seq<char>>
    decreases s.len(),
{
    if s.len() == 0 {
        Some(Seq::<char>::empty())
    } else if s[0] == '\'' {
        sh_quoted_run(s.drop_first())
    } else if s[0] == '\\' && s.len() >= 2 {
        match sh_word(s.skip(2)) {
            Some(r) => Some(seq![s[1]] + r),
            None => None,
        }
    } else {
        None
    }
}

/// The value of the rest of a shell word that starts inside single quotes.
pub open spec fn sh_quoted_run(s: Seq<char>) -> Option<Seq<char>>
    decreases s.len(),
{
    if s.len() == 0 {
        None
    } else if s[0] == '\'' {
        sh_word(s.drop_first())
    } else {
        match sh_quoted_run(s.drop_first()) {
            Some(r) => Some(seq![s[0]] + r),
            None => None,
        }
    }
}

proof fn lemma_replace_concat(a: Seq<char>, b: Seq<char>, c: char, w: Seq<char>)
    ensures
        replace_char(a + b, c, w) == replace_char(a, c, w) + replace_char(b, c, w),
    decreases b.len(),
{
    if b.len() == 0 {
        assert(a + b =~= a);
        assert(replace_char(a, c, w) + replace_char(b, c, w) =~= replace_char(a, c, w));
    } else {
        lemma_replace_concat(a, b.drop_last(), c, w);
        assert((a + b).drop_last() =~= a + b.drop_last());
        assert((a + b).last() == b.last());
        if b.last() == c {
            assert(replace_char(a, c, w) + replace_char(b.drop_last(), c, w) + w =~= replace_char(
                a,
                c,
                w,
            ) + (replace_char(b.drop_last(), c, w) + w));
        } else {
            assert((replace_char(a, c, w) + replace_char(b.drop_last(), c, w)).push(b.last())
                =~= replace_char(a, c, w) + replace_char(b.drop_last(), c, w).push(b.last()));
        }
    }
}

proof fn lemma_quoted_run(v: Seq<char>, rest: Seq<char>)
    ensures
        sh_quoted_run(replace_char(v, '\'', "'\\''"@) + seq!['\''] + rest) == match sh_word(
            rest,
        ) {
            Some(r) => Some(v + r),
            None => None::<Seq<char>>,
        },
    decreases v.len(),
{
    let q = "'\\''"@;
    reveal_strlit("'\\''");
    assert(q =~= seq!['\'', '\\', '\'', '\'']);
    if v.len() == 0 {
        assert(replace_char(v, '\'', q) =~= Seq::<char>::empty());
        let s = replace_char(v, '\'', q) + seq!['\''] + rest;
        assert(s.drop_first() =~= rest);
        assert(s[0] == '\'');
        assert(sh_quoted_run(s) == sh_word(rest));
        match sh_word(rest) {
            Some(r) => assert(v + r =~= r),
            None => {},
        }
    } else {
        let h = seq![v[0]];
        let t = v.drop_first();
        assert(v =~= h + t);
        lemma_replace_concat(h, t, '\'', q);
        assert(h.drop_last() =~= Seq::<char>::empty());
        assert(replace_char(Seq::<char>::empty(), '\'', q) =~= Seq::<char>::empty());
        lemma_quoted_run(t, rest);
        let tail = replace_char(t, '\'', q) + seq!['\''] + rest;
        if v[0] == '\'' {
            assert(replace_char(h, '\'', q) =~= q);
            let s = replace_char(v, '\'', q) + seq!['\''] + rest;
            assert(s =~= q + tail);
            let s1 = s.drop_first();
            assert(s1 =~= seq!['\\', '\'', '\''] + tail);
            assert(s1.skip(2) =~= seq!['\''] + tail);
            assert((seq!['\''] + tail).drop_first() =~= tail);
            assert(sh_word(seq!['\''] + tail) == sh_quoted_run(tail));
            assert(s1[0] == '\\' && s1[1] == '\'');
            assert(sh_quoted_run(s) == sh_word(s1));
            match sh_word(rest) {
                Some(r) => assert(seq!['\''] + (t + r) =~= v + r),
                None => {},
            }
        } else {
            assert(replace_char(h, '\'', q) =~= h);
            let s = replace_char(v, '\'', q) + seq!['\''] + rest;
            assert(s =~= h + tail);
            assert(s.drop_first() =~= tail);
            assert(s[0] == v[0]);
            match sh_word(rest) {
                Some(r) => assert(seq![v[0]] + (t + r) =~= v + r),
                None => {},
            }
        }
    }
}

/// Quoting makes any value a single shell word whose value is the value
/// itself: `/bin/sh` reads back exactly what was quoted.
pub proof fn law_sh_quote_round_trip(v: Seq<char>)
    ensures
        sh_word(sh_quoted(v)) == Some(v),
{
    let s = sh_quoted(v);
    lemma_quoted_run(v, Seq::<char>::empty());
    assert(s.drop_first() =~= replace_char(v, '\'', "'\\''"@) + seq!['\''] + Seq::<char>::empty());
    assert(v + Seq::<char>::empty() =~= v);
}


/// Each of `s` quoted.
pub open spec fn quoted_all(s: Seq<Seq<char>>) -> Seq<Seq<char>> {
    Seq::new(s.len(), |i: int| sh_quoted(s[i]))
}

/// Each item quoted for `/bin/sh`.
pub fn quote_all(items: &[String]) -> (r: Vec<String>)
    ensures
        string_views(r@) == quoted_all(string_views(items@)),
{
    let n = items.len();
    let mut r: Vec<String> = Vec::new();
    for i in 0..n
        invariant
            n == items@.len(),
            string_views(r@) == quoted_all(string_views(items@)).take(i as int),
    {
        let q = sh_quote(items[i].as_str());
        assert(string_views(items@)[i as int] == items@[i as int]@);
        let ghost before = string_views(r@);
        let ghost qv = q@;
        r.push(q);
        assert(string_views(r@) =~= before.push(qv));
        assert(string_views(r@) =~= quoted_all(string_views(items@)).take(i + 1));
    }
    assert(quoted_all(string_views(items@)).take(n as int) =~= quoted_all(string_views(items@)));
    r
}

} // verus!
