//! Character-level text primitives shared by the parsers and command builders.
//!
//! Every operation works on `Vec<char>` in executable code and is specified over
//! `Seq<char>`, the view of `&str` and `String`.
use vstd::prelude::*;

verus! {

/// The Unicode `White_Space` property, which `char::is_whitespace` and
/// `str::trim` use.
pub open spec fn is_ws(c: char) -> bool {
    ||| c == '\t'
    ||| c == '\n'
    ||| c == '\u{0B}'
    ||| c == '\u{0C}'
    ||| c == '\r'
    ||| c == ' '
    ||| c == '\u{85}'
    ||| c == '\u{A0}'
    ||| c == '\u{1680}'
    ||| ('\u{2000}' <= c && c <= '\u{200A}')
    ||| c == '\u{2028}'
    ||| c == '\u{2029}'
    ||| c == '\u{202F}'
    ||| c == '\u{205F}'
    ||| c == '\u{3000}'
}

/// Executable form of [`is_ws`].
pub fn char_is_ws(c: char) -> (r: bool)
    ensures
        r == is_ws(c),
{
    c == '\t' || c == '\n' || c == '\u{0B}' || c == '\u{0C}' || c == '\r' || c == ' ' || c
        == '\u{85}' || c == '\u{A0}' || c == '\u{1680}' || ('\u{2000}' <= c && c <= '\u{200A}')
        || c == '\u{2028}' || c == '\u{2029}' || c == '\u{202F}' || c == '\u{205F}' || c
        == '\u{3000}'
}

/// ASCII decimal digit.
pub open spec fn is_digit(c: char) -> bool {
    '0' <= c && c <= '9'
}

/// Leading whitespace removed.
pub open spec fn trim_start(s: Seq<char>) -> Seq<char>
    decreases s.len(),
{
    if s.len() > 0 && is_ws(s[0]) {
        trim_start(s.drop_first())
    } else {
        s
    }
}

/// Trailing whitespace removed.
pub open spec fn trim_end(s: Seq<char>) -> Seq<char>
    decreases s.len(),
{
    if s.len() > 0 && is_ws(s.last()) {
        trim_end(s.drop_last())
    } else {
        s
    }
}

/// Leading and trailing whitespace removed, as `str::trim` does.
pub open spec fn trim(s: Seq<char>) -> Seq<char> {
    trim_end(trim_start(s))
}

/// `p` is a prefix of `s`.
pub open spec fn starts_with(s: Seq<char>, p: Seq<char>) -> bool {
    p.len() <= s.len() && s.subrange(0, p.len() as int) == p
}

/// `p` is a suffix of `s`.
pub open spec fn ends_with(s: Seq<char>, p: Seq<char>) -> bool {
    p.len() <= s.len() && s.subrange(s.len() - p.len(), s.len() as int) == p
}

/// `p` occurs in `s` at position `i`.
pub open spec fn occurs_at(s: Seq<char>, p: Seq<char>, i: int) -> bool {
    0 <= i && i + p.len() <= s.len() && s.subrange(i, i + p.len()) == p
}

/// `p` occurs somewhere in `s`, as `str::contains` tests.
pub open spec fn contains(s: Seq<char>, p: Seq<char>) -> bool {
    exists|i: int| occurs_at(s, p, i)
}

/// The pieces of `s` between occurrences of `sep`, as `str::split(sep)` yields
/// them: there is always at least one piece.
pub open spec fn split_on(s: Seq<char>, sep: char) -> Seq<Seq<char>>
    decreases s.len(),
{
    if s.len() == 0 {
        seq![Seq::<char>::empty()]
    } else {
        let r = split_on(s.drop_last(), sep);
        if s.last() == sep {
            r.push(Seq::<char>::empty())
        } else {
            r.update(r.len() - 1, r.last().push(s.last()))
        }
    }
}

/// Drops one trailing `'\r'`.
pub open spec fn strip_cr(s: Seq<char>) -> Seq<char> {
    if s.len() > 0 && s.last() == '\r' {
        s.drop_last()
    } else {
        s
    }
}

/// The lines of `s`, as `str::lines` yields them: pieces between `'\n'`, a
/// `'\r'` before a `'\n'` removed, no final empty line after a trailing `'\n'`.
pub open spec fn lines(s: Seq<char>) -> Seq<Seq<char>> {
    let p = split_on(s, '\n');
    let k = if p.last().len() == 0 {
        p.len() - 1
    } else {
        p.len() as int
    };
    Seq::new(
        k as nat,
        |i: int|
            if i < p.len() - 1 {
                strip_cr(p[i])
            } else {
                p[i]
            },
    )
}

/// The whitespace-separated words of `s`, as `str::split_whitespace` yields
/// them.
pub open spec fn words(s: Seq<char>) -> Seq<Seq<char>>
    decreases s.len(),
{
    if s.len() == 0 {
        Seq::empty()
    } else {
        let w = words(s.drop_last());
        let c = s.last();
        if is_ws(c) {
            w
        } else if s.len() == 1 || is_ws(s[s.len() - 2]) {
            w.push(seq![c])
        } else {
            w.update(w.len() - 1, w.last().push(c))
        }
    }
}

/// Lower-case mapping of a string, as `str::to_lowercase` computes it
/// (the full Unicode case mapping of the standard library).
pub uninterp spec fn lowercase(s: Seq<char>) -> Seq<char>;

/// Calls `str::to_lowercase`; its result is named by [`lowercase`]. On text
/// made only of ASCII characters the Unicode lower-case mapping is the ASCII
/// one (`A`-`Z` to `a`-`z`, everything else kept), and the contract says so;
/// of other text it says no more than the name.
#[verifier::external_body]
pub fn to_lowercase(s: &str) -> (r: String)
    ensures
        r@ == lowercase(s@),
        (forall|i: int| 0 <= i < s@.len() ==> #[trigger] s@[i] <= '\u{7F}') ==> r@
            == ascii_lower(s@),
{
    s.to_lowercase()
}

/// Calls `String::push`, which appends one character.
#[verifier::external_body]
pub fn push_char(s: &mut String, c: char)
    ensures
        final(s)@ == old(s)@.push(c),
{
    s.push(c)
}

/// The characters of `s`.
pub fn chars_of(s: &str) -> (v: Vec<char>)
    ensures
        v@ == s@,
{
    let mut v: Vec<char> = Vec::new();
    for c in it: s.chars()
        invariant
            v@ == it.seq().take(it.index() as int),
            it.seq() == s@,
    {
        v.push(c);
    }
    v
}

/// A `String` holding the characters of `v`.
pub fn string_of(v: &[char]) -> (r: String)
    ensures
        r@ == v@,
{
    let mut r = String::new();
    let n = v.len();
    for i in 0..n
        invariant
            n == v@.len(),
            r@ == v@.take(i as int),
    {
        push_char(&mut r, v[i]);
        assert(v@.take(i + 1) == v@.take(i as int).push(v@[i as int]));
    }
    assert(v@.take(n as int) == v@);
    r
}

/// `a` followed by `b`.
pub fn concat(a: &str, b: &str) -> (r: String)
    ensures
        r@ == a@ + b@,
{
    let mut r = a.to_owned();
    r.append(b);
    r
}

/// The characters `v[a..b]`.
pub fn slice_of(v: &[char], a: usize, b: usize) -> (r: Vec<char>)
    requires
        a <= b <= v@.len(),
    ensures
        r@ == v@.subrange(a as int, b as int),
{
    let mut r: Vec<char> = Vec::new();
    let mut i = a;
    while i < b
        invariant
            a <= i <= b <= v@.len(),
            r@ == v@.subrange(a as int, i as int),
        decreases b - i,
    {
        r.push(v[i]);
        assert(v@.subrange(a as int, i + 1) == v@.subrange(a as int, i as int).push(v@[i as int]));
        i += 1;
    }
    r
}

/// Whether `v` and `w` hold the same characters.
pub fn same(v: &[char], w: &[char]) -> (r: bool)
    ensures
        r == (v@ == w@),
{
    if v.len() != w.len() {
        return false;
    }
    let n = v.len();
    for i in 0..n
        invariant
            n == v@.len(),
            n == w@.len(),
            forall|j: int| 0 <= j < i ==> v@[j] == w@[j],
    {
        if v[i] != w[i] {
            return false;
        }
    }
    assert(v@ =~= w@);
    true
}

/// Whether `p` occurs in `v` at position `i`.
pub fn matches_at(v: &[char], p: &[char], i: usize) -> (r: bool)
    ensures
        r == occurs_at(v@, p@, i as int),
{
    if i > v.len() || p.len() > v.len() - i {
        return false;
    }
    let m = p.len();
    for j in 0..m
        invariant
            m == p@.len(),
            i + m <= v.len(),
            forall|k: int| 0 <= k < j ==> v@[i + k] == p@[k],
    {
        if v[i + j] != p[j] {
            assert(v@.subrange(i as int, i + m)[j as int] != p@[j as int]);
            return false;
        }
    }
    assert(v@.subrange(i as int, i + m) =~= p@);
    true
}

/// Whether `v` starts with `p`.
pub fn has_prefix(v: &[char], p: &[char]) -> (r: bool)
    ensures
        r == starts_with(v@, p@),
{
    matches_at(v, p, 0)
}

/// Whether `p` occurs in `v`.
pub fn has_infix(v: &[char], p: &[char]) -> (r: bool)
    ensures
        r == contains(v@, p@),
{
    if p.len() > v.len() {
        return false;
    }
    let last = v.len() - p.len();
    for i in 0..last
        invariant
            last == v@.len() - p@.len(),
            p@.len() <= v@.len(),
            forall|j: int| 0 <= j < i ==> !occurs_at(v@, p@, j),
    {
        if matches_at(v, p, i) {
            return true;
        }
    }
    matches_at(v, p, last)
}

/// Whether the string `s` contains the character `c`.
pub fn has_char(v: &[char], c: char) -> (r: bool)
    ensures
        r == v@.contains(c),
{
    let n = v.len();
    for i in 0..n
        invariant
            n == v@.len(),
            forall|j: int| 0 <= j < i ==> v@[j] != c,
    {
        if v[i] == c {
            return true;
        }
    }
    false
}


/// The character sequences held by a vector of character vectors.
pub open spec fn views_of(v: Seq<Vec<char>>) -> Seq<Seq<char>> {
    Seq::new(v.len(), |i: int| v[i]@)
}

/// Views of nested character vectors.
pub trait NestedView {
    spec fn views(&self) -> Seq<Seq<char>>;
}

impl NestedView for Vec<Vec<char>> {
    open spec fn views(&self) -> Seq<Seq<char>> {
        views_of(self@)
    }
}

/// Position of the first `c` in `s`, or -1.
pub open spec fn find_char(s: Seq<char>, c: char) -> int
    decreases s.len(),
{
    if s.len() == 0 {
        -1
    } else if s[0] == c {
        0
    } else {
        let r = find_char(s.drop_first(), c);
        if r < 0 {
            -1
        } else {
            r + 1
        }
    }
}

/// Position of the last `c` in `s`, or -1.
pub open spec fn rfind_char(s: Seq<char>, c: char) -> int
    decreases s.len(),
{
    if s.len() == 0 {
        -1
    } else if s.last() == c {
        s.len() - 1
    } else {
        rfind_char(s.drop_last(), c)
    }
}

pub proof fn lemma_find_char(s: Seq<char>, c: char, i: int)
    requires
        0 <= i <= s.len(),
        forall|j: int| 0 <= j < i ==> s[j] != c,
    ensures
        i < s.len() && s[i] == c ==> find_char(s, c) == i,
        i == s.len() ==> find_char(s, c) == -1,
    decreases i,
{
    if i > 0 {
        lemma_find_char(s.drop_first(), c, i - 1);
    }
}

pub proof fn lemma_rfind_char(s: Seq<char>, c: char, k: int)
    requires
        0 <= k <= s.len(),
        forall|j: int| k <= j < s.len() ==> s[j] != c,
    ensures
        k > 0 && s[k - 1] == c ==> rfind_char(s, c) == k - 1,
        k == 0 ==> rfind_char(s, c) == -1,
    decreases s.len() - k,
{
    if k < s.len() {
        lemma_rfind_char(s.drop_last(), c, k);
    }
}

/// Index of the first `c` in `v`, if any.
pub fn find(v: &[char], c: char) -> (r: Option<usize>)
    ensures
        match r {
            Some(i) => find_char(v@, c) == i as int && i < v@.len(),
            None => find_char(v@, c) == -1,
        },
{
    let n = v.len();
    for i in 0..n
        invariant
            n == v@.len(),
            forall|j: int| 0 <= j < i ==> v@[j] != c,
    {
        if v[i] == c {
            proof {
                lemma_find_char(v@, c, i as int);
            }
            return Some(i);
        }
    }
    proof {
        lemma_find_char(v@, c, n as int);
    }
    None
}

/// Index of the last `c` in `v`, if any.
pub fn rfind(v: &[char], c: char) -> (r: Option<usize>)
    ensures
        match r {
            Some(i) => rfind_char(v@, c) == i as int && i < v@.len(),
            None => rfind_char(v@, c) == -1,
        },
{
    let mut k = v.len();
    while k > 0
        invariant
            k <= v@.len(),
            forall|j: int| k <= j < v@.len() ==> v@[j] != c,
        decreases k,
    {
        if v[k - 1] == c {
            proof {
                lemma_rfind_char(v@, c, k as int);
            }
            return Some(k - 1);
        }
        k -= 1;
    }
    proof {
        lemma_rfind_char(v@, c, 0);
    }
    None
}

pub proof fn lemma_trim_start_skip(s: Seq<char>, i: int)
    requires
        0 <= i <= s.len(),
        forall|j: int| 0 <= j < i ==> is_ws(s[j]),
    ensures
        trim_start(s) == trim_start(s.subrange(i, s.len() as int)),
    decreases i,
{
    if i > 0 {
        lemma_trim_start_skip(s.drop_first(), i - 1);
        assert(s.drop_first().subrange(i - 1, s.len() - 1) =~= s.subrange(i, s.len() as int));
    } else {
        assert(s.subrange(0, s.len() as int) =~= s);
    }
}

/// `trim_start` keeps a suffix of its input, one that does not start with
/// whitespace.
pub proof fn lemma_trim_start_suffix(s: Seq<char>)
    ensures
        trim_start(s).len() <= s.len(),
        trim_start(s) == s.subrange(s.len() - trim_start(s).len(), s.len() as int),
        trim_start(s).len() > 0 ==> !is_ws(trim_start(s)[0]),
    decreases s.len(),
{
    if s.len() > 0 && is_ws(s[0]) {
        lemma_trim_start_suffix(s.drop_first());
        let k = trim_start(s).len();
        assert(s.drop_first().subrange(s.len() - 1 - k, s.len() - 1) =~= s.subrange(
            s.len() - k,
            s.len() as int,
        ));
    } else {
        assert(s.subrange(0, s.len() as int) =~= s);
    }
}

/// `trim_end` keeps a prefix of its input, one that does not end with
/// whitespace.
pub proof fn lemma_trim_end_prefix(s: Seq<char>)
    ensures
        trim_end(s).len() <= s.len(),
        trim_end(s) == s.take(trim_end(s).len() as int),
        trim_end(s).len() > 0 ==> !is_ws(trim_end(s).last()),
    decreases s.len(),
{
    if s.len() > 0 && is_ws(s.last()) {
        lemma_trim_end_prefix(s.drop_last());
        let k = trim_end(s).len();
        assert(s.drop_last().take(k as int) =~= s.take(k as int));
    } else {
        assert(s.take(s.len() as int) =~= s);
    }
}

/// Trimming twice is trimming once.
pub proof fn lemma_trim_idempotent(s: Seq<char>)
    ensures
        trim(trim(s)) == trim(s),
{
    let y = trim_start(s);
    lemma_trim_start_suffix(s);
    lemma_trim_end_prefix(y);
    let z = trim_end(y);
    if z.len() > 0 {
        assert(z[0] == y[0]);
    }
    assert(trim_start(z) == z);
    assert(trim_end(z) == z);
}

pub proof fn lemma_trim_end_skip(s: Seq<char>, k: int)
    requires
        0 <= k <= s.len(),
        forall|j: int| k <= j < s.len() ==> is_ws(s[j]),
    ensures
        trim_end(s) == trim_end(s.subrange(0, k)),
    decreases s.len() - k,
{
    if k < s.len() {
        lemma_trim_end_skip(s.drop_last(), k);
        assert(s.drop_last().subrange(0, k) =~= s.subrange(0, k));
    } else {
        assert(s.subrange(0, k) =~= s);
    }
}

/// `v` with leading and trailing whitespace removed.
pub fn trimmed(v: &[char]) -> (r: Vec<char>)
    ensures
        r@ == trim(v@),
{
    let n = v.len();
    let mut lo: usize = 0;
    while lo < n && char_is_ws(v[lo])
        invariant
            lo <= n == v@.len(),
            forall|j: int| 0 <= j < lo ==> is_ws(v@[j]),
        decreases n - lo,
    {
        lo += 1;
    }
    let ghost t = v@.subrange(lo as int, n as int);
    proof {
        lemma_trim_start_skip(v@, lo as int);
    }
    assert(trim_start(v@) == t);
    let mut hi: usize = n;
    while hi > lo && char_is_ws(v[hi - 1])
        invariant
            lo <= hi <= n == v@.len(),
            t == v@.subrange(lo as int, n as int),
            forall|j: int| hi <= j < n ==> is_ws(v@[j]),
        decreases hi,
    {
        hi -= 1;
    }
    proof {
        lemma_trim_end_skip(t, hi - lo);
        assert(t.subrange(0, hi - lo) =~= v@.subrange(lo as int, hi as int));
    }
    slice_of(v, lo, hi)
}

/// The pieces of `v` between occurrences of `sep`.
pub fn split(v: &[char], sep: char) -> (r: Vec<Vec<char>>)
    ensures
        r.views() == split_on(v@, sep),
{
    let n = v.len();
    let mut pieces: Vec<Vec<char>> = Vec::new();
    let mut cur: Vec<char> = Vec::new();
    for i in 0..n
        invariant
            n == v@.len(),
            pieces.views().push(cur@) == split_on(v@.take(i as int), sep),
    {
        let ghost before = v@.take(i as int);
        assert(v@.take(i + 1).drop_last() =~= before);
        if v[i] == sep {
            pieces.push(cur);
            cur = Vec::new();
        } else {
            cur.push(v[i]);
        }
        assert(pieces.views().push(cur@) =~= split_on(v@.take(i + 1), sep));
    }
    assert(v@.take(n as int) =~= v@);
    pieces.push(cur);
    pieces
}

/// The lines of `v`.
pub fn lines_of(v: &[char]) -> (r: Vec<Vec<char>>)
    ensures
        r.views() == lines(v@),
{
    let p = split(v, '\n');
    let ghost pv = split_on(v@, '\n');
    proof {
        lemma_split_nonempty(v@, '\n');
    }
    let np = p.len();
    let k = if p[np - 1].len() == 0 {
        np - 1
    } else {
        np
    };
    let mut r: Vec<Vec<char>> = Vec::new();
    for i in 0..k
        invariant
            np == p@.len(),
            p.views() == pv,
            pv == split_on(v@, '\n'),
            k <= np,
            r.views() =~= lines(v@).take(i as int),
            lines(v@).len() == k,
    {
        let line = &p[i];
        let m = line.len();
        assert(line@ == pv[i as int]);
        assert(lines(v@)[i as int] == (if (i as int) < pv.len() - 1 {
            strip_cr(pv[i as int])
        } else {
            pv[i as int]
        }));
        let ghost old_r = r.views();
        let piece = if i + 1 < np && m > 0 && line[m - 1] == '\r' {
            assert(line@.subrange(0, m - 1) =~= line@.drop_last());
            slice_of(line, 0, m - 1)
        } else {
            assert(line@.subrange(0, m as int) =~= line@);
            slice_of(line, 0, m)
        };
        assert(piece@ == lines(v@)[i as int]);
        r.push(piece);
        assert(r.views() =~= old_r.push(lines(v@)[i as int]));
        assert(r.views() =~= lines(v@).take(i + 1));
    }
    assert(lines(v@).take(k as int) =~= lines(v@));
    r
}

pub proof fn lemma_split_nonempty(s: Seq<char>, sep: char)
    ensures
        split_on(s, sep).len() >= 1,
    decreases s.len(),
{
    if s.len() > 0 {
        lemma_split_nonempty(s.drop_last(), sep);
    }
}

/// The whitespace-separated words of `v`.
pub fn words_of(v: &[char]) -> (r: Vec<Vec<char>>)
    ensures
        r.views() == words(v@),
{
    let n = v.len();
    let mut out: Vec<Vec<char>> = Vec::new();
    let mut cur: Vec<char> = Vec::new();
    let mut in_word = false;
    for i in 0..n
        invariant
            n == v@.len(),
            in_word ==> out.views().push(cur@) == words(v@.take(i as int)) && i > 0 && !is_ws(
                v@[i - 1],
            ),
            !in_word ==> out.views() == words(v@.take(i as int)) && cur@.len() == 0 && (i
                == 0 || is_ws(v@[i - 1])),
    {
        let ghost before = v@.take(i as int);
        assert(v@.take(i + 1).drop_last() =~= before);
        let c = v[i];
        let ghost old_cur = cur@;
        let ghost was_in = in_word;
        let ghost t = v@.take(i + 1);
        assert(t.last() == c);
        assert(i > 0 ==> t[t.len() - 2] == v@[i - 1]);
        if char_is_ws(c) {
            if in_word {
                out.push(cur);
                cur = Vec::new();
                in_word = false;
            }
        } else {
            cur.push(c);
            in_word = true;
        }
        proof {
            if in_word {
                if was_in {
                    assert(cur@ == old_cur.push(c));
                    assert(words(t) == words(before).update(words(before).len() - 1, words(before).last().push(c)));
                } else {
                    assert(cur@ =~= seq![c]);
                    assert(words(t) == words(before).push(seq![c]));
                }
                assert(out.views().push(cur@) =~= words(v@.take(i + 1)));
            } else {
                assert(out.views() =~= words(v@.take(i + 1)));
            }
        }
    }
    assert(v@.take(n as int) =~= v@);
    if in_word {
        out.push(cur);
    }
    out
}


/// The character of a decimal digit value.
pub open spec fn digit_char(d: int) -> char {
    if d <= 0 {
        '0'
    } else if d == 1 {
        '1'
    } else if d == 2 {
        '2'
    } else if d == 3 {
        '3'
    } else if d == 4 {
        '4'
    } else if d == 5 {
        '5'
    } else if d == 6 {
        '6'
    } else if d == 7 {
        '7'
    } else if d == 8 {
        '8'
    } else {
        '9'
    }
}

/// Decimal notation of a natural number, without leading zeros.
pub open spec fn decimal(n: nat) -> Seq<char>
    decreases n,
{
    if n < 10 {
        seq![digit_char(n as int)]
    } else {
        decimal(n / 10).push(digit_char((n % 10) as int))
    }
}

/// Decimal notation of an integer, with a leading `-` when negative, as
/// `Display` writes integers.
pub open spec fn int_text(v: int) -> Seq<char> {
    if v < 0 {
        seq!['-'] + decimal((-v) as nat)
    } else {
        decimal(v as nat)
    }
}

fn digit(d: u64) -> (c: char)
    requires
        d < 10,
    ensures
        c == digit_char(d as int),
{
    match d {
        0 => '0',
        1 => '1',
        2 => '2',
        3 => '3',
        4 => '4',
        5 => '5',
        6 => '6',
        7 => '7',
        8 => '8',
        _ => '9',
    }
}

/// Decimal notation of `n`.
pub fn u64_text(n: u64) -> (r: String)
    ensures
        r@ == decimal(n as nat),
    decreases n,
{
    if n < 10 {
        let mut r = String::new();
        push_char(&mut r, digit(n));
        r
    } else {
        let mut r = u64_text(n / 10);
        push_char(&mut r, digit(n % 10));
        r
    }
}

/// Decimal notation of `v`, as `Display` writes it.
pub fn i64_text(v: i64) -> (r: String)
    requires
        v > i64::MIN,
    ensures
        r@ == int_text(v as int),
{
    if v < 0 {
        let mut r = String::new();
        push_char(&mut r, '-');
        let d = u64_text((-v) as u64);
        r.append(d.as_str());
        r
    } else {
        u64_text(v as u64)
    }
}

/// Whether `a` and `b` hold the same text.
pub fn str_eq(a: &str, b: &str) -> (r: bool)
    ensures
        r == (a@ == b@),
{
    let x = chars_of(a);
    let y = chars_of(b);
    same(&x, &y)
}

/// Whether the text `a` contains the text `p`.
pub fn str_contains(a: &str, p: &str) -> (r: bool)
    ensures
        r == contains(a@, p@),
{
    let x = chars_of(a);
    let y = chars_of(p);
    has_infix(&x, &y)
}

/// A copy of an optional string.
pub fn copy_opt(o: &Option<String>) -> (r: Option<String>)
    ensures
        r == *o,
{
    match o {
        Some(s) => Some(s.clone()),
        None => None,
    }
}


/// The views of a sequence of strings.
pub open spec fn string_views(v: Seq<String>) -> Seq<Seq<char>> {
    Seq::new(v.len(), |i: int| v[i]@)
}

/// `s` with every `c` replaced by `with`.
pub open spec fn replace_char(s: Seq<char>, c: char, with: Seq<char>) -> Seq<char>
    decreases s.len(),
{
    if s.len() == 0 {
        s
    } else {
        let r = replace_char(s.drop_last(), c, with);
        if s.last() == c {
            r + with
        } else {
            r.push(s.last())
        }
    }
}

/// `v` with every `c` replaced by the text `with`, as `str::replace` does for
/// a one-character pattern.
pub fn replaced(v: &[char], c: char, with: &str) -> (r: String)
    ensures
        r@ == replace_char(v@, c, with@),
{
    let n = v.len();
    let mut r = String::new();
    for i in 0..n
        invariant
            n == v@.len(),
            r@ == replace_char(v@.take(i as int), c, with@),
    {
        assert(v@.take(i + 1).drop_last() =~= v@.take(i as int));
        if v[i] == c {
            r.append(with);
        } else {
            push_char(&mut r, v[i]);
        }
    }
    assert(v@.take(n as int) =~= v@);
    r
}

/// A vector of the given strings.
pub fn string_vec(items: &[&str]) -> (r: Vec<String>)
    ensures
        r@.len() == items@.len(),
        forall|i: int| 0 <= i < items@.len() ==> (#[trigger] r@[i])@ == items@[i]@,
{
    let mut r: Vec<String> = Vec::new();
    let n = items.len();
    for i in 0..n
        invariant
            n == items@.len(),
            r@.len() == i,
            forall|j: int| 0 <= j < i ==> (#[trigger] r@[j])@ == items@[j]@,
    {
        r.push(items[i].to_owned());
    }
    r
}


/// Leading `c` characters removed.
pub open spec fn strip_start(s: Seq<char>, c: char) -> Seq<char>
    decreases s.len(),
{
    if s.len() > 0 && s[0] == c {
        strip_start(s.drop_first(), c)
    } else {
        s
    }
}

/// Trailing `c` characters removed.
pub open spec fn strip_end(s: Seq<char>, c: char) -> Seq<char>
    decreases s.len(),
{
    if s.len() > 0 && s.last() == c {
        strip_end(s.drop_last(), c)
    } else {
        s
    }
}

/// Leading and trailing `c` removed, as `str::trim_matches(c)` does.
pub open spec fn strip(s: Seq<char>, c: char) -> Seq<char> {
    strip_end(strip_start(s, c), c)
}

pub proof fn lemma_strip_start_skip(s: Seq<char>, c: char, i: int)
    requires
        0 <= i <= s.len(),
        forall|j: int| 0 <= j < i ==> s[j] == c,
    ensures
        strip_start(s, c) == strip_start(s.subrange(i, s.len() as int), c),
    decreases i,
{
    if i > 0 {
        lemma_strip_start_skip(s.drop_first(), c, i - 1);
        assert(s.drop_first().subrange(i - 1, s.len() - 1) =~= s.subrange(i, s.len() as int));
    } else {
        assert(s.subrange(0, s.len() as int) =~= s);
    }
}

pub proof fn lemma_strip_end_skip(s: Seq<char>, c: char, k: int)
    requires
        0 <= k <= s.len(),
        forall|j: int| k <= j < s.len() ==> s[j] == c,
    ensures
        strip_end(s, c) == strip_end(s.subrange(0, k), c),
    decreases s.len() - k,
{
    if k < s.len() {
        lemma_strip_end_skip(s.drop_last(), c, k);
        assert(s.drop_last().subrange(0, k) =~= s.subrange(0, k));
    } else {
        assert(s.subrange(0, k) =~= s);
    }
}

/// `v` with leading and trailing `c` removed.
pub fn stripped(v: &[char], c: char) -> (r: Vec<char>)
    ensures
        r@ == strip(v@, c),
{
    let n = v.len();
    let mut lo: usize = 0;
    while lo < n && v[lo] == c
        invariant
            lo <= n == v@.len(),
            forall|j: int| 0 <= j < lo ==> v@[j] == c,
        decreases n - lo,
    {
        lo += 1;
    }
    let ghost t = v@.subrange(lo as int, n as int);
    proof {
        lemma_strip_start_skip(v@, c, lo as int);
    }
    let mut hi: usize = n;
    while hi > lo && v[hi - 1] == c
        invariant
            lo <= hi <= n == v@.len(),
            t == v@.subrange(lo as int, n as int),
            forall|j: int| hi <= j < n ==> v@[j] == c,
        decreases hi,
    {
        hi -= 1;
    }
    proof {
        lemma_strip_end_skip(t, c, hi - lo);
        assert(t.subrange(0, hi - lo) =~= v@.subrange(lo as int, hi as int));
    }
    slice_of(v, lo, hi)
}

/// Text before the first `c` and text after it, when `s` holds a `c`, as
/// `str::split_once(c)` gives them.
pub open spec fn split_once(s: Seq<char>, c: char) -> Option<(Seq<char>, Seq<char>)> {
    let k = find_char(s, c);
    if k < 0 {
        None
    } else {
        Some((s.subrange(0, k), s.subrange(k + 1, s.len() as int)))
    }
}

/// The parts of `v` around its first `c`.
pub fn split_once_at(v: &[char], c: char) -> (r: Option<(Vec<char>, Vec<char>)>)
    ensures
        match r {
            Some((a, b)) => split_once(v@, c) == Some((a@, b@)),
            None => split_once(v@, c) is None,
        },
{
    match find(v, c) {
        Some(k) => {
            let n = v.len();
            Some((slice_of(v, 0, k), slice_of(v, k + 1, n)))
        },
        None => None,
    }
}


/// ASCII upper-case letters mapped to lower case, other characters kept, as
/// `char::to_ascii_lowercase` does.
pub open spec fn ascii_lower_char(c: char) -> char {
    if 'A' <= c && c <= 'Z' {
        ((c as u32) + 32) as char
    } else {
        c
    }
}

/// `s` with ASCII letters in lower case, as `str::to_ascii_lowercase` makes it.
pub open spec fn ascii_lower(s: Seq<char>) -> Seq<char> {
    Seq::new(s.len(), |i: int| ascii_lower_char(s[i]))
}

/// `v` with ASCII letters in lower case.
pub fn ascii_lowered(v: &[char]) -> (r: Vec<char>)
    ensures
        r@ == ascii_lower(v@),
{
    let n = v.len();
    let mut r: Vec<char> = Vec::new();
    for i in 0..n
        invariant
            n == v@.len(),
            r@ == ascii_lower(v@.take(i as int)),
    {
        let c = v[i];
        let d = if 'A' <= c && c <= 'Z' {
            let b: u8 = (c as u32) as u8;
            assert(0x41 <= b <= 0x5A);
            (b + 32) as char
        } else {
            c
        };
        r.push(d);
        assert(ascii_lower(v@.take(i + 1)) =~= ascii_lower(v@.take(i as int)).push(d));
    }
    assert(v@.take(n as int) =~= v@);
    r
}

/// Leading and trailing characters removed while they are in `set`
/// (`strip_members`) or outside it (`!strip_members`), as `str::trim_matches`
/// does with a character predicate.
pub open spec fn strip_set(s: Seq<char>, set: Seq<char>, strip_members: bool) -> Seq<char>
    decreases s.len(),
{
    if s.len() > 0 && set.contains(s[0]) == strip_members {
        strip_set(s.drop_first(), set, strip_members)
    } else {
        strip_set_end(s, set, strip_members)
    }
}

/// Trailing characters removed while they are in `set` (`strip_members`) or
/// outside it (`!strip_members`).
pub open spec fn strip_set_end(s: Seq<char>, set: Seq<char>, strip_members: bool) -> Seq<char>
    decreases s.len(),
{
    if s.len() > 0 && set.contains(s.last()) == strip_members {
        strip_set_end(s.drop_last(), set, strip_members)
    } else {
        s
    }
}

proof fn lemma_strip_set_start(s: Seq<char>, set: Seq<char>, m: bool, i: int)
    requires
        0 <= i <= s.len(),
        forall|j: int| 0 <= j < i ==> set.contains(#[trigger] s[j]) == m,
        i == s.len() || set.contains(s[i]) != m,
    ensures
        strip_set(s, set, m) == strip_set_end(s.subrange(i, s.len() as int), set, m),
    decreases i,
{
    if i > 0 {
        lemma_strip_set_start(s.drop_first(), set, m, i - 1);
        assert(s.drop_first().subrange(i - 1, s.len() - 1) =~= s.subrange(i, s.len() as int));
    } else {
        assert(s.subrange(0, s.len() as int) =~= s);
    }
}

proof fn lemma_strip_set_end(s: Seq<char>, set: Seq<char>, m: bool, k: int)
    requires
        0 <= k <= s.len(),
        forall|j: int| k <= j < s.len() ==> set.contains(#[trigger] s[j]) == m,
        k == 0 || set.contains(s[k - 1]) != m,
    ensures
        strip_set_end(s, set, m) == s.subrange(0, k),
    decreases s.len() - k,
{
    if k < s.len() {
        lemma_strip_set_end(s.drop_last(), set, m, k);
        assert(s.drop_last().subrange(0, k) =~= s.subrange(0, k));
    } else {
        assert(s.subrange(0, k) =~= s);
    }
}

/// `v` with leading and trailing characters removed while they are in `set`
/// (`strip_members`) or outside it.
pub fn stripped_set(v: &[char], set: &[char], strip_members: bool) -> (r: Vec<char>)
    ensures
        r@ == strip_set(v@, set@, strip_members),
{
    let n = v.len();
    let mut lo: usize = 0;
    while lo < n && has_char(set, v[lo]) == strip_members
        invariant
            lo <= n == v@.len(),
            forall|j: int| 0 <= j < lo ==> set@.contains(#[trigger] v@[j]) == strip_members,
        decreases n - lo,
    {
        lo += 1;
    }
    let ghost t = v@.subrange(lo as int, n as int);
    proof {
        lemma_strip_set_start(v@, set@, strip_members, lo as int);
    }
    let mut hi: usize = n;
    while hi > lo && has_char(set, v[hi - 1]) == strip_members
        invariant
            lo <= hi <= n == v@.len(),
            t == v@.subrange(lo as int, n as int),
            forall|j: int| hi <= j < n ==> set@.contains(#[trigger] v@[j]) == strip_members,
        decreases hi,
    {
        hi -= 1;
    }
    proof {
        assert forall|j: int| hi - lo <= j < t.len() implies set@.contains(#[trigger] t[j])
            == strip_members by {
            assert(t[j] == v@[lo + j]);
        }
        if hi > lo {
            assert(t[hi - lo - 1] == v@[hi - 1]);
        }
        lemma_strip_set_end(t, set@, strip_members, hi - lo);
        assert(t.subrange(0, hi - lo) =~= v@.subrange(lo as int, hi as int));
    }
    slice_of(v, lo, hi)
}

/// `s` with the suffix `p` removed as long as it ends with it, as
/// `str::trim_end_matches(p)` does.
pub open spec fn strip_suffixes(s: Seq<char>, p: Seq<char>) -> Seq<char>
    decreases s.len(),
{
    if p.len() > 0 && ends_with(s, p) {
        strip_suffixes(s.subrange(0, s.len() - p.len()), p)
    } else {
        s
    }
}

/// `v` with the suffix `p` removed as long as it ends with it.
pub fn stripped_suffixes(v: &[char], p: &[char]) -> (r: Vec<char>)
    ensures
        r@ == strip_suffixes(v@, p@),
{
    let m = p.len();
    let mut k = v.len();
    if m == 0 {
        return slice_of(v, 0, k);
    }
    assert(v@.subrange(0, k as int) =~= v@);
    while k >= m && matches_at(v, p, k - m)
        invariant
            k <= v@.len(),
            m == p@.len() > 0,
            strip_suffixes(v@, p@) == strip_suffixes(v@.subrange(0, k as int), p@),
        decreases k,
    {
        let ghost s = v@.subrange(0, k as int);
        assert(s.subrange(s.len() - m, s.len() as int) =~= v@.subrange(k - m, k as int));
        assert(s.subrange(0, s.len() - m) =~= v@.subrange(0, k - m));
        k -= m;
    }
    proof {
        let s = v@.subrange(0, k as int);
        if k >= m {
            assert(s.subrange(s.len() - m, s.len() as int) =~= v@.subrange(k - m, k as int));
        }
    }
    slice_of(v, 0, k)
}


/// The parts joined with `sep` between each two, as `[String]::join` does.
pub open spec fn join(parts: Seq<Seq<char>>, sep: Seq<char>) -> Seq<char>
    decreases parts.len(),
{
    if parts.len() == 0 {
        Seq::empty()
    } else if parts.len() == 1 {
        parts[0]
    } else {
        join(parts.drop_last(), sep) + sep + parts.last()
    }
}

/// The strings of `parts` joined with `sep` between each two.
pub fn join_strings(parts: &[String], sep: &str) -> (r: String)
    ensures
        r@ == join(string_views(parts@), sep@),
{
    let n = parts.len();
    let mut r = String::new();
    for i in 0..n
        invariant
            n == parts@.len(),
            r@ == join(string_views(parts@).take(i as int), sep@),
    {
        let ghost before = string_views(parts@).take(i as int);
        assert(string_views(parts@).take(i + 1).drop_last() =~= before);
        assert(string_views(parts@).take(i + 1).last() == parts@[i as int]@);
        if i > 0 {
            r.append(sep);
        } else {
            assert(string_views(parts@).take(1) =~= seq![parts@[0]@]);
        }
        r.append(parts[i].as_str());
    }
    assert(string_views(parts@).take(n as int) =~= string_views(parts@));
    r
}


/// The optional text as a sequence.
pub open spec fn opt_view(o: Option<&str>) -> Option<Seq<char>> {
    match o {
        Some(s) => Some(s@),
        None => None,
    }
}

/// The text of an optional string.
pub fn opt_str(o: &Option<String>) -> (r: Option<&str>)
    ensures
        opt_view(r) == o.deep_view(),
{
    match o {
        Some(s) => Some(s.as_str()),
        None => None,
    }
}

} // verus!
