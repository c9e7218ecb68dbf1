//! Character-level helpers over `Seq<char>`, with executable counterparts on
//! `Vec<char>` and `String`.
use vstd::prelude::*;

verus! {

/// The characters that Rust's `char::is_whitespace` accepts (Unicode `White_Space`).
pub open spec fn is_ws(c: char) -> bool {
    c == '\t' || c == '\n' || c == '\u{0B}' || c == '\u{0C}' || c == '\r' || c == ' '
        || c == '\u{85}' || c == '\u{A0}' || c == '\u{1680}' || ('\u{2000}' <= c
        && c <= '\u{200A}') || c == '\u{2028}' || c == '\u{2029}' || c == '\u{202F}'
        || c == '\u{205F}' || c == '\u{3000}'
}

pub fn char_is_ws(c: char) -> (r: bool)
    ensures
        r == is_ws(c),
{
    c == '\t' || c == '\n' || c == '\u{0B}' || c == '\u{0C}' || c == '\r' || c == ' '
        || c == '\u{85}' || c == '\u{A0}' || c == '\u{1680}' || ('\u{2000}' <= c
        && c <= '\u{200A}') || c == '\u{2028}' || c == '\u{2029}' || c == '\u{202F}'
        || c == '\u{205F}' || c == '\u{3000}'
}

pub open spec fn trim_start(s: Seq<char>) -> Seq<char>
    decreases s.len(),
{
    if s.len() > 0 && is_ws(s[0]) {
        trim_start(s.skip(1))
    } else {
        s
    }
}

pub open spec fn trim_end(s: Seq<char>) -> Seq<char>
    decreases s.len(),
{
    if s.len() > 0 && is_ws(s.last()) {
        trim_end(s.drop_last())
    } else {
        s
    }
}

/// `str::trim`: leading and trailing whitespace removed.
pub open spec fn trim(s: Seq<char>) -> Seq<char> {
    trim_end(trim_start(s))
}

/// Index of the first `c` in `s`, or -1.
pub open spec fn find(s: Seq<char>, c: char) -> int
    decreases s.len(),
{
    if s.len() == 0 {
        -1
    } else if s[0] == c {
        0
    } else {
        let k = find(s.skip(1), c);
        if k < 0 {
            -1
        } else {
            k + 1
        }
    }
}

/// `s.split(c)`: the pieces between occurrences of `c`, always at least one.
pub open spec fn split(s: Seq<char>, c: char) -> Seq<Seq<char>>
    decreases s.len(),
{
    let k = find(s, c);
    if k < 0 || k >= s.len() {
        seq![s]
    } else {
        seq![s.take(k)] + split(s.skip(k + 1), c)
    }
}

pub open spec fn starts_with(s: Seq<char>, p: Seq<char>) -> bool {
    p.len() <= s.len() && s.take(p.len() as int) == p
}

pub open spec fn deep(v: Seq<Vec<char>>) -> Seq<Seq<char>> {
    v.map_values(|x: Vec<char>| x@)
}

pub open spec fn strings(v: Seq<String>) -> Seq<Seq<char>> {
    v.map_values(|x: String| x@)
}

/// Removes one pair of matching surrounding quotes (`"` or `'`) from the trimmed text.
pub open spec fn unquote(s: Seq<char>) -> Seq<char> {
    let t = trim(s);
    if t.len() >= 2 && ((t[0] == '"' && t.last() == '"') || (t[0] == '\'' && t.last() == '\'')) {
        t.subrange(1, t.len() - 1)
    } else {
        t
    }
}

pub proof fn lemma_find_bounds(s: Seq<char>, c: char)
    ensures
        -1 <= find(s, c) < s.len(),
        find(s, c) >= 0 ==> s[find(s, c)] == c,
        find(s, c) < 0 ==> forall|j: int| 0 <= j < s.len() ==> s[j] != c,
        forall|j: int| 0 <= j < find(s, c) ==> s[j] != c,
    decreases s.len(),
{
    if s.len() > 0 && s[0] != c {
        lemma_find_bounds(s.skip(1), c);
        assert forall|j: int| 1 <= j < s.len() implies s[j] == s.skip(1)[j - 1] by {}
    }
}

pub open spec fn first_key_at<V>(m: Seq<(Seq<char>, V)>, k: Seq<char>, j: int) -> bool {
    0 <= j < m.len() && m[j].0 == k && forall|i: int| 0 <= i < j ==> m[i].0 != k
}

/// Index of the first entry whose key is `k`, or -1.
pub open spec fn key_index<V>(m: Seq<(Seq<char>, V)>, k: Seq<char>) -> int {
    if exists|j: int| first_key_at(m, k, j) {
        choose|j: int| first_key_at(m, k, j)
    } else {
        -1
    }
}

pub proof fn lemma_key_index<V>(m: Seq<(Seq<char>, V)>, k: Seq<char>, j: int)
    requires
        first_key_at(m, k, j),
    ensures
        key_index(m, k) == j,
{
    let c = choose|c: int| first_key_at(m, k, c);
    if c < j {
        assert(m[c].0 != k);
    } else if c > j {
        assert(m[j].0 != k);
    }
}

pub proof fn lemma_key_absent<V>(m: Seq<(Seq<char>, V)>, k: Seq<char>)
    requires
        forall|i: int| 0 <= i < m.len() ==> m[i].0 != k,
    ensures
        key_index(m, k) == -1,
{
}

/// Relies on `Iterator::collect` into `String`: the characters in order.
#[verifier::external_body]
pub(crate) fn string_of(v: &[char]) -> (r: String)
    ensures
        r@ == v@,
{
    v.iter().collect()
}

pub fn chars_of(s: &str) -> (r: Vec<char>)
    ensures
        r@ == s@,
{
    let n = s.unicode_len();
    let mut r: Vec<char> = Vec::new();
    let mut i: usize = 0;
    while i < n
        invariant
            n == s@.len(),
            i <= n,
            r@ == s@.take(i as int),
        decreases n - i,
    {
        r.push(s.get_char(i));
        i = i + 1;
        assert(r@ =~= s@.take(i as int));
    }
    assert(r@ =~= s@);
    r
}

pub fn eq_chars(a: &[char], b: &[char]) -> (r: bool)
    ensures
        r == (a@ == b@),
{
    if a.len() != b.len() {
        return false;
    }
    let mut i: usize = 0;
    while i < a.len()
        invariant
            a@.len() == b@.len(),
            i <= a@.len(),
            forall|j: int| 0 <= j < i ==> a@[j] == b@[j],
        decreases a@.len() - i,
    {
        if a[i] != b[i] {
            return false;
        }
        i = i + 1;
    }
    assert(a@ =~= b@);
    true
}

/// Whether the characters in `a` spell out `lit`.
pub fn is_lit(a: &[char], lit: &str) -> (r: bool)
    ensures
        r == (a@ == lit@),
{
    let b = chars_of(lit);
    eq_chars(a, b.as_slice())
}

pub fn has_prefix(s: &[char], p: &[char]) -> (r: bool)
    ensures
        r == starts_with(s@, p@),
{
    if p.len() > s.len() {
        return false;
    }
    let mut i: usize = 0;
    while i < p.len()
        invariant
            p@.len() <= s@.len(),
            i <= p@.len(),
            forall|j: int| 0 <= j < i ==> s@[j] == p@[j],
        decreases p@.len() - i,
    {
        if s[i] != p[i] {
            assert(s@.take(p@.len() as int)[i as int] != p@[i as int]);
            return false;
        }
        i = i + 1;
    }
    assert(s@.take(p@.len() as int) =~= p@);
    true
}

pub fn has_lit_prefix(s: &[char], lit: &str) -> (r: bool)
    ensures
        r == starts_with(s@, lit@),
{
    let p = chars_of(lit);
    has_prefix(s, p.as_slice())
}

pub fn slice_chars(s: &[char], lo: usize, hi: usize) -> (r: Vec<char>)
    requires
        lo <= hi <= s@.len(),
    ensures
        r@ == s@.subrange(lo as int, hi as int),
{
    let mut r: Vec<char> = Vec::new();
    let mut i: usize = lo;
    while i < hi
        invariant
            lo <= i <= hi <= s@.len(),
            r@ == s@.subrange(lo as int, i as int),
        decreases hi - i,
    {
        r.push(s[i]);
        i = i + 1;
        assert(r@ =~= s@.subrange(lo as int, i as int));
    }
    r
}

pub fn find_char(s: &[char], c: char) -> (r: Option<usize>)
    ensures
        r is None <==> find(s@, c) < 0,
        r matches Some(k) ==> find(s@, c) == k as int && k < s@.len() && s@[k as int] == c,
{
    proof {
        lemma_find_bounds(s@, c);
    }
    let mut i: usize = 0;
    assert(s@.skip(0) =~= s@);
    while i < s.len()
        invariant
            i <= s@.len(),
            find(s@, c) == (if find(s@.skip(i as int), c) < 0 {
                -1
            } else {
                find(s@.skip(i as int), c) + i
            }),
        decreases s@.len() - i,
    {
        if s[i] == c {
            return Some(i);
        }
        assert(s@.skip(i as int).skip(1) =~= s@.skip(i + 1));
        i = i + 1;
    }
    None
}

pub fn split_chars(s: &[char], c: char) -> (r: Vec<Vec<char>>)
    ensures
        deep(r@) == split(s@, c),
        r@.len() >= 1,
{
    assert(split(s@, c).len() >= 1);
    let mut parts: Vec<Vec<char>> = Vec::new();
    let mut rest: Vec<char> = slice_chars(s, 0, s.len());
    assert(rest@ =~= s@);
    loop
        invariant
            deep(parts@) + split(rest@, c) == split(s@, c),
        decreases rest@.len(),
    {
        let k = find_char(rest.as_slice(), c);
        match k {
            None => {
                let ghost before = parts@;
                parts.push(rest);
                assert(deep(parts@) =~= deep(before) + split(rest@, c));
                assert(parts@.len() == deep(parts@).len());
                return parts;
            },
            Some(k) => {
                proof {
                    lemma_find_bounds(rest@, c);
                }
                let head = slice_chars(rest.as_slice(), 0, k);
                let tail = slice_chars(rest.as_slice(), k + 1, rest.len());
                let ghost before = parts@;
                assert(head@ =~= rest@.take(k as int));
                assert(tail@ =~= rest@.skip(k + 1));
                parts.push(head);
                assert(deep(parts@) =~= deep(before).push(head@));
                assert(deep(parts@) + split(tail@, c) =~= deep(before) + split(rest@, c));
                rest = tail;
            },
        }
    }
}

pub fn trim_chars(s: &[char]) -> (r: Vec<char>)
    ensures
        r@ == trim(s@),
{
    let mut i: usize = 0;
    assert(s@.skip(0) =~= s@);
    while i < s.len() && char_is_ws(s[i])
        invariant
            i <= s@.len(),
            trim_start(s@.skip(i as int)) == trim_start(s@),
        decreases s@.len() - i,
    {
        assert(s@.skip(i as int).skip(1) =~= s@.skip(i + 1));
        i = i + 1;
    }
    assert(trim_start(s@.skip(i as int)) == s@.skip(i as int));
    assert(s@.subrange(i as int, s@.len() as int) =~= s@.skip(i as int));
    let mut j: usize = s.len();
    while j > i && char_is_ws(s[j - 1])
        invariant
            i <= j <= s@.len(),
            trim_end(s@.subrange(i as int, j as int)) == trim(s@),
        decreases j,
    {
        assert(s@.subrange(i as int, j as int).drop_last() =~= s@.subrange(i as int, j - 1));
        j = j - 1;
    }
    assert(trim_end(s@.subrange(i as int, j as int)) == s@.subrange(i as int, j as int));
    slice_chars(s, i, j)
}

/// Trims the text and removes one pair of matching surrounding quotes.
pub fn strip_quotes(val: &str) -> (r: String)
    ensures
        r@ == unquote(val@),
{
    let v = chars_of(val);
    let t = trim_chars(v.as_slice());
    let n = t.len();
    if n >= 2 && ((t[0] == '"' && t[n - 1] == '"') || (t[0] == '\'' && t[n - 1] == '\'')) {
        let inner = slice_chars(t.as_slice(), 1, n - 1);
        string_of(inner.as_slice())
    } else {
        string_of(t.as_slice())
    }
}

} // verus!
