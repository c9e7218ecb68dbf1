//! From a raw launch command to its image, its exec command and its flags.
use vstd::prelude::*;

use crate::bindings::{
    add_value, char_is_numeric, flag_entries, flags_add, flags_new, numeric, regex_removed,
    remove_first_match, FlagsV,
};
use crate::mappings::{is_boolean_flag, is_switch};
use crate::text::{
    char_is_ws, chars_of, find, find_char, is_ws, slice_chars, starts_with, string_of, strings,
    strip_quotes, trim, trim_chars, unquote,
};

pub use crate::builder::build_compose_value;

verus! {

/// The optional engine prefix (`docker run`, `podman create`, ...) that is removed
/// from the front of a command.
pub const ENGINE_PREFIX: &'static str = r"^(?:docker|podman)\s+(?:run|create|container\s+run|service\s+create)\s+";

/// Every occurrence of `pat`, left to right and without overlap, replaced by `rep`.
pub open spec fn replace_all(s: Seq<char>, pat: Seq<char>, rep: Seq<char>) -> Seq<char>
    decreases s.len(),
{
    if s.len() == 0 {
        seq![]
    } else if pat.len() > 0 && starts_with(s, pat) {
        rep + replace_all(s.skip(pat.len() as int), pat, rep)
    } else {
        seq![s[0]] + replace_all(s.skip(1), pat, rep)
    }
}

/// The words of `s` (runs of non-whitespace) joined by single spaces; `started`
/// says a word was already written, `gap` that a space is owed before the next.
pub open spec fn squeeze(s: Seq<char>, started: bool, gap: bool) -> Seq<char>
    decreases s.len(),
{
    if s.len() == 0 {
        seq![]
    } else if is_ws(s[0]) {
        squeeze(s.skip(1), started, started)
    } else {
        (if gap {
            seq![' ']
        } else {
            seq![]
        }) + seq![s[0]] + squeeze(s.skip(1), true, false)
    }
}

/// The command on one line: trimmed, line continuations (backslash and line break)
/// turned into spaces, and every whitespace run collapsed into one space.
pub open spec fn normalized(s: Seq<char>) -> Seq<char> {
    squeeze(
        replace_all(
            replace_all(trim(s), seq!['\\', '\n'], seq![' ']),
            seq!['\\', '\r', '\n'],
            seq![' '],
        ),
        false,
        false,
    )
}

/// No whitespace but single spaces, and none at the start: what [`normalized`]
/// gives.
pub open spec fn single_spaced(t: Seq<char>) -> bool {
    forall|i: int| 0 <= i < t.len() && is_ws(#[trigger] t[i]) ==> t[i] == ' ' && i > 0 && !is_ws(t[i - 1])
}

/// `t` without a leading `docker ` or `podman ` followed by `run `, `create `,
/// `container run ` or `service create `; `t` itself when it has no such prefix.
pub open spec fn engine_stripped(t: Seq<char>) -> Seq<char> {
    if starts_with(t, "docker "@) || starts_with(t, "podman "@) {
        let r = t.skip(7);
        if starts_with(r, "run "@) {
            r.skip(4)
        } else if starts_with(r, "create "@) {
            r.skip(7)
        } else if starts_with(r, "container run "@) {
            r.skip(14)
        } else if starts_with(r, "service create "@) {
            r.skip(15)
        } else {
            t
        }
    } else {
        t
    }
}

proof fn lemma_squeeze(s: Seq<char>, started: bool, gap: bool)
    ensures
        forall|i: int|
            0 <= i < squeeze(s, started, gap).len() && is_ws(#[trigger] squeeze(s, started, gap)[i])
                ==> squeeze(s, started, gap)[i] == ' ' && (i == 0 || !is_ws(
                squeeze(s, started, gap)[i - 1],
            )),
        squeeze(s, started, gap).len() > 0 && is_ws(squeeze(s, started, gap)[0]) ==> started || gap,
    decreases s.len(),
{
    if s.len() > 0 {
        if is_ws(s[0]) {
            lemma_squeeze(s.skip(1), started, started);
            assert(squeeze(s, started, gap) == squeeze(s.skip(1), started, started));
        } else {
            lemma_squeeze(s.skip(1), true, false);
            let rest = squeeze(s.skip(1), true, false);
            let head: Seq<char> = (if gap {
                seq![' ']
            } else {
                seq![]
            }) + seq![s[0]];
            let o = squeeze(s, started, gap);
            assert(o == head + rest);
            assert forall|i: int| 0 <= i < o.len() && is_ws(#[trigger] o[i]) implies o[i] == ' ' && (
            i == 0 || !is_ws(o[i - 1])) by {
                if i < head.len() {
                    if gap {
                        assert(head[0] == ' ');
                        assert(head[1] == s[0]);
                    } else {
                        assert(head[0] == s[0]);
                    }
                } else {
                    assert(o[i] == rest[i - head.len()]);
                    if i > head.len() {
                        assert(o[i - 1] == rest[i - 1 - head.len()]);
                    } else {
                        assert(o[i - 1] == s[0]);
                    }
                }
            }
        }
    }
}

/// The normalized command is single spaced.
pub proof fn lemma_normalized_single_spaced(s: Seq<char>)
    ensures
        single_spaced(normalized(s)),
{
    let t = replace_all(
        replace_all(trim(s), seq!['\\', '\n'], seq![' ']),
        seq!['\\', '\r', '\n'],
        seq![' '],
    );
    lemma_squeeze(t, false, false);
}

/// The shell-like scan: `buf` is the token being read, `inq` whether a quote is
/// open and `q` the quote that opened it. Quotes are kept in the token; a
/// backslash takes the next character literally.
pub open spec fn scan(s: Seq<char>, buf: Seq<char>, inq: bool, q: char) -> Seq<Seq<char>>
    decreases s.len(),
{
    if s.len() == 0 {
        if buf.len() > 0 {
            seq![buf]
        } else {
            seq![]
        }
    } else {
        let c = s[0];
        if c == '\\' {
            if s.len() >= 2 {
                scan(s.skip(2), buf.push(s[1]), inq, q)
            } else {
                scan(s.skip(1), buf, inq, q)
            }
        } else if (c == '"' || c == '\'') && !inq {
            scan(s.skip(1), buf.push(c), true, c)
        } else if c == q && inq {
            scan(s.skip(1), buf.push(c), false, q)
        } else if is_ws(c) && !inq {
            if buf.len() > 0 {
                seq![buf] + scan(s.skip(1), seq![], inq, q)
            } else {
                scan(s.skip(1), buf, inq, q)
            }
        } else {
            scan(s.skip(1), buf.push(c), inq, q)
        }
    }
}

pub open spec fn tokens_of(s: Seq<char>) -> Seq<Seq<char>> {
    scan(s, seq![], false, ' ')
}

/// `--` pairs stripped from the front, as `trim_start_matches("--")` does.
pub open spec fn drop_dash_pairs(s: Seq<char>) -> Seq<char>
    decreases s.len(),
{
    if s.len() >= 2 && s[0] == '-' && s[1] == '-' {
        drop_dash_pairs(s.skip(2))
    } else {
        s
    }
}

pub open spec fn is_long_flag(t: Seq<char>) -> bool {
    t.len() >= 2 && t[0] == '-' && t[1] == '-'
}

pub open spec fn is_short_flag(t: Seq<char>) -> bool {
    !is_long_flag(t) && t.len() > 1 && t[0] == '-' && !numeric(t[1])
}

/// Token `i + 1` exists and can serve as the value of the flag at `i`.
pub open spec fn value_follows(toks: Seq<Seq<char>>, i: int) -> bool {
    i + 1 < toks.len() && !(toks[i + 1].len() > 0 && toks[i + 1][0] == '-')
}

/// Each character of `cs` recorded as a switch set to `true`.
pub open spec fn add_switches(m: FlagsV, cs: Seq<char>) -> FlagsV
    decreases cs.len(),
{
    if cs.len() == 0 {
        m
    } else {
        add_switches(add_value(m, seq![cs[0]], seq!['t', 'r', 'u', 'e']), cs.skip(1))
    }
}

/// Classifies the tokens from `i` on into `m`; gives the index of the first
/// positional token (or the token count) and the flags.
pub open spec fn scan_flags(toks: Seq<Seq<char>>, i: int, m: FlagsV) -> (int, FlagsV)
    decreases toks.len() - i,
{
    if i < 0 || i >= toks.len() {
        (i, m)
    } else {
        let t = toks[i];
        let yes = seq!['t', 'r', 'u', 'e'];
        if is_long_flag(t) {
            let f = drop_dash_pairs(t);
            let k = find(f, '=');
            if k >= 0 {
                scan_flags(toks, i + 1, add_value(m, f.take(k), unquote(f.skip(k + 1))))
            } else if is_switch(f) {
                scan_flags(toks, i + 1, add_value(m, f, yes))
            } else if value_follows(toks, i) {
                scan_flags(toks, i + 2, add_value(m, f, unquote(toks[i + 1])))
            } else {
                scan_flags(toks, i + 1, add_value(m, f, yes))
            }
        } else if is_short_flag(t) {
            let f = t.skip(1);
            if f.len() == 1 {
                if is_switch(f) {
                    scan_flags(toks, i + 1, add_value(m, f, yes))
                } else if value_follows(toks, i) {
                    scan_flags(toks, i + 2, add_value(m, f, unquote(toks[i + 1])))
                } else {
                    scan_flags(toks, i + 1, add_value(m, f, yes))
                }
            } else {
                scan_flags(toks, i + 1, add_switches(m, f))
            }
        } else {
            (i, m)
        }
    }
}

pub open spec fn unquote_all(s: Seq<Seq<char>>) -> Seq<Seq<char>> {
    s.map_values(|t: Seq<char>| unquote(t))
}

/// What classifying `toks` gives: `Ok` with the image, the exec command and the
/// flags, or `Err` when no positional token is found.
pub open spec fn classified(toks: Seq<Seq<char>>) -> Result<
    (Seq<char>, Seq<Seq<char>>, FlagsV),
    Seq<char>,
> {
    let (p, m) = scan_flags(toks, 0, seq![]);
    if 0 <= p < toks.len() {
        Ok((unquote(toks[p]), unquote_all(toks.subrange(p + 1, toks.len() as int)), m))
    } else {
        Err(no_image_message())
    }
}

pub open spec fn no_image_message() -> Seq<char> {
    seq!['N', 'o', ' ', 'i', 'm', 'a', 'g', 'e', ' ', 's', 'p', 'e', 'c', 'i', 'f', 'i', 'e', 'd']
}

pub open spec fn parse_matches(
    r: Result<(String, Vec<String>, indexmap::IndexMap<String, Vec<String>>), String>,
    c: Result<(Seq<char>, Seq<Seq<char>>, FlagsV), Seq<char>>,
) -> bool {
    match (r, c) {
        (Ok((img, cmd, flags)), Ok((ci, cc, cf))) => img@ == ci && strings(cmd@) == cc
            && flag_entries(flags) == cf,
        (Err(e), Err(ce)) => e@ == ce,
        _ => false,
    }
}

fn has_prefix_at(s: &[char], i: usize, p: &[char]) -> (r: bool)
    requires
        i <= s@.len(),
    ensures
        r == starts_with(s@.skip(i as int), p@),
{
    let ghost t = s@.skip(i as int);
    let n = s.len();
    if p.len() > n - i {
        return false;
    }
    let mut j: usize = 0;
    while j < p.len()
        invariant
            i <= s@.len(),
            t == s@.skip(i as int),
            p@.len() <= t.len(),
            i + p@.len() <= n,
            n == s@.len(),
            j <= p@.len(),
            forall|k: int| 0 <= k < j ==> t[k] == p@[k],
        decreases p@.len() - j,
    {
        if s[i + j] != p[j] {
            assert(t.take(p@.len() as int)[j as int] != p@[j as int]);
            return false;
        }
        j = j + 1;
    }
    assert(t.take(p@.len() as int) =~= p@);
    true
}

pub fn replace_chars(s: &[char], pat: &[char], rep: &[char]) -> (r: Vec<char>)
    ensures
        r@ == replace_all(s@, pat@, rep@),
{
    let mut out: Vec<char> = Vec::new();
    let mut i: usize = 0;
    assert(s@.skip(0) =~= s@);
    while i < s.len()
        invariant
            i <= s@.len(),
            out@ + replace_all(s@.skip(i as int), pat@, rep@) == replace_all(s@, pat@, rep@),
        decreases s@.len() - i,
    {
        let ghost before = out@;
        if pat.len() > 0 && has_prefix_at(s, i, pat) {
            let mut j: usize = 0;
            while j < rep.len()
                invariant
                    j <= rep@.len(),
                    out@ == before + rep@.take(j as int),
                decreases rep@.len() - j,
            {
                out.push(rep[j]);
                j = j + 1;
                assert(out@ =~= before + rep@.take(j as int));
            }
            assert(rep@.take(j as int) =~= rep@);
            assert(s@.skip(i as int).skip(pat@.len() as int) =~= s@.skip(i + pat@.len()));
            i = i + pat.len();
        } else {
            out.push(s[i]);
            assert(s@.skip(i as int).skip(1) =~= s@.skip(i + 1));
            assert(out@ =~= before + seq![s@[i as int]]);
            i = i + 1;
        }
    }
    assert(s@.skip(i as int) =~= Seq::<char>::empty());
    assert(out@ =~= out@ + Seq::<char>::empty());
    out
}

fn squeeze_chars(s: &[char]) -> (r: Vec<char>)
    ensures
        r@ == squeeze(s@, false, false),
{
    let mut out: Vec<char> = Vec::new();
    let mut started = false;
    let mut gap = false;
    let mut i: usize = 0;
    assert(s@.skip(0) =~= s@);
    while i < s.len()
        invariant
            i <= s@.len(),
            out@ + squeeze(s@.skip(i as int), started, gap) == squeeze(s@, false, false),
        decreases s@.len() - i,
    {
        let ghost before = out@;
        let c = s[i];
        assert(s@.skip(i as int).skip(1) =~= s@.skip(i + 1));
        if char_is_ws(c) {
            gap = started;
        } else {
            if gap {
                out.push(' ');
            }
            out.push(c);
            assert(out@ =~= before + ((if gap {
                seq![' ']
            } else {
                seq![]
            }) + seq![c]));
            started = true;
            gap = false;
        }
        i = i + 1;
    }
    assert(s@.skip(i as int) =~= Seq::<char>::empty());
    assert(out@ =~= out@ + Seq::<char>::empty());
    out
}

/// Puts a command on one line: trimmed, line continuations turned into spaces,
/// whitespace runs collapsed into single spaces.
pub fn normalize_command(input: &str) -> (r: String)
    ensures
        r@ == normalized(input@),
{
    let v = chars_of(input);
    let t = trim_chars(v.as_slice());
    let lf = vec!['\\', '\n'];
    let crlf = vec!['\\', '\r', '\n'];
    assert(lf@ =~= seq!['\\', '\n']);
    assert(crlf@ =~= seq!['\\', '\r', '\n']);
    let space = vec![' '];
    assert(space@ =~= seq![' ']);
    let a = replace_chars(t.as_slice(), lf.as_slice(), space.as_slice());
    let b = replace_chars(a.as_slice(), crlf.as_slice(), space.as_slice());
    let c = squeeze_chars(b.as_slice());
    string_of(c.as_slice())
}

/// Splits a one-line command into shell-like tokens.
pub fn tokenize(cleaned: &str) -> (r: Vec<String>)
    ensures
        strings(r@) == tokens_of(cleaned@),
{
    let s = chars_of(cleaned);
    let n = s.len();
    let mut toks: Vec<String> = Vec::new();
    let mut cur: Vec<char> = Vec::new();
    let mut inq = false;
    let mut q = ' ';
    let mut i: usize = 0;
    assert(s@.skip(0) =~= s@);
    assert(strings(toks@) + tokens_of(s@) =~= tokens_of(s@));
    while i < n
        invariant
            n == s@.len(),
            i <= n,
            strings(toks@) + scan(s@.skip(i as int), cur@, inq, q) == tokens_of(cleaned@),
            s@ == cleaned@,
        decreases n - i,
    {
        let c = s[i];
        let ghost rest = s@.skip(i as int);
        assert(rest[0] == c);
        assert(rest.skip(1) =~= s@.skip(i + 1));
        if c == '\\' {
            if i + 1 < n {
                assert(rest.skip(2) =~= s@.skip(i + 2));
                cur.push(s[i + 1]);
                i = i + 2;
            } else {
                i = i + 1;
            }
        } else if (c == '"' || c == '\'') && !inq {
            inq = true;
            q = c;
            cur.push(c);
            i = i + 1;
        } else if c == q && inq {
            inq = false;
            cur.push(c);
            i = i + 1;
        } else if char_is_ws(c) && !inq {
            if cur.len() > 0 {
                let ghost before = toks@;
                toks.push(string_of(cur.as_slice()));
                assert(strings(toks@) =~= strings(before) + seq![cur@]);
                cur = Vec::new();
                assert(cur@ =~= Seq::<char>::empty());
            }
            i = i + 1;
        } else {
            cur.push(c);
            i = i + 1;
        }
    }
    assert(s@.skip(i as int) =~= Seq::<char>::empty());
    if cur.len() > 0 {
        let ghost before = toks@;
        toks.push(string_of(cur.as_slice()));
        assert(strings(toks@) =~= strings(before) + seq![cur@]);
    } else {
        assert(strings(toks@) =~= strings(toks@) + Seq::<Seq<char>>::empty());
    }
    toks
}


fn drop_dash_pairs_chars(t: &[char]) -> (r: Vec<char>)
    ensures
        r@ == drop_dash_pairs(t@),
{
    let mut j: usize = 0;
    assert(t@.skip(0) =~= t@);
    while t.len() - j >= 2 && t[j] == '-' && t[j + 1] == '-'
        invariant
            j <= t@.len(),
            drop_dash_pairs(t@.skip(j as int)) == drop_dash_pairs(t@),
        decreases t@.len() - j,
    {
        assert(t@.skip(j as int).skip(2) =~= t@.skip(j + 2));
        j = j + 2;
    }
    assert(t@.subrange(j as int, t@.len() as int) =~= t@.skip(j as int));
    slice_chars(t, j, t.len())
}

fn yes() -> (r: String)
    ensures
        r@ == seq!['t', 'r', 'u', 'e'],
{
    proof {
        reveal_strlit("true");
    }
    String::from_str("true")
}

fn value_after(tokens: &Vec<String>, i: usize) -> (r: bool)
    requires
        i < tokens@.len(),
    ensures
        r == value_follows(strings(tokens@), i as int),
{
    let len = tokens.len();
    if i + 1 < len {
        let next = chars_of(tokens[i + 1].as_str());
        !(next.len() > 0 && next[0] == '-')
    } else {
        false
    }
}

fn add_switch_chars(flags: &mut indexmap::IndexMap<String, Vec<String>>, cs: &[char])
    ensures
        flag_entries(*final(flags)) == add_switches(flag_entries(*old(flags)), cs@),
{
    let mut j: usize = 0;
    assert(cs@.skip(0) =~= cs@);
    while j < cs.len()
        invariant
            j <= cs@.len(),
            add_switches(flag_entries(*flags), cs@.skip(j as int)) == add_switches(
                flag_entries(*old(flags)),
                cs@,
            ),
        decreases cs@.len() - j,
    {
        let one = slice_chars(cs, j, j + 1);
        assert(one@ =~= seq![cs@[j as int]]);
        assert(cs@.skip(j as int).skip(1) =~= cs@.skip(j + 1));
        flags_add(flags, string_of(one.as_slice()), yes());
        j = j + 1;
    }
    assert(cs@.skip(j as int) =~= Seq::<char>::empty());
}

/// Splits tokens into flags (with their values, in order) and positional
/// arguments: the first positional token is the image, the rest the exec command.
pub fn classify(tokens: &Vec<String>) -> (r: Result<
    (String, Vec<String>, indexmap::IndexMap<String, Vec<String>>),
    String,
>)
    ensures
        parse_matches(r, classified(strings(tokens@))),
{
    let ghost toks = strings(tokens@);
    let n = tokens.len();
    let mut flags = flags_new();
    let mut i: usize = 0;
    assert(toks.len() == n);
    while i < n
        invariant
            n == tokens@.len(),
            toks.len() == n,
            toks == strings(tokens@),
            i <= n,
            scan_flags(toks, i as int, flag_entries(flags)) == scan_flags(toks, 0, seq![]),
        ensures
            i <= n,
            scan_flags(toks, i as int, flag_entries(flags)) == scan_flags(toks, 0, seq![]),
            scan_flags(toks, i as int, flag_entries(flags)) == (i as int, flag_entries(flags)),
        decreases n - i,
    {
        let t = chars_of(tokens[i].as_str());
        assert(t@ == toks[i as int]);
        assert(i + 1 < n ==> toks[i + 1] == tokens@[i + 1]@);
        if t.len() >= 2 && t[0] == '-' && t[1] == '-' {
            let f = drop_dash_pairs_chars(t.as_slice());
            match find_char(f.as_slice(), '=') {
                Some(k) => {
                    let fl = f.len();
                    assert(k < fl);
                    let key = slice_chars(f.as_slice(), 0, k);
                    let val = slice_chars(f.as_slice(), k + 1, fl);
                    assert(key@ =~= f@.take(k as int));
                    assert(val@ =~= f@.skip(k + 1));
                    let raw = string_of(val.as_slice());
                    flags_add(&mut flags, string_of(key.as_slice()), strip_quotes(raw.as_str()));
                    i = i + 1;
                },
                None => {
                    let name = string_of(f.as_slice());
                    if is_boolean_flag(name.as_str()) {
                        flags_add(&mut flags, name, yes());
                        i = i + 1;
                    } else if value_after(tokens, i) {
                        flags_add(&mut flags, name, strip_quotes(tokens[i + 1].as_str()));
                        i = i + 2;
                    } else {
                        flags_add(&mut flags, name, yes());
                        i = i + 1;
                    }
                },
            }
        } else if t.len() > 1 && t[0] == '-' && !char_is_numeric(t[1]) {
            let f = slice_chars(t.as_slice(), 1, t.len());
            assert(f@ =~= t@.skip(1));
            if f.len() == 1 {
                let name = string_of(f.as_slice());
                if is_boolean_flag(name.as_str()) {
                    flags_add(&mut flags, name, yes());
                    i = i + 1;
                } else if value_after(tokens, i) {
                    flags_add(&mut flags, name, strip_quotes(tokens[i + 1].as_str()));
                    i = i + 2;
                } else {
                    flags_add(&mut flags, name, yes());
                    i = i + 1;
                }
            } else {
                add_switch_chars(&mut flags, f.as_slice());
                i = i + 1;
            }
        } else {
            break;
        }
    }
    if i < n {
        assert(toks[i as int] == tokens@[i as int]@);
        let image = strip_quotes(tokens[i].as_str());
        let mut command: Vec<String> = Vec::new();
        let mut j: usize = i + 1;
        assert(strings(command@) =~= unquote_all(toks.subrange(i + 1, j as int)));
        while j < n
            invariant
                n == tokens@.len(),
                toks == strings(tokens@),
                i < j <= n,
                strings(command@) == unquote_all(toks.subrange(i + 1, j as int)),
            decreases n - j,
        {
            let ghost before = command@;
            command.push(strip_quotes(tokens[j].as_str()));
            assert(strings(command@) =~= strings(before).push(unquote(toks[j as int])));
            assert(toks.subrange(i + 1, j + 1) =~= toks.subrange(i + 1, j as int).push(toks[j as int]));
            assert(unquote_all(toks.subrange(i + 1, j + 1)) =~= unquote_all(toks.subrange(i + 1, j as int)).push(unquote(toks[j as int])));
            j = j + 1;
        }
        assert(classified(toks) == Ok::<(Seq<char>, Seq<Seq<char>>, FlagsV), Seq<char>>(
            (image@, strings(command@), flag_entries(flags)),
        ));
        Ok((image, command, flags))
    } else {
        proof {
            reveal_strlit("No image specified");
            assert("No image specified"@ =~= no_image_message());
        }
        Err(String::from_str("No image specified"))
    }
}

/// Parses a launch command: normalizes it, removes the engine prefix, tokenizes
/// and classifies.
pub fn parse_docker_command(input: &str) -> (r: Result<
    (String, Vec<String>, indexmap::IndexMap<String, Vec<String>>),
    String,
>)
    ensures
        parse_matches(r, classified(tokens_of(regex_removed(ENGINE_PREFIX@, normalized(input@))))),
        parse_matches(r, classified(tokens_of(engine_stripped(normalized(input@))))),
{
    let cleaned = normalize_command(input);
    proof {
        lemma_normalized_single_spaced(input@);
    }
    match remove_first_match(ENGINE_PREFIX, cleaned.as_str()) {
        Ok(stripped) => {
            let tokens = tokenize(stripped.as_str());
            classify(&tokens)
        },
        Err(_) => Err(String::from_str("Regex error")),
    }
}

} // verus!
