//! Laws that hold of the conversion as a whole.
use vstd::prelude::*;

use crate::bindings::{add_value, numeric, FlagsV};
use crate::compose::{
    add_unique, assemble, composed_from, is_bind_path, networks_in, service_name, unique_fold,
    values_or, version_of, volume_names, volumes_in,
};
use crate::builder::build_from;
use crate::doc::Tree;
use crate::mappings::is_switch;
use crate::parser::{
    classified, is_long_flag, is_short_flag, scan_flags, unquote_all, value_follows,
};
use crate::parser::{engine_stripped, normalized, replace_all, scan, squeeze, tokens_of};
use crate::text::{
    find, is_ws, lemma_find_bounds, lemma_key_absent, split, starts_with, trim_end, trim_start, unquote,
};

verus! {

/// A format other than `latest`, `v2x` and `v3x` fails the conversion, whatever
/// the command; when the command itself is sound the error is the unknown format.
pub proof fn unknown_format_fails(toks: Seq<Seq<char>>, format: Seq<char>)
    requires
        version_of(format) is None,
    ensures
        composed_from(toks, format) is Err,
        classified(toks) matches Ok(c) && build_from(
            seq![],
            c.2,
            crate::compose::network_for(c.2),
        ) is Ok ==> composed_from(toks, format) == Err::<Tree, Seq<char>>(
            "Unknown format: "@ + format,
        ),
{
}

/// A command that is an image alone gives a service that holds the image and
/// nothing else, and no networks or volumes sections.
pub proof fn image_alone(image: Seq<char>, format: Seq<char>)
    requires
        !is_long_flag(image),
        !is_short_flag(image),
        version_of(format) is Some,
    ensures
        composed_from(seq![image], format) == Ok::<Tree, Seq<char>>(
            assemble(
                version_of(format)->Some_0,
                service_name(unquote(image)),
                seq![("image"@, Tree::Text(unquote(image)))],
                seq![],
                seq![],
            ),
        ),
{
    let toks = seq![image];
    let empty: FlagsV = seq![];
    assert(scan_flags(toks, 0, empty) == (0int, empty));
    assert(unquote_all(toks.subrange(1, 1)) =~= Seq::<Seq<char>>::empty());
    lemma_key_absent(empty, "network"@);
    lemma_key_absent(empty, "net"@);
    lemma_key_absent(empty, "volume"@);
    lemma_key_absent(empty, "v"@);
    lemma_key_absent(Seq::<(Seq<char>, Tree)>::empty(), "image"@);
    assert(values_or(empty, "network"@, "net"@) =~= Seq::<Seq<char>>::empty());
    assert(values_or(empty, "volume"@, "v"@) =~= Seq::<Seq<char>>::empty());
    assert(networks_in(empty) =~= Seq::<Seq<char>>::empty());
    assert(volumes_in(empty) =~= Seq::<Seq<char>>::empty());
}

proof fn scan_flags_shift(toks: Seq<Seq<char>>, i: int, m: FlagsV)
    requires
        0 <= i <= toks.len(),
    ensures
        scan_flags(toks, i, m) == ({
            let r = scan_flags(toks.skip(i), 0, m);
            (r.0 + i, r.1)
        }),
        scan_flags(toks, i, m).0 >= i,
    decreases toks.len() - i,
{
    let t = toks.skip(i);
    if i < toks.len() {
        assert(t[0] == toks[i]);
        assert(t.skip(1) =~= toks.skip(i + 1));
        if i + 1 < toks.len() {
            assert(t[1] == toks[i + 1]);
            assert(t.skip(2) =~= toks.skip(i + 2));
        }
        assert(value_follows(toks, i) == value_follows(t, 0));
        let yes = seq!['t', 'r', 'u', 'e'];
        let tok = toks[i];
        if is_long_flag(tok) {
            let f = crate::parser::drop_dash_pairs(tok);
            let k = find(f, '=');
            if k >= 0 {
                scan_flags_shift(toks, i + 1, add_value(m, f.take(k), unquote(f.skip(k + 1))));
                scan_flags_shift(t, 1, add_value(m, f.take(k), unquote(f.skip(k + 1))));
            } else if crate::mappings::is_switch(f) {
                scan_flags_shift(toks, i + 1, add_value(m, f, yes));
                scan_flags_shift(t, 1, add_value(m, f, yes));
            } else if value_follows(toks, i) {
                scan_flags_shift(toks, i + 2, add_value(m, f, unquote(toks[i + 1])));
                scan_flags_shift(t, 2, add_value(m, f, unquote(toks[i + 1])));
            } else {
                scan_flags_shift(toks, i + 1, add_value(m, f, yes));
                scan_flags_shift(t, 1, add_value(m, f, yes));
            }
        } else if is_short_flag(tok) {
            let f = tok.skip(1);
            if f.len() == 1 {
                if crate::mappings::is_switch(f) {
                    scan_flags_shift(toks, i + 1, add_value(m, f, yes));
                    scan_flags_shift(t, 1, add_value(m, f, yes));
                } else if value_follows(toks, i) {
                    scan_flags_shift(toks, i + 2, add_value(m, f, unquote(toks[i + 1])));
                    scan_flags_shift(t, 2, add_value(m, f, unquote(toks[i + 1])));
                } else {
                    scan_flags_shift(toks, i + 1, add_value(m, f, yes));
                    scan_flags_shift(t, 1, add_value(m, f, yes));
                }
            } else {
                scan_flags_shift(toks, i + 1, crate::parser::add_switches(m, f));
                scan_flags_shift(t, 1, crate::parser::add_switches(m, f));
            }
        }
    }
}

/// `-it` classifies as `-i -t` does: `i` and `t` are switches, so both forms
/// record `i` then `t` as `true` and take no value, whatever follows.
pub proof fn combined_short_flags(rest: Seq<Seq<char>>)
    requires
        is_switch(seq!['i']),
        is_switch(seq!['t']),
        !numeric('i'),
        !numeric('t'),
    ensures
        classified(seq![seq!['-', 'i', 't']] + rest) == classified(
            seq![seq!['-', 'i'], seq!['-', 't']] + rest,
        ),
{
    let a = seq![seq!['-', 'i', 't']] + rest;
    let b = seq![seq!['-', 'i'], seq!['-', 't']] + rest;
    let empty: FlagsV = seq![];
    let yes = seq!['t', 'r', 'u', 'e'];
    assert(a[0] == seq!['-', 'i', 't']);
    assert(b[0] == seq!['-', 'i']);
    assert(b[1] == seq!['-', 't']);
    assert(a[0].skip(1) =~= seq!['i', 't']);
    assert(b[0].skip(1) =~= seq!['i']);
    assert(b[1].skip(1) =~= seq!['t']);
    let m1 = add_value(empty, seq!['i'], yes);
    let m2 = add_value(m1, seq!['t'], yes);
    assert(seq!['i', 't'].skip(1) =~= seq!['t']);
    assert(seq!['t'].skip(1) =~= Seq::<char>::empty());
    let e: Seq<char> = Seq::empty();
    assert(crate::parser::add_switches(m2, e) == m2);
    assert(crate::parser::add_switches(m1, seq!['t']) == crate::parser::add_switches(m2, e));
    assert(crate::parser::add_switches(empty, seq!['i', 't']) == crate::parser::add_switches(
        m1,
        seq!['t'],
    ));
    assert(scan_flags(a, 0, empty) == scan_flags(a, 1, m2));
    assert(scan_flags(b, 0, empty) == scan_flags(b, 1, m1));
    assert(scan_flags(b, 1, m1) == scan_flags(b, 2, m2));
    scan_flags_shift(a, 1, m2);
    scan_flags_shift(b, 2, m2);
    assert(a.skip(1) =~= rest);
    assert(b.skip(2) =~= rest);
    let r = scan_flags(rest, 0, m2);
    if 0 <= r.0 < rest.len() {
        assert(a[r.0 + 1] == b[r.0 + 2]);
        assert(a.subrange(r.0 + 2, a.len() as int) =~= b.subrange(r.0 + 3, b.len() as int));
    }
}

proof fn lemma_first_piece(v: Seq<char>)
    ensures
        split(v, ':').len() >= 1,
        split(v, ':')[0].len() > 0 ==> split(v, ':')[0][0] == v[0],
        !is_bind_path(v) ==> !is_bind_path(split(v, ':')[0]),
{
    lemma_find_bounds(v, ':');
}

proof fn lemma_volume_names(acc: Seq<Seq<char>>, xs: Seq<Seq<char>>)
    requires
        forall|x: Seq<char>| acc.contains(x) ==> !is_bind_path(x),
    ensures
        forall|x: Seq<char>| volume_names(acc, xs).contains(x) ==> !is_bind_path(x),
        forall|x: Seq<char>| acc.contains(x) ==> volume_names(acc, xs).contains(x),
        forall|j: int|
            0 <= j < xs.len() && !is_bind_path(#[trigger] xs[j]) ==> volume_names(
                acc,
                xs,
            ).contains(split(xs[j], ':')[0]),
    decreases xs.len(),
{
    if xs.len() > 0 {
        let x0 = xs[0];
        lemma_first_piece(x0);
        let next = if is_bind_path(x0) {
            acc
        } else {
            add_unique(acc, split(x0, ':')[0])
        };
        assert forall|x: Seq<char>| next.contains(x) implies !is_bind_path(x) by {
            if !is_bind_path(x0) && !acc.contains(split(x0, ':')[0]) {
                if x == split(x0, ':')[0] {
                } else {
                    let k = choose|k: int| 0 <= k < next.len() && next[k] == x;
                    assert(k < acc.len());
                    assert(acc[k] == x);
                }
            }
        }
        assert forall|x: Seq<char>| acc.contains(x) implies next.contains(x) by {
            if !is_bind_path(x0) && !acc.contains(split(x0, ':')[0]) {
                let k = choose|k: int| 0 <= k < acc.len() && acc[k] == x;
                assert(next[k] == x);
            }
        }
        if !is_bind_path(x0) {
            if !acc.contains(split(x0, ':')[0]) {
                assert(next[acc.len() as int] == split(x0, ':')[0]);
            }
            assert(next.contains(split(x0, ':')[0]));
        }
        lemma_volume_names(next, xs.skip(1));
        assert forall|j: int|
            0 <= j < xs.len() && !is_bind_path(#[trigger] xs[j]) implies volume_names(
                acc,
                xs,
            ).contains(split(xs[j], ':')[0]) by {
            if j > 0 {
                assert(xs.skip(1)[j - 1] == xs[j]);
            }
        }
    }
}

/// No named volume is a host path (`/..`, `./..`, `~/..`: bind mounts stay out of
/// the volumes section), and every value of the volume flag that is not a host
/// path has its name (the text before the first `:`) there.
pub proof fn named_volumes_only(m: FlagsV)
    ensures
        forall|x: Seq<char>| volumes_in(m).contains(x) ==> !is_bind_path(x),
        forall|j: int|
            0 <= j < values_or(m, "volume"@, "v"@).len() && !is_bind_path(
                #[trigger] values_or(m, "volume"@, "v"@)[j],
            ) ==> volumes_in(m).contains(split(values_or(m, "volume"@, "v"@)[j], ':')[0]),
{
    lemma_volume_names(seq![], values_or(m, "volume"@, "v"@));
}

pub open spec fn no_duplicates(s: Seq<Seq<char>>) -> bool {
    forall|i: int, j: int| 0 <= i < j < s.len() ==> s[i] != s[j]
}

proof fn lemma_unique_fold(acc: Seq<Seq<char>>, xs: Seq<Seq<char>>)
    requires
        no_duplicates(acc),
    ensures
        no_duplicates(unique_fold(acc, xs)),
    decreases xs.len(),
{
    if xs.len() > 0 {
        let next = add_unique(acc, xs[0]);
        assert(no_duplicates(next));
        lemma_unique_fold(next, xs.skip(1));
    }
}

proof fn lemma_unique_fold_keeps(acc: Seq<Seq<char>>, xs: Seq<Seq<char>>)
    requires
        no_duplicates(acc + xs),
    ensures
        unique_fold(acc, xs) == acc + xs,
    decreases xs.len(),
{
    if xs.len() == 0 {
        assert(acc + xs =~= acc);
    } else {
        assert(!acc.contains(xs[0])) by {
            if acc.contains(xs[0]) {
                let k = choose|k: int| 0 <= k < acc.len() && acc[k] == xs[0];
                assert((acc + xs)[k] == (acc + xs)[acc.len() as int]);
            }
        }
        assert(acc.push(xs[0]) + xs.skip(1) =~= acc + xs);
        lemma_unique_fold_keeps(acc.push(xs[0]), xs.skip(1));
    }
}

/// The networks collected hold each name once, so collecting them a second
/// time gives them back unchanged.
pub proof fn networks_collect_idempotent(m: FlagsV)
    ensures
        no_duplicates(networks_in(m)),
        unique_fold(seq![], networks_in(m)) == networks_in(m),
{
    lemma_unique_fold(seq![], values_or(m, "network"@, "net"@));
    assert(Seq::<Seq<char>>::empty() + networks_in(m) =~= networks_in(m));
    lemma_unique_fold_keeps(seq![], networks_in(m));
}

/// A word with no whitespace, quote or backslash that does not start with `-`.
pub open spec fn plain_word(w: Seq<char>) -> bool {
    w.len() > 0 && w[0] != '-' && forall|i: int|
        0 <= i < w.len() ==> !is_ws(#[trigger] w[i]) && w[i] != '"' && w[i] != '\'' && w[i] != '\\'
}

pub open spec fn clean_text(s: Seq<char>) -> bool {
    s.len() > 0 && !is_ws(s[0]) && !is_ws(s.last()) && forall|i: int|
        0 <= i < s.len() ==> s[i] != '\\' && (is_ws(#[trigger] s[i]) ==> s[i] == ' ' && !is_ws(
            s[i + 1],
        ))
}

proof fn lemma_replace_no_backslash(s: Seq<char>, pat: Seq<char>, rep: Seq<char>)
    requires
        pat.len() > 0,
        pat[0] == '\\',
        forall|i: int| 0 <= i < s.len() ==> s[i] != '\\',
    ensures
        replace_all(s, pat, rep) == s,
    decreases s.len(),
{
    if s.len() > 0 {
        assert(!starts_with(s, pat)) by {
            if starts_with(s, pat) {
                assert(s.take(pat.len() as int)[0] == s[0]);
            }
        }
        lemma_replace_no_backslash(s.skip(1), pat, rep);
        assert(seq![s[0]] + s.skip(1) =~= s);
    }
}

proof fn lemma_squeeze_clean(s: Seq<char>, started: bool, gap: bool)
    requires
        clean_text(s),
    ensures
        squeeze(s, started, gap) == (if gap {
            seq![' ']
        } else {
            Seq::<char>::empty()
        }) + s,
    decreases s.len(),
{
    let head: Seq<char> = (if gap {
        seq![' ']
    } else {
        Seq::<char>::empty()
    }) + seq![s[0]];
    let t = s.skip(1);
    if t.len() == 0 {
        assert(s =~= seq![s[0]]);
        assert(squeeze(t, true, false) == Seq::<char>::empty());
        assert(head + Seq::<char>::empty() =~= head);
    } else if !is_ws(t[0]) {
        assert(t.last() == s.last());
        assert forall|i: int| 0 <= i < t.len() implies t[i] != '\\' && (is_ws(#[trigger] t[i])
            ==> t[i] == ' ' && !is_ws(t[i + 1])) by {
            assert(t[i] == s[i + 1]);
            if is_ws(t[i]) {
                assert(is_ws(s[i + 1]));
                assert(i + 2 < s.len() || !is_ws(s[i + 1]));
                assert(t[i + 1] == s[i + 2]);
            }
        }
        lemma_squeeze_clean(t, true, false);
        assert(head + t =~= (if gap {
            seq![' ']
        } else {
            Seq::<char>::empty()
        }) + s);
    } else {
        assert(is_ws(s[1]));
        assert(s[1] == ' ' && !is_ws(s[2]));
        let u = s.skip(2);
        assert(u.len() > 0) by {
            if u.len() == 0 {
                assert(s.last() == s[1]);
            }
        }
        assert(u.last() == s.last());
        assert forall|i: int| 0 <= i < u.len() implies u[i] != '\\' && (is_ws(#[trigger] u[i])
            ==> u[i] == ' ' && !is_ws(u[i + 1])) by {
            assert(u[i] == s[i + 2]);
            if is_ws(u[i]) {
                assert(is_ws(s[i + 2]));
                assert(i + 3 < s.len() || !is_ws(s[i + 2]));
                assert(u[i + 1] == s[i + 3]);
            }
        }
        assert(t.skip(1) =~= u);
        assert(squeeze(t, true, false) == squeeze(u, true, true));
        lemma_squeeze_clean(u, true, true);
        assert(head + (seq![' '] + u) =~= (if gap {
            seq![' ']
        } else {
            Seq::<char>::empty()
        }) + s);
    }
}

proof fn lemma_scan_word(s: Seq<char>, buf: Seq<char>)
    requires
        buf.len() + s.len() > 0,
        forall|i: int|
            0 <= i < s.len() ==> !is_ws(#[trigger] s[i]) && s[i] != '"' && s[i] != '\'' && s[i]
                != '\\',
    ensures
        scan(s, buf, false, ' ') == seq![buf + s],
    decreases s.len(),
{
    if s.len() == 0 {
        assert(buf + s =~= buf);
    } else {
        assert(s[0] != ' ');
        lemma_scan_word(s.skip(1), buf.push(s[0]));
        assert(buf.push(s[0]) + s.skip(1) =~= buf + s);
    }
}

/// `docker run` followed by an image alone gives a service that holds the
/// image and nothing else, under the image's service name.
pub proof fn image_alone_command(image: Seq<char>, format: Seq<char>)
    requires
        plain_word(image),
        version_of(format) is Some,
    ensures
        composed_from(tokens_of(engine_stripped(normalized("docker run "@ + image))), format)
            == Ok::<Tree, Seq<char>>(
            assemble(
                version_of(format)->Some_0,
                service_name(image),
                seq![("image"@, Tree::Text(image))],
                seq![],
                seq![],
            ),
        ),
{
    reveal_strlit("docker run ");
    reveal_strlit("docker ");
    reveal_strlit("run ");
    let x = "docker run "@ + image;
    assert(x.len() == 11 + image.len());
    assert forall|i: int| 0 <= i < x.len() implies x[i] != '\\' && (is_ws(#[trigger] x[i]) ==> x[i]
        == ' ' && !is_ws(x[i + 1])) by {
        if i >= 11 {
            assert(x[i] == image[i - 11]);
        } else if i == 6 || i == 10 {
            assert(x[i + 1] == (if i == 6 { 'r' } else { image[0] }));
        }
    }
    assert(x.last() == image.last());
    assert(clean_text(x));
    assert(trim_start(x) == x);
    assert(trim_end(x) == x);
    lemma_replace_no_backslash(x, seq!['\\', '\n'], seq![' ']);
    lemma_replace_no_backslash(x, seq!['\\', '\r', '\n'], seq![' ']);
    lemma_squeeze_clean(x, false, false);
    assert(Seq::<char>::empty() + x =~= x);
    assert(normalized(x) == x);
    assert(starts_with(x, "docker "@)) by {
        assert(x.take(7) =~= "docker "@);
    }
    let r = x.skip(7);
    assert(starts_with(r, "run "@)) by {
        assert(r.take(4) =~= "run "@);
    }
    assert(r.skip(4) =~= image);
    assert(engine_stripped(x) == image);
    lemma_scan_word(image, seq![]);
    assert(Seq::<char>::empty() + image =~= image);
    assert(tokens_of(image) == seq![image]);
    assert(trim_start(image) == image);
    assert(trim_end(image) == image);
    assert(unquote(image) == image);
    assert(!is_long_flag(image));
    assert(!is_short_flag(image));
    image_alone(image, format);
}

} // verus!
