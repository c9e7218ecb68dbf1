//! The calls this library makes into std and into other crates, each with the
//! contract it relies on.
use vstd::prelude::*;

use crate::text::key_index;

verus! {

#[verifier::external_type_specification]
#[verifier::external_body]
#[verifier::reject_recursive_types(K)]
#[verifier::reject_recursive_types(V)]
#[verifier::reject_recursive_types(S)]
pub struct ExIndexMap<K, V, S>(indexmap::IndexMap<K, V, S>);

#[verifier::external_type_specification]
#[verifier::external_body]
pub struct ExRegexError(regex::Error);

/// An insertion-ordered multimap from flag names to their values.
pub type FlagsV = Seq<(Seq<char>, Seq<Seq<char>>)>;

/// The values recorded under `k`, if `k` is present.
pub open spec fn values_of(m: FlagsV, k: Seq<char>) -> Option<Seq<Seq<char>>> {
    let j = key_index(m, k);
    if 0 <= j < m.len() {
        Some(m[j].1)
    } else {
        None
    }
}

/// `v` appended to the values of `k`; a new key goes last.
pub open spec fn add_value(m: FlagsV, k: Seq<char>, v: Seq<char>) -> FlagsV {
    let j = key_index(m, k);
    if 0 <= j < m.len() {
        m.update(j, (k, m[j].1.push(v)))
    } else {
        m.push((k, seq![v]))
    }
}

pub open spec fn flag_vec_view(v: Seq<(String, Vec<String>)>) -> FlagsV {
    v.map_values(|e: (String, Vec<String>)| (e.0@, e.1@.map_values(|s: String| s@)))
}

/// What an `IndexMap` of flags holds, in its order.
pub uninterp spec fn flag_entries(m: indexmap::IndexMap<String, Vec<String>>) -> FlagsV;

/// Relies on `IndexMap::new`: the map starts empty.
#[verifier::external_body]
pub(crate) fn flags_new() -> (r: indexmap::IndexMap<String, Vec<String>>)
    ensures
        flag_entries(r) == Seq::<(Seq<char>, Seq<Seq<char>>)>::empty(),
{
    indexmap::IndexMap::new()
}

/// Relies on `IndexMap::entry(..).or_insert_with(Vec::new)`: an existing key keeps
/// its place and gets `v` appended; a new key is placed last with `[v]`.
#[verifier::external_body]
pub(crate) fn flags_add(m: &mut indexmap::IndexMap<String, Vec<String>>, k: String, v: String)
    ensures
        flag_entries(*final(m)) == add_value(flag_entries(*old(m)), k@, v@),
{
    m.entry(k).or_insert_with(Vec::new).push(v);
}

/// Relies on `IndexMap::iter`: the entries in insertion order.
#[verifier::external_body]
pub(crate) fn flags_to_vec(m: &indexmap::IndexMap<String, Vec<String>>) -> (r: Vec<(String, Vec<String>)>)
    ensures
        flag_vec_view(r@) == flag_entries(*m),
{
    m.iter().map(|(k, v)| (k.clone(), v.clone())).collect()
}

/// What `Regex::new(pattern)` followed by `replace(text, "")` gives: `text` with the
/// leftmost match of `pattern` removed.
pub uninterp spec fn regex_removed(pattern: Seq<char>, text: Seq<char>) -> Seq<char>;

/// Relies on `regex::Regex::new` and `Regex::replace` with an empty replacement.
/// `Regex::new` fails only on an invalid or oversized pattern, which the engine
/// prefix pattern is not. On single-spaced text that pattern (`docker` or
/// `podman`, whitespace, one of `run`, `create`, `container run`, `service
/// create`, whitespace, anchored at the start) matches exactly the prefixes
/// that [`crate::parser::engine_stripped`] removes.
#[verifier::external_body]
pub(crate) fn remove_first_match(pattern: &str, text: &str) -> (r: Result<String, regex::Error>)
    ensures
        r matches Ok(s) ==> s@ == regex_removed(pattern@, text@),
        pattern@ == crate::parser::ENGINE_PREFIX@ ==> r is Ok,
        r matches Ok(s) ==> (pattern@ == crate::parser::ENGINE_PREFIX@ && crate::parser::single_spaced(
            text@,
        ) ==> s@ == crate::parser::engine_stripped(text@)),
{
    let re = regex::Regex::new(pattern)?;
    Ok(re.replace(text, "").into_owned())
}

/// What `char::is_numeric` says of `c` (the Unicode numeric categories).
pub uninterp spec fn numeric(c: char) -> bool;

/// Relies on `char::is_numeric`, which holds of every ASCII digit and of no
/// ASCII letter.
#[verifier::external_body]
pub(crate) fn char_is_numeric(c: char) -> (r: bool)
    ensures
        r == numeric(c),
        '0' <= c <= '9' ==> r,
        ('a' <= c <= 'z' || 'A' <= c <= 'Z') ==> !r,
{
    c.is_numeric()
}

/// Whether `serde_yaml` reads `s` as a number (an integer or a float).
pub uninterp spec fn yaml_number_ok(s: Seq<char>) -> bool;

/// Relies on `serde_yaml::Number`'s `FromStr`: success exactly when the text is a
/// YAML number.
#[verifier::external_body]
pub(crate) fn reads_as_number(s: &str) -> (r: bool)
    ensures
        r == yaml_number_ok(s@),
{
    s.parse::<serde_yaml::Number>().is_ok()
}

} // verus!
