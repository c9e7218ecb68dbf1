//! Rendering documents through `serde_yaml` and `serde_json`, and converting
//! between the two notations.
use vstd::prelude::*;

use crate::bindings::yaml_number_ok;
use crate::doc::{merge, Node, Tree};

verus! {

#[verifier::external_type_specification]
#[verifier::external_body]
pub struct ExYamlValue(serde_yaml::Value);

#[verifier::external_type_specification]
#[verifier::external_body]
pub struct ExYamlError(serde_yaml::Error);

#[verifier::external_type_specification]
#[verifier::external_body]
pub struct ExJsonValue(serde_json::Value);

#[verifier::external_type_specification]
#[verifier::external_body]
pub struct ExJsonError(serde_json::Error);

/// The document a `serde_yaml` value holds.
pub uninterp spec fn yaml_tree(v: serde_yaml::Value) -> Tree;

/// The document that a `serde_yaml::Number` read from `s` holds.
pub uninterp spec fn number_tree(s: Seq<char>) -> Tree;

/// What `serde_yaml::to_string` prints for a value holding `t`; `None` when it fails.
pub uninterp spec fn yaml_of(t: Tree) -> Option<Seq<char>>;

/// What converting a `serde_yaml` value holding `t` into a `serde_json` value
/// (`serde_yaml::from_value`; maps come out sorted by key) and printing it (`serde_json::to_string_pretty`
/// when `pretty`, else `to_string`) gives; `None` when either step fails.
pub uninterp spec fn json_of(t: Tree, pretty: bool) -> Option<Seq<char>>;

/// A tree with each map's entries inserted one by one, as `serde_yaml::Mapping`
/// stores them (a repeated key keeps its first place and its last value), and
/// number text turned into the number `serde_yaml` reads from it (null when it
/// reads none).
pub open spec fn canon(t: Tree) -> Tree
    decreases t,
{
    match t {
        Tree::List(xs) => Tree::List(
            Seq::new(xs.len(), |i: int| if 0 <= i < xs.len() { canon(xs[i]) } else { Tree::Null }),
        ),
        Tree::Dict(es) => Tree::Dict(
            merge(
                seq![],
                Seq::new(
                    es.len(),
                    |i: int|
                        if 0 <= i < es.len() {
                            (es[i].0, canon(es[i].1))
                        } else {
                            (Seq::empty(), Tree::Null)
                        },
                ),
            ),
        ),
        Tree::Float(s) => if yaml_number_ok(s) {
            number_tree(s)
        } else {
            Tree::Null
        },
        _ => t,
    }
}

/// Relies on `serde_yaml::Value::Null`.
#[verifier::external_body]
fn yaml_null() -> (r: serde_yaml::Value)
    ensures
        yaml_tree(r) == Tree::Null,
{
    serde_yaml::Value::Null
}

/// Relies on `serde_yaml::Value::Bool`.
#[verifier::external_body]
fn yaml_bool(b: bool) -> (r: serde_yaml::Value)
    ensures
        yaml_tree(r) == Tree::Bool(b),
{
    serde_yaml::Value::Bool(b)
}

/// Relies on `serde_yaml::Value::Number` from an `i64`.
#[verifier::external_body]
fn yaml_int(i: i64) -> (r: serde_yaml::Value)
    ensures
        yaml_tree(r) == Tree::Int(i as int),
{
    serde_yaml::Value::Number(i.into())
}

/// Relies on `serde_yaml::Number`'s `FromStr`; text it does not read becomes null.
#[verifier::external_body]
fn yaml_number(s: &str) -> (r: serde_yaml::Value)
    ensures
        yaml_tree(r) == (if yaml_number_ok(s@) {
            number_tree(s@)
        } else {
            Tree::Null
        }),
{
    match s.parse::<serde_yaml::Number>() {
        Ok(n) => serde_yaml::Value::Number(n),
        Err(_) => serde_yaml::Value::Null,
    }
}

/// Relies on `serde_yaml::Value::String`.
#[verifier::external_body]
fn yaml_string(s: String) -> (r: serde_yaml::Value)
    ensures
        yaml_tree(r) == Tree::Text(s@),
{
    serde_yaml::Value::String(s)
}

/// Relies on `serde_yaml::Value::Sequence`.
#[verifier::external_body]
fn yaml_sequence(items: Vec<serde_yaml::Value>) -> (r: serde_yaml::Value)
    ensures
        yaml_tree(r) == Tree::List(items@.map_values(|x: serde_yaml::Value| yaml_tree(x))),
{
    serde_yaml::Value::Sequence(items)
}

/// Relies on collecting pairs into a `serde_yaml::Mapping` (`IndexMap::insert`
/// one by one), with string keys.
#[verifier::external_body]
fn yaml_mapping(pairs: Vec<(String, serde_yaml::Value)>) -> (r: serde_yaml::Value)
    ensures
        yaml_tree(r) == Tree::Dict(
            merge(
                seq![],
                pairs@.map_values(|p: (String, serde_yaml::Value)| (p.0@, yaml_tree(p.1))),
            ),
        ),
{
    serde_yaml::Value::Mapping(
        pairs.into_iter().map(|(k, v)| (serde_yaml::Value::String(k), v)).collect(),
    )
}

/// Relies on `serde_yaml::to_string`.
#[verifier::external_body]
fn yaml_text(v: &serde_yaml::Value) -> (r: Result<String, serde_yaml::Error>)
    ensures
        match yaml_of(yaml_tree(*v)) {
            Some(t) => r matches Ok(x) && x@ == t,
            None => r is Err,
        },
{
    serde_yaml::to_string(v)
}

/// Relies on `serde_yaml::from_str` into a `serde_yaml::Value`.
#[verifier::external_body]
fn yaml_parse(s: &str) -> Result<serde_yaml::Value, serde_yaml::Error> {
    serde_yaml::from_str(s)
}

/// Relies on `serde_yaml::from_value` into a `serde_json::Value`, then
/// `serde_json::to_string`: the outer error is the conversion's, the inner the
/// printer's.
#[verifier::external_body]
fn yaml_as_json(v: serde_yaml::Value) -> (r: Result<Result<String, serde_json::Error>, serde_yaml::Error>)
    ensures
        match json_of(yaml_tree(v), false) {
            Some(t) => r matches Ok(Ok(x)) && x@ == t,
            None => !(r matches Ok(Ok(_))),
        },
{
    match serde_yaml::from_value::<serde_json::Value>(v) {
        Ok(j) => Ok(serde_json::to_string(&j)),
        Err(e) => Err(e),
    }
}

/// Relies on `serde_yaml::from_value` into a `serde_json::Value`, then
/// `serde_json::to_string_pretty`: the outer error is the conversion's, the
/// inner the printer's.
#[verifier::external_body]
fn yaml_as_json_pretty(v: serde_yaml::Value) -> (r: Result<Result<String, serde_json::Error>, serde_yaml::Error>)
    ensures
        match json_of(yaml_tree(v), true) {
            Some(t) => r matches Ok(Ok(x)) && x@ == t,
            None => !(r matches Ok(Ok(_))),
        },
{
    match serde_yaml::from_value::<serde_json::Value>(v) {
        Ok(j) => Ok(serde_json::to_string_pretty(&j)),
        Err(e) => Err(e),
    }
}

/// Relies on the `Display` of `serde_yaml::Error`.
#[verifier::external_body]
fn yaml_error_text(e: &serde_yaml::Error) -> String {
    e.to_string()
}

/// Relies on `serde_json::from_str` into a `serde_json::Value`.
#[verifier::external_body]
fn json_parse(s: &str) -> Result<serde_json::Value, serde_json::Error> {
    serde_json::from_str(s)
}

/// Relies on `serde_json::from_value` into a `serde_yaml::Value`.
#[verifier::external_body]
fn json_to_yaml_value(v: serde_json::Value) -> Result<serde_yaml::Value, serde_json::Error> {
    serde_json::from_value(v)
}

/// Relies on the `Display` of `serde_json::Error`.
#[verifier::external_body]
fn json_error_text(e: &serde_json::Error) -> String {
    e.to_string()
}

fn with_reason(prefix: &str, reason: String) -> (r: String)
    ensures
        r@ == prefix@ + reason@,
{
    let mut s = String::from_str(prefix);
    s.append(reason.as_str());
    s
}

/// The document as a `serde_yaml` value, maps keeping their order.
pub(crate) fn to_yaml(n: &Node) -> (r: serde_yaml::Value)
    ensures
        yaml_tree(r) == canon(n@),
    decreases n,
{
    match n {
        Node::Null => yaml_null(),
        Node::Bool(b) => yaml_bool(*b),
        Node::Int(i) => yaml_int(*i),
        Node::Float(s) => yaml_number(s.as_str()),
        Node::Text(s) => yaml_string(s.clone()),
        Node::List(v) => {
            let mut out: Vec<serde_yaml::Value> = Vec::new();
            let mut i: usize = 0;
            while i < v.len()
                invariant
                    i <= v@.len(),
                    *n == Node::List(*v),
                    out@.len() == i,
                    forall|j: int| 0 <= j < i ==> yaml_tree(#[trigger] out@[j]) == canon(v@[j]@),
                decreases v@.len() - i,
            {
                proof {
                    vstd::std_specs::vec::axiom_vec_index_decreases(*v, i as int);
                    let x = *n;
                    let w = x->List_0;
                    assert(decreases_to!(x => w));
                    assert(decreases_to!(w => w[i as int]));
                    assert(decreases_to!(x => w[i as int]));
                }
                out.push(to_yaml(&v[i]));
                i = i + 1;
            }
            let r = yaml_sequence(out);
            proof {
                let xs = n@->List_0;
                assert(xs =~= Seq::new(v@.len(), |j: int| v@[j]@));
                let c = canon(n@)->List_0;
                let o = out@.map_values(|x: serde_yaml::Value| yaml_tree(x));
                assert(c.len() == o.len());
                assert forall|j: int| 0 <= j < c.len() implies c[j] == o[j] by {
                    assert(xs[j] == v@[j]@);
                }
                assert(c =~= o);
                assert(canon(n@) == Tree::List(out@.map_values(|x: serde_yaml::Value| yaml_tree(x))));
            }
            r
        },
        Node::Dict(v) => {
            let mut pairs: Vec<(String, serde_yaml::Value)> = Vec::new();
            let mut i: usize = 0;
            while i < v.len()
                invariant
                    i <= v@.len(),
                    *n == Node::Dict(*v),
                    pairs@.len() == i,
                    forall|j: int|
                        0 <= j < i ==> (#[trigger] pairs@[j]).0@ == v@[j].0@ && yaml_tree(pairs@[j].1)
                            == canon(v@[j].1@),
                decreases v@.len() - i,
            {
                proof {
                    vstd::std_specs::vec::axiom_vec_index_decreases(*v, i as int);
                    let x = *n;
                    let w = x->Dict_0;
                    assert(decreases_to!(x => w));
                    assert(decreases_to!(w => w[i as int]));
                    assert(decreases_to!(x => w[i as int].1));
                }
                let k = v[i].0.clone();
                let val = to_yaml(&v[i].1);
                pairs.push((k, val));
                i = i + 1;
            }
            let r = yaml_mapping(pairs);
            proof {
                let es = n@->Dict_0;
                assert(es =~= Seq::new(v@.len(), |j: int| (v@[j].0@, v@[j].1@)));
                let o = pairs@.map_values(|p: (String, serde_yaml::Value)| (p.0@, yaml_tree(p.1)));
                assert(exists|sq: Seq<(Seq<char>, Tree)>|
                    canon(n@) == Tree::Dict(merge(seq![], sq)) && sq.len() == es.len() && forall|j: int|
                        0 <= j < es.len() ==> #[trigger] sq[j] == (es[j].0, canon(es[j].1)));
                let sq = choose|sq: Seq<(Seq<char>, Tree)>|
                    canon(n@) == Tree::Dict(merge(seq![], sq)) && sq.len() == es.len() && forall|j: int|
                        0 <= j < es.len() ==> #[trigger] sq[j] == (es[j].0, canon(es[j].1));
                assert forall|j: int| 0 <= j < sq.len() implies sq[j] == o[j] by {
                    assert(es[j] == (v@[j].0@, v@[j].1@));
                }
                assert(sq =~= o);
                assert(canon(n@) == Tree::Dict(merge(seq![], pairs@.map_values(|p: (String, serde_yaml::Value)| (p.0@, yaml_tree(p.1))))));
            }
            r
        },
    }
}

/// The document in YAML notation.
pub(crate) fn render_yaml(n: &Node) -> (r: Result<String, String>)
    ensures
        match yaml_of(canon(n@)) {
            Some(t) => r matches Ok(x) && x@ == t,
            None => r is Err,
        },
{
    match yaml_text(&to_yaml(n)) {
        Ok(s) => Ok(s),
        Err(e) => Err(with_reason("Failed to serialize: ", yaml_error_text(&e))),
    }
}

fn yaml_value_as_json(v: serde_yaml::Value, pretty: bool) -> (r: Result<String, String>)
    ensures
        match json_of(yaml_tree(v), pretty) {
            Some(t) => r matches Ok(x) && x@ == t,
            None => r is Err,
        },
{
    let printed = if pretty {
        yaml_as_json_pretty(v)
    } else {
        yaml_as_json(v)
    };
    match printed {
        Ok(Ok(s)) => Ok(s),
        Ok(Err(e)) => Err(with_reason("Failed to serialize JSON: ", json_error_text(&e))),
        Err(e) => Err(with_reason("Failed to convert to JSON: ", yaml_error_text(&e))),
    }
}

/// The document in JSON notation, indented when `pretty`.
pub(crate) fn render_json(n: &Node, pretty: bool) -> (r: Result<String, String>)
    ensures
        match json_of(canon(n@), pretty) {
            Some(t) => r matches Ok(x) && x@ == t,
            None => r is Err,
        },
{
    yaml_value_as_json(to_yaml(n), pretty)
}

/// Converts YAML text to JSON text, indented when `pretty`.
pub fn yaml_to_json(yaml_content: &str, pretty: bool) -> Result<String, String> {
    match yaml_parse(yaml_content) {
        Ok(y) => yaml_value_as_json(y, pretty),
        Err(e) => Err(with_reason("Failed to parse YAML: ", yaml_error_text(&e))),
    }
}

/// Converts JSON text to YAML text.
pub fn json_to_yaml(json_content: &str) -> Result<String, String> {
    match json_parse(json_content) {
        Ok(j) => match json_to_yaml_value(j) {
            Ok(y) => match yaml_text(&y) {
                Ok(s) => Ok(s),
                Err(e) => Err(with_reason("Failed to serialize YAML: ", yaml_error_text(&e))),
            },
            Err(e) => Err(with_reason("Failed to convert to YAML: ", json_error_text(&e))),
        },
        Err(e) => Err(with_reason("Failed to parse JSON: ", json_error_text(&e))),
    }
}

/// The conversions between notations that are offered, by the input file's
/// extension and the wanted output format.
pub open spec fn conversion_supported(input_ext: Seq<char>, output_format: Seq<char>) -> bool {
    ((input_ext == "yml"@ || input_ext == "yaml"@) && output_format == "json"@) || (input_ext
        == "json"@ && (output_format == "yml"@ || output_format == "yaml"@))
}

/// Converts file content between YAML and JSON, choosing by the input file's
/// extension and the output format; other pairs are refused.
pub fn convert_text(content: &str, input_ext: &str, output_format: &str) -> (r: Result<String, String>)
    ensures
        !conversion_supported(input_ext@, output_format@) ==> (r matches Err(m) && m@
            == "Unsupported conversion: "@ + input_ext@ + " to "@ + output_format@),
{
    let ext = crate::text::chars_of(input_ext);
    let out = crate::text::chars_of(output_format);
    let yaml_in = crate::text::is_lit(ext.as_slice(), "yml") || crate::text::is_lit(ext.as_slice(), "yaml");
    let json_in = crate::text::is_lit(ext.as_slice(), "json");
    let json_out = crate::text::is_lit(out.as_slice(), "json");
    let yaml_out = crate::text::is_lit(out.as_slice(), "yml") || crate::text::is_lit(out.as_slice(), "yaml");
    if yaml_in && json_out {
        yaml_to_json(content, true)
    } else if json_in && yaml_out {
        json_to_yaml(content)
    } else {
        let mut m = String::from_str("Unsupported conversion: ");
        m.append(input_ext);
        m.append(" to ");
        m.append(output_format);
        Err(m)
    }
}

} // verus!
