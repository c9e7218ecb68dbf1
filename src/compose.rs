//! The whole document: the service built from one command, under `services`,
//! with the format's version and the networks and volumes it names.
use vstd::prelude::*;

use crate::bindings::{
    flag_entries, flag_vec_view, flags_to_vec, regex_removed, remove_first_match, values_of, FlagsV,
};
use crate::builder::{build_compose_value, build_from, join, join_chars};
use crate::codec::{canon, json_of, render_json, render_yaml, yaml_of};
use crate::doc::{dict_view, lemma_dict_view, put_key, put_key_exec, DictV, Node, Tree};
use crate::parser::{
    classified, classify, engine_stripped, lemma_normalized_single_spaced, normalize_command,
    normalized, tokenize, tokens_of,
    ENGINE_PREFIX,
};
use crate::text::{
    chars_of, deep, is_lit, key_index, lemma_key_absent, lemma_key_index,
    split, split_chars, string_of, strings,
};

verus! {

/// `x` added at the end unless already present.
pub open spec fn add_unique(s: Seq<Seq<char>>, x: Seq<char>) -> Seq<Seq<char>> {
    if s.contains(x) {
        s
    } else {
        s.push(x)
    }
}

pub open spec fn unique_fold(acc: Seq<Seq<char>>, xs: Seq<Seq<char>>) -> Seq<Seq<char>>
    decreases xs.len(),
{
    if xs.len() == 0 {
        acc
    } else {
        unique_fold(add_unique(acc, xs[0]), xs.skip(1))
    }
}

/// The values under `a`, or else under `b`, or none.
pub open spec fn values_or(m: FlagsV, a: Seq<char>, b: Seq<char>) -> Seq<Seq<char>> {
    match values_of(m, a) {
        Some(v) => v,
        None => match values_of(m, b) {
            Some(v) => v,
            None => seq![],
        },
    }
}

/// A volume given by a host path (a bind mount) rather than by name.
pub open spec fn is_bind_path(v: Seq<char>) -> bool {
    v.len() > 0 && (v[0] == '/' || v[0] == '.' || v[0] == '~')
}

pub open spec fn volume_names(acc: Seq<Seq<char>>, xs: Seq<Seq<char>>) -> Seq<Seq<char>>
    decreases xs.len(),
{
    if xs.len() == 0 {
        acc
    } else {
        volume_names(
            if is_bind_path(xs[0]) {
                acc
            } else {
                add_unique(acc, split(xs[0], ':')[0])
            },
            xs.skip(1),
        )
    }
}

/// The networks the flags name, each once, in order.
pub open spec fn networks_in(m: FlagsV) -> Seq<Seq<char>> {
    unique_fold(seq![], values_or(m, "network"@, "net"@))
}

/// The named volumes the flags use, each once, in order.
pub open spec fn volumes_in(m: FlagsV) -> Seq<Seq<char>> {
    volume_names(seq![], values_or(m, "volume"@, "v"@))
}

/// The network that per-network slots are filled with.
pub open spec fn network_for(m: FlagsV) -> Seq<char> {
    let vs = values_or(m, "network"@, "net"@);
    if vs.len() > 0 {
        vs[0]
    } else {
        "default"@
    }
}

/// The last path segment of the image, without its tag (what follows the
/// last `:` of that segment).
pub open spec fn service_name(image: Seq<char>) -> Seq<char> {
    let seg = split(image, '/').last();
    let parts = split(seg, ':');
    if parts.len() > 1 {
        join(parts.drop_last(), ':')
    } else {
        seg
    }
}

/// The version a format selects: `Some(None)` for none, `None` for an unknown format.
pub open spec fn version_of(format: Seq<char>) -> Option<Option<Seq<char>>> {
    if format == "v2x"@ {
        Some(Some("2"@))
    } else if format == "v3x"@ {
        Some(Some("3"@))
    } else if format == "latest"@ {
        Some(None)
    } else {
        None
    }
}

pub open spec fn is_default_network(n: Seq<char>) -> bool {
    n == "default"@ || n == "bridge"@ || n == "host"@ || n == "none"@
}

pub open spec fn network_section(d: DictV, nets: Seq<Seq<char>>) -> DictV
    decreases nets.len(),
{
    if nets.len() == 0 {
        d
    } else {
        network_section(
            if is_default_network(nets[0]) {
                d
            } else {
                put_key(d, nets[0], Tree::Dict(seq![("external"@, Tree::Bool(true))]))
            },
            nets.skip(1),
        )
    }
}

pub open spec fn volume_section(d: DictV, vols: Seq<Seq<char>>) -> DictV
    decreases vols.len(),
{
    if vols.len() == 0 {
        d
    } else {
        volume_section(put_key(d, vols[0], Tree::Null), vols.skip(1))
    }
}

/// The service with its image and, if any, its exec command.
pub open spec fn service_doc(svc: DictV, image: Seq<char>, command: Seq<Seq<char>>) -> DictV {
    let a = put_key(svc, "image"@, Tree::Text(image));
    if command.len() > 0 {
        put_key(a, "command"@, Tree::Text(join(command, ' ')))
    } else {
        a
    }
}

pub open spec fn assemble(
    version: Option<Seq<char>>,
    name: Seq<char>,
    service: DictV,
    nets: Seq<Seq<char>>,
    vols: Seq<Seq<char>>,
) -> Tree {
    let v: DictV = match version {
        Some(x) => seq![("version"@, Tree::Text(x))],
        None => seq![],
    };
    let s = v.push(("services"@, Tree::Dict(seq![(name, Tree::Dict(service))])));
    let ns = network_section(seq![], nets);
    let s2 = if ns.len() > 0 {
        s.push(("networks"@, Tree::Dict(ns)))
    } else {
        s
    };
    let s3 = if vols.len() > 0 {
        s2.push(("volumes"@, Tree::Dict(volume_section(seq![], vols))))
    } else {
        s2
    };
    Tree::Dict(s3)
}

/// The document for the tokens of a command and a format, or the first error.
pub open spec fn composed_from(toks: Seq<Seq<char>>, format: Seq<char>) -> Result<Tree, Seq<char>> {
    match classified(toks) {
        Err(e) => Err(e),
        Ok((image, command, flags)) => match build_from(seq![], flags, network_for(flags)) {
            Err(e) => Err(e),
            Ok(svc) => match version_of(format) {
                None => Err("Unknown format: "@ + format),
                Some(v) => Ok(
                    assemble(
                        v,
                        service_name(image),
                        service_doc(svc, image, command),
                        networks_in(flags),
                        volumes_in(flags),
                    ),
                ),
            },
        },
    }
}

pub open spec fn node_matches(r: Result<Node, String>, c: Result<Tree, Seq<char>>) -> bool {
    match c {
        Ok(t) => r matches Ok(n) && n@ == t,
        Err(e) => r matches Err(m) && m@ == e,
    }
}

fn find_flag(flags: &Vec<(String, Vec<String>)>, key: &str) -> (r: Option<usize>)
    ensures
        r matches Some(j) ==> j < flags@.len() && key_index(flag_vec_view(flags@), key@) == j,
        r is None ==> key_index(flag_vec_view(flags@), key@) == -1,
{
    let ghost fv = flag_vec_view(flags@);
    let k = chars_of(key);
    let mut i: usize = 0;
    while i < flags.len()
        invariant
            i <= flags@.len(),
            fv == flag_vec_view(flags@),
            k@ == key@,
            forall|j: int| 0 <= j < i ==> fv[j].0 != key@,
        decreases flags@.len() - i,
    {
        let name = chars_of(flags[i].0.as_str());
        assert(fv[i as int].0 == flags@[i as int].0@);
        if crate::text::eq_chars(name.as_slice(), k.as_slice()) {
            proof {
                lemma_key_index(fv, key@, i as int);
            }
            return Some(i);
        }
        i = i + 1;
    }
    proof {
        lemma_key_absent(fv, key@);
    }
    None
}

fn copy_strings(v: &Vec<String>) -> (r: Vec<String>)
    ensures
        strings(r@) == strings(v@),
{
    let mut r: Vec<String> = Vec::new();
    let mut i: usize = 0;
    while i < v.len()
        invariant
            i <= v@.len(),
            strings(r@) == strings(v@).take(i as int),
        decreases v@.len() - i,
    {
        let ghost before = strings(r@);
        r.push(v[i].clone());
        assert(strings(r@) =~= before.push(v@[i as int]@));
        assert(strings(v@).take(i + 1) =~= strings(v@).take(i as int).push(v@[i as int]@));
        i = i + 1;
    }
    assert(strings(v@).take(i as int) =~= strings(v@));
    r
}

fn values_or_exec(flags: &Vec<(String, Vec<String>)>, a: &str, b: &str) -> (r: Vec<String>)
    ensures
        strings(r@) == values_or(flag_vec_view(flags@), a@, b@),
{
    let ghost fv = flag_vec_view(flags@);
    match find_flag(flags, a) {
        Some(j) => {
            assert(fv[j as int].1 == strings(flags@[j as int].1@));
            copy_strings(&flags[j].1)
        },
        None => match find_flag(flags, b) {
            Some(j) => {
                assert(fv[j as int].1 == strings(flags@[j as int].1@));
                copy_strings(&flags[j].1)
            },
            None => {
                let r: Vec<String> = Vec::new();
                assert(strings(r@) =~= Seq::<Seq<char>>::empty());
                r
            },
        },
    }
}

fn contains_string(s: &Vec<String>, x: &String) -> (r: bool)
    ensures
        r == strings(s@).contains(x@),
{
    let mut i: usize = 0;
    while i < s.len()
        invariant
            i <= s@.len(),
            forall|j: int| 0 <= j < i ==> strings(s@)[j] != x@,
        decreases s@.len() - i,
    {
        if s[i] == *x {
            assert(strings(s@)[i as int] == x@);
            return true;
        }
        i = i + 1;
    }
    false
}

fn push_unique(s: &mut Vec<String>, x: String)
    ensures
        strings(final(s)@) == add_unique(strings(old(s)@), x@),
{
    if !contains_string(s, &x) {
        let ghost before = strings(s@);
        let ghost xv = x@;
        s.push(x);
        assert(strings(s@) =~= before.push(xv));
    }
}

/// The networks and the named volumes that the flags refer to, each once.
pub fn collect_resources(args: &indexmap::IndexMap<String, Vec<String>>) -> (r: (Vec<String>, Vec<String>))
    ensures
        strings(r.0@) == networks_in(flag_entries(*args)),
        strings(r.1@) == volumes_in(flag_entries(*args)),
{
    let flags = flags_to_vec(args);
    let nets = values_or_exec(&flags, "network", "net");
    let vols = values_or_exec(&flags, "volume", "v");
    let ghost ns = strings(nets@);
    let ghost vs = strings(vols@);
    let mut networks: Vec<String> = Vec::new();
    let mut i: usize = 0;
    assert(ns.skip(0) =~= ns);
    assert(strings(networks@) =~= Seq::<Seq<char>>::empty());
    while i < nets.len()
        invariant
            i <= nets@.len(),
            ns == strings(nets@),
            unique_fold(strings(networks@), ns.skip(i as int)) == unique_fold(seq![], ns),
        decreases nets@.len() - i,
    {
        assert(ns[i as int] == nets@[i as int]@);
        assert(ns.skip(i as int).skip(1) =~= ns.skip(i + 1));
        push_unique(&mut networks, nets[i].clone());
        i = i + 1;
    }
    assert(ns.skip(i as int) =~= Seq::<Seq<char>>::empty());
    let mut volumes: Vec<String> = Vec::new();
    let mut j: usize = 0;
    assert(vs.skip(0) =~= vs);
    assert(strings(volumes@) =~= Seq::<Seq<char>>::empty());
    while j < vols.len()
        invariant
            j <= vols@.len(),
            vs == strings(vols@),
            volume_names(strings(volumes@), vs.skip(j as int)) == volume_names(seq![], vs),
        decreases vols@.len() - j,
    {
        assert(vs[j as int] == vols@[j as int]@);
        assert(vs.skip(j as int).skip(1) =~= vs.skip(j + 1));
        let v = chars_of(vols[j].as_str());
        if !(v.len() > 0 && (v[0] == '/' || v[0] == '.' || v[0] == '~')) {
            let parts = split_chars(v.as_slice(), ':');
            assert(deep(parts@)[0] == parts@[0]@);
            assert(v@ == vs[j as int]);
            push_unique(&mut volumes, string_of(parts[0].as_slice()));
        }
        j = j + 1;
    }
    assert(vs.skip(j as int) =~= Seq::<Seq<char>>::empty());
    (networks, volumes)
}

/// The service name of an image: its last path segment without the tag.
pub fn get_service_name(image: &str) -> (r: String)
    ensures
        r@ == service_name(image@),
{
    let s = chars_of(image);
    let segs = split_chars(s.as_slice(), '/');
    let nseg = segs.len();
    let last = &segs[nseg - 1];
    assert(deep(segs@).last() == last@);
    let mut parts = split_chars(last.as_slice(), ':');
    if parts.len() > 1 {
        let ghost before = deep(parts@);
        parts.pop();
        assert(deep(parts@) =~= before.drop_last());
        let name = join_chars(&parts, ':');
        string_of(name.as_slice())
    } else {
        string_of(last.as_slice())
    }
}

fn network_section_exec(nets: &Vec<String>) -> (r: Vec<(String, Node)>)
    ensures
        dict_view(r@) == network_section(seq![], strings(nets@)),
{
    let ghost ns = strings(nets@);
    let mut d: Vec<(String, Node)> = Vec::new();
    let mut i: usize = 0;
    assert(ns.skip(0) =~= ns);
    assert(dict_view(d@) =~= Seq::<(Seq<char>, Tree)>::empty());
    while i < nets.len()
        invariant
            i <= nets@.len(),
            ns == strings(nets@),
            network_section(dict_view(d@), ns.skip(i as int)) == network_section(seq![], ns),
        decreases nets@.len() - i,
    {
        assert(ns[i as int] == nets@[i as int]@);
        assert(ns.skip(i as int).skip(1) =~= ns.skip(i + 1));
        let n = chars_of(nets[i].as_str());
        if !(is_lit(n.as_slice(), "default") || is_lit(n.as_slice(), "bridge") || is_lit(
            n.as_slice(),
            "host",
        ) || is_lit(n.as_slice(), "none")) {
            let conf = vec![(String::from_str("external"), Node::Bool(true))];
            assert(dict_view(conf@) =~= seq![("external"@, Tree::Bool(true))]);
            proof {
                lemma_dict_view(conf);
            }
            put_key_exec(&mut d, nets[i].clone(), Node::Dict(conf));
        }
        i = i + 1;
    }
    assert(ns.skip(i as int) =~= Seq::<Seq<char>>::empty());
    d
}

fn volume_section_exec(vols: &Vec<String>) -> (r: Vec<(String, Node)>)
    ensures
        dict_view(r@) == volume_section(seq![], strings(vols@)),
{
    let ghost vs = strings(vols@);
    let mut d: Vec<(String, Node)> = Vec::new();
    let mut i: usize = 0;
    assert(vs.skip(0) =~= vs);
    assert(dict_view(d@) =~= Seq::<(Seq<char>, Tree)>::empty());
    while i < vols.len()
        invariant
            i <= vols@.len(),
            vs == strings(vols@),
            volume_section(dict_view(d@), vs.skip(i as int)) == volume_section(seq![], vs),
        decreases vols@.len() - i,
    {
        assert(vs[i as int] == vols@[i as int]@);
        assert(vs.skip(i as int).skip(1) =~= vs.skip(i + 1));
        put_key_exec(&mut d, vols[i].clone(), Node::Null);
        i = i + 1;
    }
    assert(vs.skip(i as int) =~= Seq::<Seq<char>>::empty());
    d
}

fn join_words(words: &Vec<String>) -> (r: String)
    ensures
        r@ == join(strings(words@), ' '),
{
    let mut cs: Vec<Vec<char>> = Vec::new();
    let mut i: usize = 0;
    while i < words.len()
        invariant
            i <= words@.len(),
            deep(cs@) == strings(words@).take(i as int),
        decreases words@.len() - i,
    {
        let ghost before = deep(cs@);
        cs.push(chars_of(words[i].as_str()));
        assert(deep(cs@) =~= before.push(words@[i as int]@));
        assert(strings(words@).take(i + 1) =~= strings(words@).take(i as int).push(words@[i as int]@));
        i = i + 1;
    }
    assert(strings(words@).take(i as int) =~= strings(words@));
    let j = join_chars(&cs, ' ');
    string_of(j.as_slice())
}

/// The document for a command whose engine prefix is already removed.
pub fn compose_stripped(stripped: &str, format: &str) -> (r: Result<Node, String>)
    ensures
        node_matches(r, composed_from(tokens_of(stripped@), format@)),
{
    let tokens = tokenize(stripped);
    let (image, command, args) = match classify(&tokens) {
        Ok(t) => t,
        Err(e) => {
            return Err(e);
        },
    };
    let ghost fl = flag_entries(args);
    let ghost toks = tokens_of(stripped@);
    assert(classified(toks) == Ok::<(Seq<char>, Seq<Seq<char>>, FlagsV), Seq<char>>((image@, strings(command@), fl)));
    let flags = flags_to_vec(&args);
    let nets = values_or_exec(&flags, "network", "net");
    let network = if nets.len() > 0 {
        assert(strings(nets@)[0] == nets@[0]@);
        nets[0].clone()
    } else {
        String::from_str("default")
    };
    assert(network@ == network_for(fl));
    let service = match build_compose_value(&args, network.as_str()) {
        Ok(n) => n,
        Err(e) => {
            return Err(e);
        },
    };
    let mut svc: Vec<(String, Node)> = match service {
        Node::Dict(v) => v,
        _ => Vec::new(),
    };
    proof {
        lemma_dict_view(svc);
    }
    let ghost built_svc = dict_view(svc@);
    assert(build_from(seq![], fl, network_for(fl)) == Ok::<DictV, Seq<char>>(built_svc));
    let image_text = image.clone();
    put_key_exec(&mut svc, String::from_str("image"), Node::Text(image_text));
    if command.len() > 0 {
        let words = join_words(&command);
        put_key_exec(&mut svc, String::from_str("command"), Node::Text(words));
    }
    assert(dict_view(svc@) == service_doc(built_svc, image@, strings(command@)));
    let f = chars_of(format);
    let version: Option<String> = if is_lit(f.as_slice(), "v2x") {
        Some(String::from_str("2"))
    } else if is_lit(f.as_slice(), "v3x") {
        Some(String::from_str("3"))
    } else if is_lit(f.as_slice(), "latest") {
        None
    } else {
        let mut m = String::from_str("Unknown format: ");
        m.append(format);
        return Err(m);
    };
    let name = get_service_name(image.as_str());
    let (networks, volumes) = collect_resources(&args);
    let mut top: Vec<(String, Node)> = Vec::new();
    let ghost vpart: DictV = if version is Some {
        seq![("version"@, Tree::Text(version->Some_0@))]
    } else {
        seq![]
    };
    match version {
        Some(v) => {
            top.push((String::from_str("version"), Node::Text(v)));
        },
        None => {},
    }
    let ghost tv = dict_view(top@);
    assert(tv =~= vpart);
    proof {
        lemma_dict_view(svc);
    }
    let ghost svcv = Tree::Dict(dict_view(svc@));
    let ghost namev = name@;
    let services = vec![(name, Node::Dict(svc))];
    assert(dict_view(services@) =~= seq![(namev, svcv)]);
    proof {
        lemma_dict_view(services);
    }
    let ghost sv = Node::Dict(services)@;
    assert(sv == Tree::Dict(seq![(service_name(image@), Tree::Dict(service_doc(built_svc, image@, strings(command@))))]));
    top.push((String::from_str("services"), Node::Dict(services)));
    assert(dict_view(top@) =~= tv.push(("services"@, sv)));
    let ns = network_section_exec(&networks);
    if ns.len() > 0 {
        proof {
            lemma_dict_view(ns);
        }
        let ghost before = dict_view(top@);
        let ghost nv = Node::Dict(ns)@;
        top.push((String::from_str("networks"), Node::Dict(ns)));
        assert(dict_view(top@) =~= before.push(("networks"@, nv)));
    }
    if volumes.len() > 0 {
        let vsec = volume_section_exec(&volumes);
        proof {
            lemma_dict_view(vsec);
        }
        let ghost before = dict_view(top@);
        let ghost vv = Node::Dict(vsec)@;
        top.push((String::from_str("volumes"), Node::Dict(vsec)));
        assert(dict_view(top@) =~= before.push(("volumes"@, vv)));
    }
    proof {
        lemma_dict_view(top);
    }
    assert(version_of(format@) == Some(match version {
        Some(v) => Some(v@),
        None => None::<Seq<char>>,
    }));
    Ok(Node::Dict(top))
}

/// The document for a launch command and a format (`latest`, `v2x` or `v3x`).
pub fn compose_document(input: &str, format: &str) -> (r: Result<Node, String>)
    ensures
        node_matches(
            r,
            composed_from(tokens_of(regex_removed(ENGINE_PREFIX@, normalized(input@))), format@),
        ),
        node_matches(r, composed_from(tokens_of(engine_stripped(normalized(input@))), format@)),
{
    let cleaned = normalize_command(input);
    proof {
        lemma_normalized_single_spaced(input@);
    }
    match remove_first_match(ENGINE_PREFIX, cleaned.as_str()) {
        Ok(stripped) => compose_stripped(stripped.as_str(), format),
        Err(_) => Err(String::from_str("Regex error")),
    }
}

/// Converts a launch command into a compose document in YAML notation.
pub fn composerize(input: &str, _existing_compose: &str, format: &str, _indent: usize) -> (r: Result<String, String>)
    ensures
        match composed_from(tokens_of(engine_stripped(normalized(input@))), format@) {
            Ok(t) => match yaml_of(canon(t)) {
                Some(s) => r matches Ok(x) && x@ == s,
                None => r is Err,
            },
            Err(e) => r matches Err(m) && m@ == e,
        },
{
    match compose_document(input, format) {
        Ok(doc) => render_yaml(&doc),
        Err(e) => Err(e),
    }
}

/// Converts a launch command into a compose document in JSON notation, indented
/// when `indent` is not zero.
pub fn composerize_to_json(input: &str, _existing_compose: &str, format: &str, indent: usize) -> (r: Result<String, String>)
    ensures
        match composed_from(tokens_of(engine_stripped(normalized(input@))), format@) {
            Ok(t) => match json_of(canon(t), indent > 0) {
                Some(s) => r matches Ok(x) && x@ == s,
                None => r is Err,
            },
            Err(e) => r matches Err(m) && m@ == e,
        },
{
    match compose_document(input, format) {
        Ok(doc) => render_json(&doc, indent > 0),
        Err(e) => Err(e),
    }
}

} // verus!
