//! From classified flags to the service document, one value at a time.
use vstd::prelude::*;

use crate::bindings::{
    flag_entries, flag_vec_view, flags_to_vec, reads_as_number, yaml_number_ok, FlagsV,
};
use crate::doc::{
    dict_view, edit_at, edit_dict, put_key_exec, lemma_dict_view, lemma_list_view, put_key, DictV, Edit, EditOp,
    Node, Tree,
};
use crate::mappings::{mapping_entry, mapping_of, ArgType};
use crate::numbers::{decimal_number, i64_of, is_decimal_number, parse_i64};
use crate::parser::{replace_all, replace_chars};
use crate::text::{
    chars_of, deep, find, find_char, has_lit_prefix, is_lit, slice_chars, split, split_chars,
    starts_with, string_of, strings, trim, trim_chars, unquote, strip_quotes,
};

verus! {

/// The slot path of a mapping: the placeholder replaced by the network, then
/// split on `/`.
pub open spec fn slot_of(path: Seq<char>, network: Seq<char>) -> Seq<Seq<char>> {
    split(replace_all(path, "{network}"@, network), '/')
}

/// The final segment is `test` and some segment is `healthcheck`.
pub open spec fn is_health_test(path: Seq<Seq<char>>) -> bool {
    path.len() > 0 && path.last() == "test"@ && path.contains("healthcheck"@)
}

/// `KEY=value` with the value's quotes removed; a value without `=` as it is.
pub open spec fn env_entry(v: Seq<char>) -> Seq<char> {
    let k = find(v, '=');
    if k >= 0 {
        v.take(k) + "="@ + unquote(v.skip(k + 1))
    } else {
        v
    }
}

/// A network given by name, rather than a mode such as `host` or `container:x`.
pub open spec fn named_network(v: Seq<char>) -> bool {
    find(v, ':') < 0 && v != "host"@ && v != "bridge"@ && v != "none"@ && !starts_with(
        v,
        "container:"@,
    )
}

/// A number when the text reads as an `i64`, else the text.
pub open spec fn scalar_of(v: Seq<char>) -> Tree {
    match i64_of(v) {
        Some(n) => Tree::Int(n),
        None => Tree::Text(v),
    }
}

pub open spec fn kv_item(d: DictV, item: Seq<char>, entry_sep: char) -> DictV {
    let k = find(item, entry_sep);
    if k >= 0 {
        put_key(d, trim(item.take(k)), scalar_of(trim(item.skip(k + 1))))
    } else {
        d
    }
}

pub open spec fn kv_fold(d: DictV, items: Seq<Seq<char>>, entry_sep: char) -> DictV
    decreases items.len(),
{
    if items.len() == 0 {
        d
    } else {
        kv_fold(kv_item(d, items[0], entry_sep), items.skip(1), entry_sep)
    }
}

/// The entries of a delimited `key=value` list; later keys replace earlier ones
/// in place, items without the separator are skipped.
pub open spec fn kv_list(s: Seq<char>, list_sep: char, entry_sep: char) -> DictV {
    kv_fold(seq![], split(s, list_sep), entry_sep)
}

/// The pieces joined with `sep` between them.
pub open spec fn join(parts: Seq<Seq<char>>, sep: char) -> Seq<char>
    decreases parts.len(),
{
    if parts.len() == 0 {
        seq![]
    } else if parts.len() == 1 {
        parts[0]
    } else {
        join(parts.drop_last(), sep) + seq![sep] + parts.last()
    }
}

pub open spec fn tmpfs_step(st: (Seq<char>, Seq<Seq<char>>), part: Seq<char>) -> (
    Seq<char>,
    Seq<Seq<char>>,
) {
    let k = find(part, '=');
    if k < 0 {
        st
    } else {
        let key = part.take(k);
        let val = part.skip(k + 1);
        if key == "destination"@ || key == "target"@ || key == "dst"@ {
            (val, st.1)
        } else if key == "tmpfs-size"@ {
            (st.0, st.1.push("size="@ + val))
        } else {
            st
        }
    }
}

pub open spec fn tmpfs_fold(st: (Seq<char>, Seq<Seq<char>>), parts: Seq<Seq<char>>) -> (
    Seq<char>,
    Seq<Seq<char>>,
)
    decreases parts.len(),
{
    if parts.len() == 0 {
        st
    } else {
        tmpfs_fold(tmpfs_step(st, parts[0]), parts.skip(1))
    }
}

/// A tmpfs mount in short form: `destination:rw,noexec,nosuid[,size=N]`.
pub open spec fn tmpfs_of(m: Seq<char>) -> Seq<char> {
    let st = tmpfs_fold((seq![], seq![]), split(m, ','));
    st.0 + ":"@ + join(seq!["rw"@, "noexec"@, "nosuid"@] + st.1, ',')
}

pub open spec fn volume_step(st: (Seq<char>, Seq<char>, bool), part: Seq<char>) -> (
    Seq<char>,
    Seq<char>,
    bool,
) {
    if starts_with(part, "source="@) {
        (part.skip("source="@.len() as int), st.1, st.2)
    } else if starts_with(part, "target="@) {
        (st.0, part.skip("target="@.len() as int), st.2)
    } else if starts_with(part, "destination="@) {
        (st.0, part.skip("destination="@.len() as int), st.2)
    } else if part == "readonly"@ || part == "ro"@ {
        (st.0, st.1, true)
    } else {
        st
    }
}

pub open spec fn volume_fold(st: (Seq<char>, Seq<char>, bool), parts: Seq<Seq<char>>) -> (
    Seq<char>,
    Seq<char>,
    bool,
)
    decreases parts.len(),
{
    if parts.len() == 0 {
        st
    } else {
        volume_fold(volume_step(st, parts[0]), parts.skip(1))
    }
}

/// A bind or volume mount in short form `source:target[:ro]`; the mount text
/// itself when source or target is missing.
pub open spec fn volume_of(m: Seq<char>) -> Seq<char> {
    let st = volume_fold((seq![], seq![], false), split(m, ','));
    if st.0.len() > 0 && st.1.len() > 0 {
        st.0 + ":"@ + st.1 + (if st.2 {
            ":ro"@
        } else {
            seq![]
        })
    } else {
        m
    }
}

pub open spec fn ulimit_result(doc: DictV, path: Seq<Seq<char>>, value: Seq<char>) -> Result<
    DictV,
    Seq<char>,
> {
    let k = find(value, '=');
    if k < 0 {
        Err("Invalid ulimit format: "@ + value)
    } else {
        let full = path + split(value.take(k), '/');
        let lim = value.skip(k + 1);
        if find(lim, ':') >= 0 {
            let parts = split(lim, ':');
            if parts.len() == 2 {
                match (i64_of(parts[0]), i64_of(parts[1])) {
                    (Some(a), Some(b)) => Ok(
                        edit_at(
                            doc,
                            full,
                            Edit::Merge(seq![("soft"@, Tree::Int(a)), ("hard"@, Tree::Int(b))]),
                        ),
                    ),
                    (None, _) => Err("Invalid soft limit: "@ + parts[0]),
                    (Some(_), None) => Err("Invalid hard limit: "@ + parts[1]),
                }
            } else {
                Err("Invalid ulimit format: "@ + value)
            }
        } else {
            match i64_of(lim) {
                Some(n) => Ok(edit_at(doc, full, Edit::Put(Tree::Int(n)))),
                None => Err("Invalid limit: "@ + lim),
            }
        }
    }
}

/// The `deploy` entries that reserve `count` GPUs of the nvidia driver.
pub open spec fn gpu_resources(count: Tree) -> DictV {
    seq![
        ("resources"@, Tree::Dict(seq![
            ("reservations"@, Tree::Dict(seq![
                ("devices"@, Tree::List(seq![
                    Tree::Dict(seq![
                        ("driver"@, Tree::Text("nvidia"@)),
                        ("count"@, count),
                        ("capabilities"@, Tree::List(seq![Tree::Text("gpu"@)])),
                    ]),
                ])),
            ])),
        ])),
    ]
}

pub open spec fn gpu_result(doc: DictV, value: Seq<char>) -> Result<DictV, Seq<char>> {
    let count = if value == "all"@ {
        Some(Tree::Text("all"@))
    } else {
        match i64_of(value) {
            Some(n) => Some(Tree::Int(n)),
            None => None,
        }
    };
    match count {
        Some(c) => Ok(edit_at(doc, seq!["deploy"@], Edit::Merge(gpu_resources(c)))),
        None => Err("Invalid GPU count: "@ + value),
    }
}

/// One value of a flag of kind `kind`, placed at `path` of `doc`.
pub open spec fn apply_value(doc: DictV, path: Seq<Seq<char>>, kind: ArgType, value: Seq<char>) -> Result<
    DictV,
    Seq<char>,
> {
    match kind {
        ArgType::Array => Ok(edit_at(doc, path, Edit::Append(value))),
        ArgType::Ulimits => ulimit_result(doc, path, value),
        ArgType::Switch => Ok(edit_at(doc, path, Edit::Put(Tree::Bool(value == "true"@)))),
        ArgType::Value => Ok(
            edit_at(
                doc,
                path,
                Edit::Put(
                    if is_health_test(path) {
                        Tree::List(seq![Tree::Text("CMD-SHELL"@), Tree::Text(value)])
                    } else {
                        Tree::Text(value)
                    },
                ),
            ),
        ),
        ArgType::IntValue => match i64_of(value) {
            Some(n) => Ok(edit_at(doc, path, Edit::Put(Tree::Int(n)))),
            None => Err("Invalid integer: "@ + value),
        },
        ArgType::FloatValue => if decimal_number(value) && yaml_number_ok(value) {
            Ok(edit_at(doc, path, Edit::Put(Tree::Float(value))))
        } else {
            Err("Invalid float: "@ + value)
        },
        ArgType::DeviceBlockIOConfigRate => Ok(edit_at(doc, path, Edit::Put(Tree::Text(value)))),
        ArgType::DeviceBlockIOConfigWeight => Ok(edit_at(doc, path, Edit::Put(Tree::Text(value)))),
        ArgType::Networks => if named_network(value) {
            Ok(
                edit_at(
                    doc,
                    seq!["networks"@],
                    Edit::Put(Tree::Dict(seq![(value, Tree::Dict(seq![]))])),
                ),
            )
        } else {
            Ok(edit_at(doc, seq!["network_mode"@], Edit::Put(Tree::Text(value))))
        },
        ArgType::MapArray => if starts_with(value, "type=tmpfs"@) {
            Ok(edit_at(doc, seq!["tmpfs"@], Edit::Append(tmpfs_of(value))))
        } else if starts_with(value, "type=bind"@) || starts_with(value, "type=volume"@) {
            Ok(edit_at(doc, seq!["volumes"@], Edit::Append(volume_of(value))))
        } else {
            Ok(edit_at(doc, path, Edit::Append(value)))
        },
        ArgType::KeyValues => Ok(edit_at(doc, path, Edit::Merge(kv_list(value, ',', '=')))),
        ArgType::Envs => Ok(edit_at(doc, path, Edit::Append(env_entry(value)))),
        ArgType::Gpus => gpu_result(doc, value),
    }
}

pub open spec fn apply_values(
    doc: DictV,
    path: Seq<Seq<char>>,
    kind: ArgType,
    values: Seq<Seq<char>>,
) -> Result<DictV, Seq<char>>
    decreases values.len(),
{
    if values.len() == 0 {
        Ok(doc)
    } else {
        match apply_value(doc, path, kind, values[0]) {
            Ok(d) => apply_values(d, path, kind, values.skip(1)),
            Err(e) => Err(e),
        }
    }
}

/// All values of one flag; flags without an entry or with an empty path change nothing.
pub open spec fn apply_flag(doc: DictV, key: Seq<char>, values: Seq<Seq<char>>, network: Seq<char>) -> Result<
    DictV,
    Seq<char>,
> {
    match mapping_entry(key) {
        Some(e) => if e.1.len() == 0 {
            Ok(doc)
        } else {
            apply_values(doc, slot_of(e.1, network), e.0, values)
        },
        None => Ok(doc),
    }
}

pub open spec fn build_from(doc: DictV, flags: FlagsV, network: Seq<char>) -> Result<
    DictV,
    Seq<char>,
>
    decreases flags.len(),
{
    if flags.len() == 0 {
        Ok(doc)
    } else {
        match apply_flag(doc, flags[0].0, flags[0].1, network) {
            Ok(d) => build_from(d, flags.skip(1), network),
            Err(e) => Err(e),
        }
    }
}

/// The service document that the flags describe, or the first error.
pub open spec fn built(flags: FlagsV, network: Seq<char>) -> Result<Tree, Seq<char>> {
    match build_from(seq![], flags, network) {
        Ok(d) => Ok(Tree::Dict(d)),
        Err(e) => Err(e),
    }
}

/// `r` is `c`: on success `d` is the new document, on an error `d` is still `d0`.
pub open spec fn result_matches<T>(
    r: Result<T, String>,
    c: Result<DictV, Seq<char>>,
    d0: DictV,
    d: DictV,
) -> bool {
    match c {
        Ok(v) => r is Ok && d == v,
        Err(e) => r matches Err(m) && m@ == e && d == d0,
    }
}

fn message(prefix: &str, v: &[char]) -> (r: String)
    ensures
        r@ == prefix@ + v@,
{
    let mut s = String::from_str(prefix);
    let t = string_of(v);
    s.append(t.as_str());
    s
}

fn cat(a: &[char], b: &[char]) -> (r: Vec<char>)
    ensures
        r@ == a@ + b@,
{
    let mut r = slice_chars(a, 0, a.len());
    assert(r@ =~= a@);
    let mut i: usize = 0;
    while i < b.len()
        invariant
            i <= b@.len(),
            r@ == a@ + b@.take(i as int),
        decreases b@.len() - i,
    {
        r.push(b[i]);
        i = i + 1;
        assert(r@ =~= a@ + b@.take(i as int));
    }
    assert(b@.take(i as int) =~= b@);
    r
}

fn cat_lit(a: &[char], lit: &str) -> (r: Vec<char>)
    ensures
        r@ == a@ + lit@,
{
    let l = chars_of(lit);
    cat(a, l.as_slice())
}

fn one_segment(s: &str) -> (r: Vec<String>)
    ensures
        strings(r@) == seq![s@],
{
    let r = vec![String::from_str(s)];
    assert(strings(r@) =~= seq![s@]);
    r
}

fn text_node(s: &str) -> (r: Node)
    ensures
        r@ == Tree::Text(s@),
{
    Node::Text(String::from_str(s))
}

fn list_node(items: Vec<Node>) -> (r: Node)
    ensures
        r@ == Tree::List(items@.map_values(|n: Node| n@)),
{
    proof {
        lemma_list_view(items);
    }
    Node::List(items)
}

fn dict_node(entries: Vec<(String, Node)>) -> (r: Node)
    ensures
        r@ == Tree::Dict(dict_view(entries@)),
{
    proof {
        lemma_dict_view(entries);
    }
    Node::Dict(entries)
}

/// Joins the pieces with `sep` between them.
pub fn join_chars(parts: &Vec<Vec<char>>, sep: char) -> (r: Vec<char>)
    ensures
        r@ == join(deep(parts@), sep),
{
    let mut out: Vec<char> = Vec::new();
    let mut i: usize = 0;
    assert(deep(parts@).take(0) =~= Seq::<Seq<char>>::empty());
    while i < parts.len()
        invariant
            i <= parts@.len(),
            out@ == join(deep(parts@).take(i as int), sep),
        decreases parts@.len() - i,
    {
        let ghost p = deep(parts@).take(i as int + 1);
        assert(p.drop_last() =~= deep(parts@).take(i as int));
        assert(p.last() == parts@[i as int]@);
        if i == 0 {
            out = slice_chars(parts[0].as_slice(), 0, parts[0].len());
            assert(out@ =~= p[0]);
        } else {
            out.push(sep);
            out = cat(out.as_slice(), parts[i].as_slice());
        }
        i = i + 1;
    }
    assert(deep(parts@).take(i as int) =~= deep(parts@));
    out
}

/// `--mount type=tmpfs,...` in the short form `destination:rw,noexec,nosuid[,size=N]`.
pub fn convert_mount_to_tmpfs(mount_str: &str) -> (r: String)
    ensures
        r@ == tmpfs_of(mount_str@),
{
    let m = chars_of(mount_str);
    let parts = split_chars(m.as_slice(), ',');
    let ghost ps = deep(parts@);
    let mut dest: Vec<char> = Vec::new();
    let mut opts: Vec<Vec<char>> = Vec::new();
    let mut i: usize = 0;
    assert(ps.skip(0) =~= ps);
    assert(deep(opts@) =~= Seq::<Seq<char>>::empty());
    while i < parts.len()
        invariant
            i <= parts@.len(),
            ps == deep(parts@),
            ps == split(m@, ','),
            tmpfs_fold((dest@, deep(opts@)), ps.skip(i as int)) == tmpfs_fold(
                (seq![], seq![]),
                ps,
            ),
        decreases parts@.len() - i,
    {
        let part = &parts[i];
        assert(ps[i as int] == part@);
        assert(ps.skip(i as int).skip(1) =~= ps.skip(i + 1));
        match find_char(part.as_slice(), '=') {
            None => {},
            Some(k) => {
                let key = slice_chars(part.as_slice(), 0, k);
                let val = slice_chars(part.as_slice(), k + 1, part.len());
                assert(key@ =~= part@.take(k as int));
                assert(val@ =~= part@.skip(k + 1));
                if is_lit(key.as_slice(), "destination") || is_lit(key.as_slice(), "target")
                    || is_lit(key.as_slice(), "dst") {
                    dest = val;
                } else if is_lit(key.as_slice(), "tmpfs-size") {
                    let size = chars_of("size=");
                    let opt = cat(size.as_slice(), val.as_slice());
                    let ghost before = deep(opts@);
                    opts.push(opt);
                    assert(deep(opts@) =~= before.push("size="@ + val@));
                }
            },
        }
        i = i + 1;
    }
    assert(ps.skip(i as int) =~= Seq::<Seq<char>>::empty());
    let mut list: Vec<Vec<char>> = vec![chars_of("rw"), chars_of("noexec"), chars_of("nosuid")];
    assert(deep(list@) =~= seq!["rw"@, "noexec"@, "nosuid"@]);
    let mut j: usize = 0;
    while j < opts.len()
        invariant
            j <= opts@.len(),
            deep(list@) == seq!["rw"@, "noexec"@, "nosuid"@] + deep(opts@).take(j as int),
        decreases opts@.len() - j,
    {
        let ghost before = deep(list@);
        let o = slice_chars(opts[j].as_slice(), 0, opts[j].len());
        assert(o@ =~= opts@[j as int]@);
        list.push(o);
        assert(deep(list@) =~= before.push(opts@[j as int]@));
        assert(deep(opts@).take(j + 1) =~= deep(opts@).take(j as int).push(opts@[j as int]@));
        j = j + 1;
    }
    assert(deep(opts@).take(j as int) =~= deep(opts@));
    let joined = join_chars(&list, ',');
    let head = cat_lit(dest.as_slice(), ":");
    let all = cat(head.as_slice(), joined.as_slice());
    string_of(all.as_slice())
}

/// `--mount type=bind|volume,source=..,target=..[,readonly]` in the short form
/// `source:target[:ro]`; the text itself when source or target is missing.
pub fn convert_mount_to_volume(mount_str: &str) -> (r: String)
    ensures
        r@ == volume_of(mount_str@),
{
    let m = chars_of(mount_str);
    let parts = split_chars(m.as_slice(), ',');
    let ghost ps = deep(parts@);
    let mut source: Vec<char> = Vec::new();
    let mut target: Vec<char> = Vec::new();
    let mut readonly = false;
    let mut i: usize = 0;
    assert(ps.skip(0) =~= ps);
    while i < parts.len()
        invariant
            i <= parts@.len(),
            ps == deep(parts@),
            ps == split(m@, ','),
            volume_fold((source@, target@, readonly), ps.skip(i as int)) == volume_fold(
                (seq![], seq![], false),
                ps,
            ),
        decreases parts@.len() - i,
    {
        let part = &parts[i];
        assert(ps[i as int] == part@);
        assert(ps.skip(i as int).skip(1) =~= ps.skip(i + 1));
        let src = chars_of("source=");
        let tgt = chars_of("target=");
        let dst = chars_of("destination=");
        if has_lit_prefix(part.as_slice(), "source=") {
            source = slice_chars(part.as_slice(), src.len(), part.len());
            assert(source@ =~= part@.skip("source="@.len() as int));
        } else if has_lit_prefix(part.as_slice(), "target=") {
            target = slice_chars(part.as_slice(), tgt.len(), part.len());
            assert(target@ =~= part@.skip("target="@.len() as int));
        } else if has_lit_prefix(part.as_slice(), "destination=") {
            target = slice_chars(part.as_slice(), dst.len(), part.len());
            assert(target@ =~= part@.skip("destination="@.len() as int));
        } else if is_lit(part.as_slice(), "readonly") || is_lit(part.as_slice(), "ro") {
            readonly = true;
        }
        i = i + 1;
    }
    assert(ps.skip(i as int) =~= Seq::<Seq<char>>::empty());
    if source.len() > 0 && target.len() > 0 {
        let a = cat_lit(source.as_slice(), ":");
        let b = cat(a.as_slice(), target.as_slice());
        if readonly {
            let c = cat_lit(b.as_slice(), ":ro");
            string_of(c.as_slice())
        } else {
            assert(b@ =~= b@ + Seq::<char>::empty());
            string_of(b.as_slice())
        }
    } else {
        String::from_str(mount_str)
    }
}

/// The entries of a `key=value` list separated by `list_sep`, with numbers read
/// as integers.
pub fn parse_key_value_list(input: &str, list_sep: char, entry_sep: char) -> (r: Vec<(String, Node)>)
    ensures
        dict_view(r@) == kv_list(input@, list_sep, entry_sep),
{
    let s = chars_of(input);
    let items = split_chars(s.as_slice(), list_sep);
    let ghost its = deep(items@);
    let mut result: Vec<(String, Node)> = Vec::new();
    let mut i: usize = 0;
    assert(its.skip(0) =~= its);
    assert(dict_view(result@) =~= Seq::<(Seq<char>, Tree)>::empty());
    while i < items.len()
        invariant
            i <= items@.len(),
            its == deep(items@),
            its == split(s@, list_sep),
            kv_fold(dict_view(result@), its.skip(i as int), entry_sep) == kv_list(
                input@,
                list_sep,
                entry_sep,
            ),
        decreases items@.len() - i,
    {
        let item = &items[i];
        assert(its[i as int] == item@);
        assert(its.skip(i as int).skip(1) =~= its.skip(i + 1));
        match find_char(item.as_slice(), entry_sep) {
            None => {},
            Some(k) => {
                let ilen = item.len();
                let rawk = slice_chars(item.as_slice(), 0, k);
                let rawv = slice_chars(item.as_slice(), k + 1, ilen);
                assert(rawk@ =~= item@.take(k as int));
                assert(rawv@ =~= item@.skip(k + 1));
                let key = trim_chars(rawk.as_slice());
                let val = trim_chars(rawv.as_slice());
                let node = match parse_i64(val.as_slice()) {
                    Some(n) => Node::Int(n),
                    None => Node::Text(string_of(val.as_slice())),
                };
                put_key_exec(&mut result, string_of(key.as_slice()), node);
            },
        }
        i = i + 1;
    }
    assert(its.skip(i as int) =~= Seq::<Seq<char>>::empty());
    result
}

fn env_entry_exec(v: &str) -> (r: String)
    ensures
        r@ == env_entry(v@),
{
    let s = chars_of(v);
    match find_char(s.as_slice(), '=') {
        Some(k) => {
            let n = s.len();
            let key = slice_chars(s.as_slice(), 0, k);
            let rest = slice_chars(s.as_slice(), k + 1, n);
            assert(key@ =~= s@.take(k as int));
            assert(rest@ =~= s@.skip(k + 1));
            let raw = string_of(rest.as_slice());
            let unq = strip_quotes(raw.as_str());
            let mut out = string_of(key.as_slice());
            out.append("=");
            out.append(unq.as_str());
            out
        },
        None => String::from_str(v),
    }
}

fn is_named_network(v: &str) -> (r: bool)
    ensures
        r == named_network(v@),
{
    let s = chars_of(v);
    find_char(s.as_slice(), ':').is_none() && !is_lit(s.as_slice(), "host") && !is_lit(
        s.as_slice(),
        "bridge",
    ) && !is_lit(s.as_slice(), "none") && !has_lit_prefix(s.as_slice(), "container:")
}

fn is_health_test_exec(path: &Vec<String>) -> (r: bool)
    ensures
        r == is_health_test(strings(path@)),
{
    let ghost p = strings(path@);
    let n = path.len();
    if n == 0 {
        return false;
    }
    let last = chars_of(path[n - 1].as_str());
    assert(p.last() == path@[n - 1]@);
    if !is_lit(last.as_slice(), "test") {
        return false;
    }
    let mut i: usize = 0;
    while i < n
        invariant
            i <= n,
            n == path@.len(),
            p == strings(path@),
            n > 0,
            p.last() == "test"@,
            forall|j: int| 0 <= j < i ==> p[j] != "healthcheck"@,
        decreases n - i,
    {
        let seg = chars_of(path[i].as_str());
        assert(p[i as int] == path@[i as int]@);
        if is_lit(seg.as_slice(), "healthcheck") {
            assert(p[i as int] == "healthcheck"@);
            assert(p.contains("healthcheck"@));
            return true;
        }
        i = i + 1;
    }
    false
}

/// The slot path of a mapping with the network filled in.
pub fn slot_path(path: &str, network: &str) -> (r: Vec<String>)
    ensures
        strings(r@) == slot_of(path@, network@),
{
    let p = chars_of(path);
    let ph = chars_of("{network}");
    let net = chars_of(network);
    let filled = replace_chars(p.as_slice(), ph.as_slice(), net.as_slice());
    let parts = split_chars(filled.as_slice(), '/');
    let mut r: Vec<String> = Vec::new();
    let mut i: usize = 0;
    while i < parts.len()
        invariant
            i <= parts@.len(),
            strings(r@) == deep(parts@).take(i as int),
        decreases parts@.len() - i,
    {
        let ghost before = strings(r@);
        r.push(string_of(parts[i].as_slice()));
        assert(strings(r@) =~= before.push(parts@[i as int]@));
        assert(deep(parts@).take(i + 1) =~= deep(parts@).take(i as int).push(parts@[i as int]@));
        i = i + 1;
    }
    assert(deep(parts@).take(i as int) =~= deep(parts@));
    r
}

/// Reads a `name=limit` or `name=soft:hard` ulimit into `path/name`.
pub fn parse_ulimit(service: &mut Vec<(String, Node)>, path: &Vec<String>, value: &str) -> (r: Result<(), String>)
    ensures
        result_matches(
            r,
            ulimit_result(dict_view(old(service)@), strings(path@), value@),
            dict_view(old(service)@),
            dict_view(final(service)@),
        ),
{
    let s = chars_of(value);
    let k = match find_char(s.as_slice(), '=') {
        Some(k) => k,
        None => {
            return Err(message("Invalid ulimit format: ", s.as_slice()));
        },
    };
    let n = s.len();
    let name = slice_chars(s.as_slice(), 0, k);
    let lim = slice_chars(s.as_slice(), k + 1, n);
    assert(name@ =~= s@.take(k as int));
    assert(lim@ =~= s@.skip(k + 1));
    let name_parts = split_chars(name.as_slice(), '/');
    let mut full: Vec<String> = Vec::new();
    let mut i: usize = 0;
    while i < path.len()
        invariant
            i <= path@.len(),
            strings(full@) == strings(path@).take(i as int),
        decreases path@.len() - i,
    {
        let ghost before = strings(full@);
        full.push(path[i].clone());
        assert(strings(full@) =~= before.push(path@[i as int]@));
        assert(strings(path@).take(i + 1) =~= strings(path@).take(i as int).push(path@[i as int]@));
        i = i + 1;
    }
    assert(strings(path@).take(i as int) =~= strings(path@));
    let mut j: usize = 0;
    while j < name_parts.len()
        invariant
            j <= name_parts@.len(),
            strings(full@) == strings(path@) + deep(name_parts@).take(j as int),
        decreases name_parts@.len() - j,
    {
        let ghost before = strings(full@);
        full.push(string_of(name_parts[j].as_slice()));
        assert(strings(full@) =~= before.push(name_parts@[j as int]@));
        assert(deep(name_parts@).take(j + 1) =~= deep(name_parts@).take(j as int).push(
            name_parts@[j as int]@,
        ));
        j = j + 1;
    }
    assert(deep(name_parts@).take(j as int) =~= deep(name_parts@));
    if find_char(lim.as_slice(), ':').is_some() {
        let limits = split_chars(lim.as_slice(), ':');
        if limits.len() == 2 {
            let soft = match parse_i64(limits[0].as_slice()) {
                Some(v) => v,
                None => {
                    return Err(message("Invalid soft limit: ", limits[0].as_slice()));
                },
            };
            let hard = match parse_i64(limits[1].as_slice()) {
                Some(v) => v,
                None => {
                    return Err(message("Invalid hard limit: ", limits[1].as_slice()));
                },
            };
            let entries = vec![
                (String::from_str("soft"), Node::Int(soft)),
                (String::from_str("hard"), Node::Int(hard)),
            ];
            assert(dict_view(entries@) =~= seq![("soft"@, Tree::Int(soft as int)), ("hard"@, Tree::Int(hard as int))]);
            edit_dict(service, &full, 0, EditOp::Merge(entries));
            assert(strings(full@).skip(0) =~= strings(full@));
            Ok(())
        } else {
            Err(message("Invalid ulimit format: ", s.as_slice()))
        }
    } else {
        match parse_i64(lim.as_slice()) {
            Some(n) => {
                edit_dict(service, &full, 0, EditOp::Put(Node::Int(n)));
                assert(strings(full@).skip(0) =~= strings(full@));
                Ok(())
            },
            None => Err(message("Invalid limit: ", lim.as_slice())),
        }
    }
}

/// Reserves `all` or a number of GPUs under `deploy`, replacing its `resources`.
pub fn parse_gpus(service: &mut Vec<(String, Node)>, value: &str) -> (r: Result<(), String>)
    ensures
        result_matches(
            r,
            gpu_result(dict_view(old(service)@), value@),
            dict_view(old(service)@),
            dict_view(final(service)@),
        ),
{
    let s = chars_of(value);
    let count = if is_lit(s.as_slice(), "all") {
        text_node("all")
    } else {
        match parse_i64(s.as_slice()) {
            Some(n) => Node::Int(n),
            None => {
                return Err(message("Invalid GPU count: ", s.as_slice()));
            },
        }
    };
    let ghost cv = count@;
    let caps_items = vec![text_node("gpu")];
    assert(caps_items@.map_values(|n: Node| n@) =~= seq![Tree::Text("gpu"@)]);
    let caps = list_node(caps_items);
    let dev_entries = vec![
        (String::from_str("driver"), text_node("nvidia")),
        (String::from_str("count"), count),
        (String::from_str("capabilities"), caps),
    ];
    assert(dict_view(dev_entries@) =~= seq![
        ("driver"@, Tree::Text("nvidia"@)),
        ("count"@, cv),
        ("capabilities"@, Tree::List(seq![Tree::Text("gpu"@)])),
    ]);
    let device = dict_node(dev_entries);
    let ghost dv = device@;
    let dev_list_items = vec![device];
    assert(dev_list_items@.map_values(|n: Node| n@) =~= seq![dv]);
    let dev_list = list_node(dev_list_items);
    let ghost dlv = dev_list@;
    let devices_entries = vec![(String::from_str("devices"), dev_list)];
    assert(dict_view(devices_entries@) =~= seq![("devices"@, dlv)]);
    let devices = dict_node(devices_entries);
    let ghost dsv = devices@;
    let res_entries = vec![(String::from_str("reservations"), devices)];
    assert(dict_view(res_entries@) =~= seq![("reservations"@, dsv)]);
    let reservations = dict_node(res_entries);
    let ghost rsv = reservations@;
    let resources = vec![(String::from_str("resources"), reservations)];
    assert(dict_view(resources@) =~= seq![("resources"@, rsv)]);
    assert(dict_view(resources@) =~= gpu_resources(cv));
    let path = one_segment("deploy");
    edit_dict(service, &path, 0, EditOp::Merge(resources));
    assert(strings(path@).skip(0) =~= seq!["deploy"@]);
    Ok(())
}

/// Applies one value of a flag of kind `arg_type` at `path`.
pub fn apply_mapping(
    service: &mut Vec<(String, Node)>,
    path: &Vec<String>,
    value: &str,
    arg_type: ArgType,
) -> (r: Result<(), String>)
    ensures
        result_matches(
            r,
            apply_value(dict_view(old(service)@), strings(path@), arg_type, value@),
            dict_view(old(service)@),
            dict_view(final(service)@),
        ),
{
    let s = chars_of(value);
    assert(strings(path@).skip(0) =~= strings(path@));
    match arg_type {
        ArgType::Array => {
            let a = String::from_str(value);
            assert(EditOp::Append(a)@ == Edit::Append(value@));
            edit_dict(service, path, 0, EditOp::Append(a));
            Ok(())
        },
        ArgType::Ulimits => parse_ulimit(service, path, value),
        ArgType::Switch => {
            let b = is_lit(s.as_slice(), "true");
            edit_dict(service, path, 0, EditOp::Put(Node::Bool(b)));
            Ok(())
        },
        ArgType::Value => {
            let node = if is_health_test_exec(path) {
                let items = vec![text_node("CMD-SHELL"), text_node(value)];
                assert(items@.map_values(|n: Node| n@) =~= seq![Tree::Text("CMD-SHELL"@), Tree::Text(value@)]);
                list_node(items)
            } else {
                text_node(value)
            };
            edit_dict(service, path, 0, EditOp::Put(node));
            Ok(())
        },
        ArgType::IntValue => match parse_i64(s.as_slice()) {
            Some(n) => {
                edit_dict(service, path, 0, EditOp::Put(Node::Int(n)));
                Ok(())
            },
            None => Err(message("Invalid integer: ", s.as_slice())),
        },
        ArgType::FloatValue => {
            if is_decimal_number(s.as_slice()) && reads_as_number(value) {
                edit_dict(service, path, 0, EditOp::Put(Node::Float(String::from_str(value))));
                Ok(())
            } else {
                Err(message("Invalid float: ", s.as_slice()))
            }
        },
        ArgType::DeviceBlockIOConfigRate | ArgType::DeviceBlockIOConfigWeight => {
            edit_dict(service, path, 0, EditOp::Put(text_node(value)));
            Ok(())
        },
        ArgType::Networks => {
            if is_named_network(value) {
                let empty: Vec<(String, Node)> = Vec::new();
                assert(dict_view(empty@) =~= Seq::<(Seq<char>, Tree)>::empty());
                let inner = dict_node(empty);
                let ghost iv = inner@;
                let entries = vec![(String::from_str(value), inner)];
                assert(dict_view(entries@) =~= seq![(value@, Tree::Dict(seq![]))]);
                let net = dict_node(entries);
                let p = one_segment("networks");
                edit_dict(service, &p, 0, EditOp::Put(net));
                assert(strings(p@).skip(0) =~= seq!["networks"@]);
                Ok(())
            } else {
                let p = one_segment("network_mode");
                edit_dict(service, &p, 0, EditOp::Put(text_node(value)));
                assert(strings(p@).skip(0) =~= seq!["network_mode"@]);
                Ok(())
            }
        },
        ArgType::MapArray => {
            if has_lit_prefix(s.as_slice(), "type=tmpfs") {
                let p = one_segment("tmpfs");
                edit_dict(service, &p, 0, EditOp::Append(convert_mount_to_tmpfs(value)));
                assert(strings(p@).skip(0) =~= seq!["tmpfs"@]);
                Ok(())
            } else if has_lit_prefix(s.as_slice(), "type=bind") || has_lit_prefix(
                s.as_slice(),
                "type=volume",
            ) {
                let p = one_segment("volumes");
                edit_dict(service, &p, 0, EditOp::Append(convert_mount_to_volume(value)));
                assert(strings(p@).skip(0) =~= seq!["volumes"@]);
                Ok(())
            } else {
                edit_dict(service, path, 0, EditOp::Append(String::from_str(value)));
                Ok(())
            }
        },
        ArgType::KeyValues => {
            let m = parse_key_value_list(value, ',', '=');
            edit_dict(service, path, 0, EditOp::Merge(m));
            Ok(())
        },
        ArgType::Envs => {
            edit_dict(service, path, 0, EditOp::Append(env_entry_exec(value)));
            Ok(())
        },
        ArgType::Gpus => parse_gpus(service, value),
    }
}

/// Builds the service document from the flags, `network` standing for the
/// network placeholder of the slot paths.
pub fn build_compose_value(args: &indexmap::IndexMap<String, Vec<String>>, network: &str) -> (r: Result<Node, String>)
    ensures
        match built(flag_entries(*args), network@) {
            Ok(t) => r matches Ok(n) && n@ == t,
            Err(e) => r matches Err(m) && m@ == e,
        },
{
    let flags = flags_to_vec(args);
    let ghost fv = flag_vec_view(flags@);
    let mut service: Vec<(String, Node)> = Vec::new();
    assert(dict_view(service@) =~= Seq::<(Seq<char>, Tree)>::empty());
    assert(fv.skip(0) =~= fv);
    let mut i: usize = 0;
    while i < flags.len()
        invariant
            i <= flags@.len(),
            fv == flag_vec_view(flags@),
            fv == flag_entries(*args),
            build_from(dict_view(service@), fv.skip(i as int), network@) == build_from(
                seq![],
                fv,
                network@,
            ),
        decreases flags@.len() - i,
    {
        let key = &flags[i].0;
        let values = &flags[i].1;
        let ghost vs = values@.map_values(|s: String| s@);
        assert(fv[i as int] == (key@, vs));
        assert(fv.skip(i as int).skip(1) =~= fv.skip(i + 1));
        let ghost d0 = dict_view(service@);
        let kc = chars_of(key.as_str());
        match mapping_of(kc.as_slice()) {
            Some(mapping) => {
                assert(kc@ == key@);
                assert(mapping_entry(key@) == Some((mapping.arg_type, mapping.path@)));
                if mapping.path.unicode_len() > 0 {
                    let path = slot_path(mapping.path.as_str(), network);
                    assert(mapping.path@.len() > 0);
                    assert(slot_of(mapping.path@, network@) == strings(path@));
                    let mut j: usize = 0;
                    assert(vs.skip(0) =~= vs);
                    while j < values.len()
                        invariant
                            j <= values@.len(),
                            vs == values@.map_values(|s: String| s@),
                            mapping_entry(key@) == Some((mapping.arg_type, mapping.path@)),
                            mapping.path@.len() > 0,
                            slot_of(mapping.path@, network@) == strings(path@),
                            i < fv.len(),
                            fv == flag_entries(*args),
                            fv[i as int] == (key@, vs),
                            build_from(d0, fv.skip(i as int), network@) == build_from(seq![], fv, network@),
                            fv.skip(i as int).skip(1) =~= fv.skip(i + 1),
                            apply_values(dict_view(service@), strings(path@), mapping.arg_type, vs.skip(j as int))
                                == apply_values(d0, strings(path@), mapping.arg_type, vs),
                        decreases values@.len() - j,
                    {
                        assert(vs[j as int] == values@[j as int]@);
                        assert(vs.skip(j as int).skip(1) =~= vs.skip(j + 1));
                        let res = apply_mapping(&mut service, &path, values[j].as_str(), mapping.arg_type);
                        match res {
                            Err(e) => {
                                assert(apply_values(d0, strings(path@), mapping.arg_type, vs) == Err::<DictV, Seq<char>>(e@));
                                assert(apply_flag(d0, key@, vs, network@) == Err::<DictV, Seq<char>>(e@));
                                assert(build_from(d0, fv.skip(i as int), network@) == Err::<DictV, Seq<char>>(e@));
                                return Err(e);
                            },
                            Ok(()) => {},
                        }
                        j = j + 1;
                    }
                    assert(vs.skip(j as int) =~= Seq::<Seq<char>>::empty());
                }
            },
            None => {},
        }
        i = i + 1;
    }
    assert(fv.skip(i as int) =~= Seq::<(Seq<char>, Seq<Seq<char>>)>::empty());
    Ok(dict_node(service))
}

} // verus!
