//! The service document: a tree of scalars, sequences and insertion-ordered
//! maps, and the one primitive that edits it at a slot path.
use vstd::prelude::*;

use crate::text::{key_index, lemma_key_absent, lemma_key_index, strings};

verus! {

/// A document value. `Float` holds the text of a number that was checked to
/// read as a finite decimal number that `serde_yaml` also reads; it is written
/// as `serde_yaml` reads that text (so `2` stays an integer).
#[derive(Debug)]
pub enum Node {
    Null,
    Bool(bool),
    Int(i64),
    Float(String),
    Text(String),
    List(Vec<Node>),
    Dict(Vec<(String, Node)>),
}

/// The mathematical form of a [`Node`].
pub enum Tree {
    Null,
    Bool(bool),
    Int(int),
    Float(Seq<char>),
    Text(Seq<char>),
    List(Seq<Tree>),
    Dict(Seq<(Seq<char>, Tree)>),
}

pub type DictV = Seq<(Seq<char>, Tree)>;

/// The tree a node stands for.
pub open spec fn tree_of(n: Node) -> Tree
    decreases n,
{
    match n {
        Node::Null => Tree::Null,
        Node::Bool(b) => Tree::Bool(b),
        Node::Int(i) => Tree::Int(i as int),
        Node::Float(s) => Tree::Float(s@),
        Node::Text(s) => Tree::Text(s@),
        Node::List(v) => Tree::List(
            Seq::new(v@.len(), |i: int| if 0 <= i < v@.len() { tree_of(v@[i]) } else { Tree::Null }),
        ),
        Node::Dict(v) => Tree::Dict(
            Seq::new(
                v@.len(),
                |i: int|
                    if 0 <= i < v@.len() {
                        (v@[i].0@, tree_of(v@[i].1))
                    } else {
                        (Seq::empty(), Tree::Null)
                    },
            ),
        ),
    }
}

impl View for Node {
    type V = Tree;

    open spec fn view(&self) -> Tree {
        tree_of(*self)
    }
}

pub open spec fn list_view(v: Seq<Node>) -> Seq<Tree> {
    v.map_values(|n: Node| n@)
}

pub open spec fn dict_view(v: Seq<(String, Node)>) -> DictV {
    v.map_values(|e: (String, Node)| (e.0@, e.1@))
}

pub proof fn lemma_list_view(v: Vec<Node>)
    ensures
        Node::List(v)@ == Tree::List(list_view(v@)),
{
    assert(Node::List(v)@->List_0 =~= list_view(v@));
}

pub proof fn lemma_dict_view(v: Vec<(String, Node)>)
    ensures
        Node::Dict(v)@ == Tree::Dict(dict_view(v@)),
{
    assert(Node::Dict(v)@->Dict_0 =~= dict_view(v@));
}

/// What is done at the end of a slot path.
pub enum Edit {
    /// Set the value.
    Put(Tree),
    /// Append a string to the sequence there, creating it if absent.
    Append(Seq<char>),
    /// Insert the entries into the map there, creating it if absent.
    Merge(DictV),
}

/// `v` under `k`: replaced in place when `k` is present, else added last.
pub open spec fn put_key(d: DictV, k: Seq<char>, v: Tree) -> DictV {
    let j = key_index(d, k);
    if 0 <= j < d.len() {
        d.update(j, (k, v))
    } else {
        d.push((k, v))
    }
}

pub open spec fn merge(d: DictV, m: DictV) -> DictV
    decreases m.len(),
{
    if m.len() == 0 {
        d
    } else {
        merge(put_key(d, m[0].0, m[0].1), m.skip(1))
    }
}

/// The new value of a slot holding `cur` (`None`: absent). A slot of the wrong
/// shape is left as it is.
pub open spec fn edit_leaf(cur: Option<Tree>, e: Edit) -> Tree {
    match e {
        Edit::Put(v) => v,
        Edit::Append(s) => match cur {
            None => Tree::List(seq![Tree::Text(s)]),
            Some(Tree::List(xs)) => Tree::List(xs.push(Tree::Text(s))),
            Some(t) => t,
        },
        Edit::Merge(m) => match cur {
            None => Tree::Dict(merge(seq![], m)),
            Some(Tree::Dict(c)) => Tree::Dict(merge(c, m)),
            Some(t) => t,
        },
    }
}

/// `d` with `e` done at `path`: missing maps on the way are created, a step
/// through a value that is not a map changes nothing.
pub open spec fn edit_at(d: DictV, path: Seq<Seq<char>>, e: Edit) -> DictV
    decreases path.len(),
{
    if path.len() == 0 {
        d
    } else {
        let k = path[0];
        let j = key_index(d, k);
        if path.len() == 1 {
            if 0 <= j < d.len() {
                d.update(j, (k, edit_leaf(Some(d[j].1), e)))
            } else {
                d.push((k, edit_leaf(None, e)))
            }
        } else if 0 <= j < d.len() {
            match d[j].1 {
                Tree::Dict(c) => d.update(j, (k, Tree::Dict(edit_at(c, path.skip(1), e)))),
                _ => d,
            }
        } else {
            d.push((k, Tree::Dict(edit_at(seq![], path.skip(1), e))))
        }
    }
}

/// An [`Edit`] with its values in hand.
pub enum EditOp {
    Put(Node),
    Append(String),
    Merge(Vec<(String, Node)>),
}

impl View for EditOp {
    type V = Edit;

    open spec fn view(&self) -> Edit {
        match self {
            EditOp::Put(n) => Edit::Put(n@),
            EditOp::Append(s) => Edit::Append(s@),
            EditOp::Merge(m) => Edit::Merge(dict_view(m@)),
        }
    }
}

pub fn find_key(d: &Vec<(String, Node)>, k: &String) -> (r: Option<usize>)
    ensures
        r matches Some(j) ==> j < d@.len() && key_index(dict_view(d@), k@) == j as int,
        r is None ==> key_index(dict_view(d@), k@) == -1,
{
    let ghost dv = dict_view(d@);
    let mut i: usize = 0;
    while i < d.len()
        invariant
            i <= d@.len(),
            dv == dict_view(d@),
            forall|j: int| 0 <= j < i ==> dv[j].0 != k@,
        decreases d@.len() - i,
    {
        if d[i].0 == *k {
            proof {
                lemma_key_index(dv, k@, i as int);
            }
            return Some(i);
        }
        i = i + 1;
    }
    proof {
        lemma_key_absent(dv, k@);
    }
    None
}

pub fn put_key_exec(d: &mut Vec<(String, Node)>, k: String, v: Node)
    ensures
        dict_view(final(d)@) == put_key(dict_view(old(d)@), k@, v@),
{
    let ghost kv = k@;
    let ghost vv = v@;
    match find_key(d, &k) {
        Some(j) => {
            d.set(j, (k, v));
            assert(dict_view(d@) =~= dict_view(old(d)@).update(j as int, (kv, vv)));
        },
        None => {
            d.push((k, v));
            assert(dict_view(d@) =~= dict_view(old(d)@).push((kv, vv)));
        },
    }
}

fn merge_exec(d: &mut Vec<(String, Node)>, m: Vec<(String, Node)>)
    ensures
        dict_view(final(d)@) == merge(dict_view(old(d)@), dict_view(m@)),
{
    let ghost m0 = dict_view(m@);
    let mut m = m;
    while m.len() > 0
        invariant
            merge(dict_view(d@), dict_view(m@)) == merge(dict_view(old(d)@), m0),
        decreases m@.len(),
    {
        let ghost mv = dict_view(m@);
        let (k, v) = m.remove(0);
        assert(dict_view(m@) =~= mv.skip(1));
        put_key_exec(d, k, v);
    }
    assert(dict_view(m@) =~= Seq::<(Seq<char>, Tree)>::empty());
}

fn edit_leaf_exec(cur: Option<Node>, e: EditOp) -> (r: Node)
    ensures
        r@ == edit_leaf(
            match cur {
                Some(n) => Some(n@),
                None => None,
            },
            e@,
        ),
{
    match e {
        EditOp::Put(v) => v,
        EditOp::Append(s) => match cur {
            None => {
                let ghost sv = s@;
                let v = vec![Node::Text(s)];
                proof {
                    lemma_list_view(v);
                    assert(list_view(v@) =~= seq![Tree::Text(sv)]);
                }
                Node::List(v)
            },
            Some(Node::List(xs)) => {
                let mut xs = xs;
                let ghost before = xs;
                proof {
                    lemma_list_view(xs);
                }
                let ghost sv = s@;
                xs.push(Node::Text(s));
                proof {
                    lemma_list_view(xs);
                    assert(list_view(xs@) =~= list_view(before@).push(Tree::Text(sv)));
                }
                Node::List(xs)
            },
            Some(t) => t,
        },
        EditOp::Merge(m) => match cur {
            None => {
                let mut c: Vec<(String, Node)> = Vec::new();
                assert(dict_view(c@) =~= Seq::<(Seq<char>, Tree)>::empty());
                merge_exec(&mut c, m);
                proof {
                    lemma_dict_view(c);
                }
                Node::Dict(c)
            },
            Some(Node::Dict(c)) => {
                let mut c = c;
                proof {
                    lemma_dict_view(c);
                }
                merge_exec(&mut c, m);
                proof {
                    lemma_dict_view(c);
                }
                Node::Dict(c)
            },
            Some(t) => t,
        },
    }
}

/// Does `e` at the slot `path[i..]` of the map `d`.
pub fn edit_dict(d: &mut Vec<(String, Node)>, path: &Vec<String>, i: usize, e: EditOp)
    requires
        i <= path@.len(),
    ensures
        dict_view(final(d)@) == edit_at(dict_view(old(d)@), strings(path@).skip(i as int), e@),
    decreases path@.len() - i,
{
    let ghost p = strings(path@).skip(i as int);
    let ghost ev = e@;
    if i >= path.len() {
        return;
    }
    assert(p[0] == path@[i as int]@);
    assert(p.skip(1) =~= strings(path@).skip(i + 1));
    let k = &path[i];
    let ghost dv = dict_view(d@);
    match find_key(d, k) {
        Some(j) => {
            let (key, cur) = d.remove(j);
            assert(key@ == k@);
            if i + 1 == path.len() {
                let ghost cv = cur@;
                let nv = edit_leaf_exec(Some(cur), e);
                d.insert(j, (key, nv));
                assert(dict_view(d@) =~= dv.update(j as int, (k@, edit_leaf(Some(cv), ev))));
            } else {
                match cur {
                    Node::Dict(c) => {
                        let mut c = c;
                        proof {
                            lemma_dict_view(c);
                        }
                        edit_dict(&mut c, path, i + 1, e);
                        proof {
                            lemma_dict_view(c);
                        }
                        let ghost cv = Node::Dict(c)@;
                        d.insert(j, (key, Node::Dict(c)));
                        assert(dict_view(d@) =~= dv.update(j as int, (k@, cv)));
                    },
                    other => {
                        let ghost ov = other@;
                        d.insert(j, (key, other));
                        assert(dict_view(d@) =~= dv);
                    },
                }
            }
        },
        None => {
            let key = k.clone();
            if i + 1 == path.len() {
                let nv = edit_leaf_exec(None, e);
                let ghost nvv = nv@;
                d.push((key, nv));
                assert(dict_view(d@) =~= dv.push((k@, nvv)));
            } else {
                let mut c: Vec<(String, Node)> = Vec::new();
                assert(dict_view(c@) =~= Seq::<(Seq<char>, Tree)>::empty());
                edit_dict(&mut c, path, i + 1, e);
                proof {
                    lemma_dict_view(c);
                }
                let ghost cv = Node::Dict(c)@;
                d.push((key, Node::Dict(c)));
                assert(dict_view(d@) =~= dv.push((k@, cv)));
            }
        },
    }
}

} // verus!
