//! Mathematical model of a configuration document.
//!
//! A document is modelled as a map from key paths to nodes. A path is the
//! sequence of keys that leads from the document root through nested tables
//! to an entry; the node at a path says whether that entry is itself a table,
//! a string value, a boolean value, or anything else (kept as its rendered
//! text). Entries of inline tables, arrays and arrays of tables are not
//! descended into: such an entry is a single leaf node.

use vstd::prelude::*;

verus! {

/// One entry of a document: a nested table, a string value, a boolean value,
/// or any other item, abstracted to its rendered text.
pub enum Node {
    Table,
    Str(Seq<char>),
    Bool(bool),
    Other(Seq<char>),
}

/// A document model: key paths mapped to the nodes that sit at them.
pub type DocModel = Map<Seq<Seq<char>>, Node>;

/// The model of a document with no entries.
pub open spec fn empty_model() -> DocModel {
    Map::empty()
}

/// `q` lies at or below `p`: `p` is a prefix of `q`.
pub open spec fn path_starts_with(q: Seq<Seq<char>>, p: Seq<Seq<char>>) -> bool {
    p.len() <= q.len() && q.subrange(0, p.len() as int) == p
}

/// Drop the entry at `p` and everything nested below it.
pub open spec fn remove_subtree(m: DocModel, p: Seq<Seq<char>>) -> DocModel {
    Map::new(
        |q: Seq<Seq<char>>| m.dom().contains(q) && !path_starts_with(q, p),
        |q: Seq<Seq<char>>| m[q],
    )
}

/// Well-formed model: every path is non-empty, and every nested entry sits
/// under a parent that is a table. This holds of the model of any real
/// document, where entries exist only inside tables.
pub open spec fn wf(m: DocModel) -> bool {
    &&& forall|p: Seq<Seq<char>>| #[trigger] m.dom().contains(p) ==> p.len() >= 1
    &&& forall|p: Seq<Seq<char>>|
        #[trigger] m.dom().contains(p) && p.len() >= 2 ==> m.contains_pair(
            p.subrange(0, p.len() - 1),
            Node::Table,
        )
}

/// Remove the entry `[t, k]` (with its subtree), provided `[t]` is a table;
/// otherwise leave the document as it is.
pub open spec fn remove_at2(m: DocModel, t: Seq<char>, k: Seq<char>) -> DocModel {
    if m.contains_pair(seq![t], Node::Table) {
        remove_subtree(m, seq![t, k])
    } else {
        m
    }
}

/// Remove the entry `[t1, t2, k]` (with its subtree), provided `[t1]` and
/// `[t1, t2]` are tables; otherwise leave the document as it is.
pub open spec fn remove_at3(m: DocModel, t1: Seq<char>, t2: Seq<char>, k: Seq<char>) -> DocModel {
    if m.contains_pair(seq![t1], Node::Table) && m.contains_pair(seq![t1, t2], Node::Table) {
        remove_subtree(m, seq![t1, t2, k])
    } else {
        m
    }
}

/// Put a fresh empty table at the top-level key `[k]`, replacing whatever was
/// there before, subtree included.
pub open spec fn put_table1(m: DocModel, k: Seq<char>) -> DocModel {
    remove_subtree(m, seq![k]).insert(seq![k], Node::Table)
}

/// Put a fresh empty table at `[t, k]`, provided `[t]` is a table; otherwise
/// leave the document as it is.
pub open spec fn put_table2(m: DocModel, t: Seq<char>, k: Seq<char>) -> DocModel {
    if m.contains_pair(seq![t], Node::Table) {
        remove_subtree(m, seq![t, k]).insert(seq![t, k], Node::Table)
    } else {
        m
    }
}

/// Put the leaf `v` at `[t, k]`, provided `[t]` is a table; otherwise leave
/// the document as it is.
pub open spec fn put_leaf2(m: DocModel, t: Seq<char>, k: Seq<char>, v: Node) -> DocModel {
    if m.contains_pair(seq![t], Node::Table) {
        remove_subtree(m, seq![t, k]).insert(seq![t, k], v)
    } else {
        m
    }
}

/// Put the leaf `v` at `[t1, t2, k]`, provided `[t1]` and `[t1, t2]` are
/// tables; otherwise leave the document as it is.
pub open spec fn put_leaf3(
    m: DocModel,
    t1: Seq<char>,
    t2: Seq<char>,
    k: Seq<char>,
    v: Node,
) -> DocModel {
    if m.contains_pair(seq![t1], Node::Table) && m.contains_pair(seq![t1, t2], Node::Table) {
        remove_subtree(m, seq![t1, t2, k]).insert(seq![t1, t2, k], v)
    } else {
        m
    }
}

/// Whether `[t, k]` is absent where it could be inserted: true when `[t]` is
/// a table without a `k` entry, and also when `[t]` is no table at all (a
/// lookup through `[t]` then finds nothing).
pub open spec fn nested_missing(m: DocModel, t: Seq<char>, k: Seq<char>) -> bool {
    if m.contains_pair(seq![t], Node::Table) {
        !m.dom().contains(seq![t, k])
    } else {
        true
    }
}

pub open spec fn key_source() -> Seq<char> {
    "source"@
}

pub open spec fn key_crates_io() -> Seq<char> {
    "crates-io"@
}

pub open spec fn key_replace_with() -> Seq<char> {
    "replace-with"@
}

pub open spec fn key_rsproxy() -> Seq<char> {
    "rsproxy"@
}

pub open spec fn key_rsproxy_sparse() -> Seq<char> {
    "rsproxy-sparse"@
}

pub open spec fn key_registries() -> Seq<char> {
    "registries"@
}

pub open spec fn key_registry() -> Seq<char> {
    "registry"@
}

pub open spec fn key_index() -> Seq<char> {
    "index"@
}

pub open spec fn key_net() -> Seq<char> {
    "net"@
}

pub open spec fn key_git_fetch() -> Seq<char> {
    "git-fetch-with-cli"@
}

pub open spec fn val_replace_with() -> Seq<char> {
    "rsproxy-sparse"@
}

pub open spec fn val_registry_index() -> Seq<char> {
    "https://rsproxy.cn/crates.io-index"@
}

pub open spec fn val_sparse_index() -> Seq<char> {
    "sparse+https://rsproxy.cn/index/"@
}

/// The paths that the redirection block owns: everything the set operation
/// writes and the clear operation strips.
pub open spec fn is_proxy_path(p: Seq<Seq<char>>) -> bool {
    ||| path_starts_with(p, seq![key_source(), key_crates_io(), key_replace_with()])
    ||| path_starts_with(p, seq![key_source(), key_rsproxy()])
    ||| path_starts_with(p, seq![key_source(), key_rsproxy_sparse()])
    ||| path_starts_with(p, seq![key_registries(), key_rsproxy()])
    ||| path_starts_with(p, seq![key_net(), key_git_fetch()])
}

/// What clearing does to a document model: drop each proxy-owned entry whose
/// enclosing tables are present, leave everything else in place.
pub open spec fn strip_spec(m: DocModel) -> DocModel {
    let m1 = remove_at3(m, key_source(), key_crates_io(), key_replace_with());
    let m2 = remove_at2(m1, key_source(), key_rsproxy());
    let m3 = remove_at2(m2, key_source(), key_rsproxy_sparse());
    let m4 = remove_at2(m3, key_registries(), key_rsproxy());
    remove_at2(m4, key_net(), key_git_fetch())
}

/// What installing the redirection block does to a document model: create the
/// enclosing tables where they are absent, then write the block's entries.
/// A top-level key that is present but is no table blocks the entries under
/// it and is itself left untouched.
pub open spec fn add_spec(m: DocModel) -> DocModel {
    let m1 = if !m.dom().contains(seq![key_source()]) {
        put_table1(m, key_source())
    } else {
        m
    };
    let m2 = if nested_missing(m1, key_source(), key_crates_io()) {
        put_table2(m1, key_source(), key_crates_io())
    } else {
        m1
    };
    let m3 = put_leaf3(
        m2,
        key_source(),
        key_crates_io(),
        key_replace_with(),
        Node::Str(val_replace_with()),
    );
    let m4 = put_table2(m3, key_source(), key_rsproxy());
    let m5 = put_leaf3(
        m4,
        key_source(),
        key_rsproxy(),
        key_registry(),
        Node::Str(val_registry_index()),
    );
    let m6 = put_table2(m5, key_source(), key_rsproxy_sparse());
    let m7 = put_leaf3(
        m6,
        key_source(),
        key_rsproxy_sparse(),
        key_registry(),
        Node::Str(val_sparse_index()),
    );
    let m8 = if !m7.dom().contains(seq![key_registries()]) {
        put_table1(m7, key_registries())
    } else {
        m7
    };
    let m9 = put_table2(m8, key_registries(), key_rsproxy());
    let m10 = put_leaf3(
        m9,
        key_registries(),
        key_rsproxy(),
        key_index(),
        Node::Str(val_registry_index()),
    );
    let m11 = if !m10.dom().contains(seq![key_net()]) {
        put_table1(m10, key_net())
    } else {
        m10
    };
    put_leaf2(m11, key_net(), key_git_fetch(), Node::Bool(true))
}

/// What one whole set operation does to a document model: strip the old
/// redirection block, then install the new one.
pub open spec fn apply_spec(m: DocModel) -> DocModel {
    add_spec(strip_spec(m))
}

} // verus!
