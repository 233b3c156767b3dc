//! The configuration document and the verified edits on it.
//!
//! The document itself is a `toml_edit::DocumentMut`, held behind a small set
//! of trusted wrappers whose contracts speak of the model of
//! [`crate::model`]: `doc_model` names what a document holds, path by path,
//! and `doc_text` names its rendered text. Everything above the wrappers is
//! verified against those contracts.

use crate::model::{
    add_spec, apply_spec, empty_model, put_leaf2, put_leaf3, put_table1, put_table2, remove_at2,
    remove_at3, strip_spec, wf, DocModel, Node,
};
use vstd::prelude::*;

verus! {

#[verifier::external_type_specification]
#[verifier::external_body]
pub struct ExDocumentMut(toml_edit::DocumentMut);

/// What a document holds: its entries, as a map from key paths to nodes.
pub uninterp spec fn doc_model(d: toml_edit::DocumentMut) -> DocModel;

/// The text that a document renders to.
pub uninterp spec fn doc_text(d: toml_edit::DocumentMut) -> Seq<char>;

/// What parsing a text yields: the model of the document it describes, or
/// `None` where the text is no valid TOML document. A function of the
/// characters alone.
pub uninterp spec fn parsed_model(s: Seq<char>) -> Option<DocModel>;

/// What a top-level or nested key holds, as far as the edits care: nothing,
/// a table, or some other item.
pub enum KeyKind {
    Missing,
    TableKind,
    OtherKind,
}

/// Relies on `toml_edit::DocumentMut::new`: an empty document has no entries.
#[verifier::external_body]
fn new_document() -> (d: toml_edit::DocumentMut)
    ensures
        doc_model(d) == empty_model(),
{
    toml_edit::DocumentMut::new()
}

/// Relies on `str::parse::<toml_edit::DocumentMut>`: whether a text parses,
/// and to which document, depends on the characters alone; a parsed
/// document's entries sit under nested tables, so its model is well-formed.
#[verifier::external_body]
fn parse_document(content: &str) -> (r: Option<toml_edit::DocumentMut>)
    ensures
        (match r {
            Some(d) => parsed_model(content@) == Some(doc_model(d)) && wf(doc_model(d)),
            None => parsed_model(content@) is None,
        }),
{
    content.parse::<toml_edit::DocumentMut>().ok()
}

/// Relies on `toml_edit::DocumentMut`'s `Display`: rendering is a function of
/// the document alone.
#[verifier::external_body]
fn render_document(d: &toml_edit::DocumentMut) -> (r: String)
    ensures
        r@ == doc_text(*d),
{
    d.to_string()
}

/// Relies on `toml_edit::Table::get`: classifies the top-level entry at `k`.
#[verifier::external_body]
fn key_kind1(d: &toml_edit::DocumentMut, k: &str) -> (r: KeyKind)
    ensures
        (r == KeyKind::TableKind) == doc_model(*d).contains_pair(seq![k@], Node::Table),
        (r == KeyKind::Missing) == !doc_model(*d).dom().contains(seq![k@]),
{
    match d.as_table().get(k) {
        None => KeyKind::Missing,
        Some(toml_edit::Item::Table(_)) => KeyKind::TableKind,
        Some(_) => KeyKind::OtherKind,
    }
}

/// Relies on `toml_edit::Table::get`: classifies the entry at `[t, k]`; when
/// `[t]` is no table, there is nothing to find.
#[verifier::external_body]
fn key_kind2(d: &toml_edit::DocumentMut, t: &str, k: &str) -> (r: KeyKind)
    ensures
        ({
            let m = doc_model(*d);
            if m.contains_pair(seq![t@], Node::Table) {
                &&& (r == KeyKind::TableKind) == m.contains_pair(seq![t@, k@], Node::Table)
                &&& (r == KeyKind::Missing) == !m.dom().contains(seq![t@, k@])
            } else {
                r == KeyKind::Missing
            }
        }),
{
    match d.as_table().get(t) {
        Some(toml_edit::Item::Table(tab)) => match tab.get(k) {
            None => KeyKind::Missing,
            Some(toml_edit::Item::Table(_)) => KeyKind::TableKind,
            Some(_) => KeyKind::OtherKind,
        },
        _ => KeyKind::Missing,
    }
}

/// Relies on `toml_edit::Table::remove` reached through
/// `toml_edit::Table::get_mut`: removes the entry `[t, k]` with everything
/// below it, when `[t]` is a table.
#[verifier::external_body]
fn remove_key2(d: &mut toml_edit::DocumentMut, t: &str, k: &str)
    ensures
        doc_model(*final(d)) == remove_at2(doc_model(*old(d)), t@, k@),
{
    if let Some(toml_edit::Item::Table(tab)) = d.as_table_mut().get_mut(t) {
        tab.remove(k);
    }
}

/// Relies on `toml_edit::Table::remove` reached through two
/// `toml_edit::Table::get_mut` steps: removes the entry `[t1, t2, k]` with
/// everything below it, when `[t1]` and `[t1, t2]` are tables.
#[verifier::external_body]
fn remove_key3(d: &mut toml_edit::DocumentMut, t1: &str, t2: &str, k: &str)
    ensures
        doc_model(*final(d)) == remove_at3(doc_model(*old(d)), t1@, t2@, k@),
{
    if let Some(toml_edit::Item::Table(outer)) = d.as_table_mut().get_mut(t1) {
        if let Some(toml_edit::Item::Table(inner)) = outer.get_mut(t2) {
            inner.remove(k);
        }
    }
}

/// Relies on `toml_edit::Table::insert`: replaces the top-level entry at `k`
/// by a fresh empty table.
#[verifier::external_body]
fn insert_empty_table1(d: &mut toml_edit::DocumentMut, k: &str)
    ensures
        doc_model(*final(d)) == put_table1(doc_model(*old(d)), k@),
{
    d.as_table_mut().insert(k, toml_edit::Item::Table(toml_edit::Table::new()));
}

/// Relies on `toml_edit::Table::insert` reached through
/// `toml_edit::Table::get_mut`: replaces the entry at `[t, k]` by a fresh
/// empty table, when `[t]` is a table.
#[verifier::external_body]
fn insert_empty_table2(d: &mut toml_edit::DocumentMut, t: &str, k: &str)
    ensures
        doc_model(*final(d)) == put_table2(doc_model(*old(d)), t@, k@),
{
    if let Some(toml_edit::Item::Table(tab)) = d.as_table_mut().get_mut(t) {
        tab.insert(k, toml_edit::Item::Table(toml_edit::Table::new()));
    }
}

/// Relies on `toml_edit::Table::insert` with `toml_edit::value`: writes the
/// string value `v` at `[t1, t2, k]`, when `[t1]` and `[t1, t2]` are tables.
#[verifier::external_body]
fn set_str3(d: &mut toml_edit::DocumentMut, t1: &str, t2: &str, k: &str, v: &str)
    ensures
        doc_model(*final(d)) == put_leaf3(doc_model(*old(d)), t1@, t2@, k@, Node::Str(v@)),
{
    if let Some(toml_edit::Item::Table(outer)) = d.as_table_mut().get_mut(t1) {
        if let Some(toml_edit::Item::Table(inner)) = outer.get_mut(t2) {
            inner.insert(k, toml_edit::value(v));
        }
    }
}

/// Relies on `toml_edit::Table::insert` with `toml_edit::value`: writes the
/// boolean value `v` at `[t, k]`, when `[t]` is a table.
#[verifier::external_body]
fn set_bool2(d: &mut toml_edit::DocumentMut, t: &str, k: &str, v: bool)
    ensures
        doc_model(*final(d)) == put_leaf2(doc_model(*old(d)), t@, k@, Node::Bool(v)),
{
    if let Some(toml_edit::Item::Table(tab)) = d.as_table_mut().get_mut(t) {
        tab.insert(k, toml_edit::value(v));
    }
}

/// Read a document out of the text of a configuration file. Text that does
/// not parse counts as an empty configuration, so this never fails.
pub fn document_from_content(content: &str) -> (d: toml_edit::DocumentMut)
    ensures
        doc_model(d) == (match parsed_model(content@) {
            Some(m) => m,
            None => empty_model(),
        }),
        wf(doc_model(d)),
{
    match parse_document(content) {
        Some(d) => d,
        None => {
            new_document()
        },
    }
}

/// The text to write back for a document.
pub fn document_text(d: &toml_edit::DocumentMut) -> (r: String)
    ensures
        r@ == doc_text(*d),
{
    render_document(d)
}

/// Remove every proxy-owned entry from the document: the `replace-with`
/// redirection under `[source.crates-io]`, the `[source.rsproxy]` and
/// `[source.rsproxy-sparse]` tables, the `[registries.rsproxy]` table, and
/// the `git-fetch-with-cli` flag under `[net]`. Everything else stays.
pub fn remove_proxy_config(doc: &mut toml_edit::DocumentMut)
    ensures
        doc_model(*final(doc)) == strip_spec(doc_model(*old(doc))),
{
    remove_key3(doc, "source", "crates-io", "replace-with");
    remove_key2(doc, "source", "rsproxy");
    remove_key2(doc, "source", "rsproxy-sparse");
    remove_key2(doc, "registries", "rsproxy");
    remove_key2(doc, "net", "git-fetch-with-cli");
}

/// Install the redirection block: route `crates-io` through the `rsproxy`
/// sparse source, declare the `[source.rsproxy]` and `[source.rsproxy-sparse]`
/// sources, the `[registries.rsproxy]` registry, and turn on
/// `git-fetch-with-cli` under `[net]`. Enclosing tables are created where
/// absent; a top-level entry that is present but is no table is left alone,
/// and the entries under it are not written.
pub fn add_proxy_config(doc: &mut toml_edit::DocumentMut, _proxy_url: &str)
    ensures
        doc_model(*final(doc)) == add_spec(doc_model(*old(doc))),
{
    match key_kind1(doc, "source") {
        KeyKind::Missing => insert_empty_table1(doc, "source"),
        _ => (),
    }
    match key_kind2(doc, "source", "crates-io") {
        KeyKind::Missing => insert_empty_table2(doc, "source", "crates-io"),
        _ => (),
    }
    set_str3(doc, "source", "crates-io", "replace-with", "rsproxy-sparse");
    insert_empty_table2(doc, "source", "rsproxy");
    set_str3(doc, "source", "rsproxy", "registry", "https://rsproxy.cn/crates.io-index");
    insert_empty_table2(doc, "source", "rsproxy-sparse");
    set_str3(doc, "source", "rsproxy-sparse", "registry", "sparse+https://rsproxy.cn/index/");
    match key_kind1(doc, "registries") {
        KeyKind::Missing => insert_empty_table1(doc, "registries"),
        _ => (),
    }
    insert_empty_table2(doc, "registries", "rsproxy");
    set_str3(doc, "registries", "rsproxy", "index", "https://rsproxy.cn/crates.io-index");
    match key_kind1(doc, "net") {
        KeyKind::Missing => insert_empty_table1(doc, "net"),
        _ => (),
    }
    set_bool2(doc, "net", "git-fetch-with-cli", true);
}

/// The whole document edit of one set operation: strip whatever redirection
/// entries are present, then install the block anew. The resolved proxy URL
/// is reported to the user by the caller; the block itself always routes
/// through the fixed mirror, so the URL does not enter the document.
pub fn apply_set_proxy(doc: &mut toml_edit::DocumentMut, proxy_url: &str)
    ensures
        doc_model(*final(doc)) == apply_spec(doc_model(*old(doc))),
{
    remove_proxy_config(doc);
    add_proxy_config(doc, proxy_url);
}

} // verus!
