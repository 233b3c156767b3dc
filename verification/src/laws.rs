//! Properties of the document edits, proved of the model.
//!
//! The public proof functions here state what the library promises of the
//! set and clear operations taken together: clearing leaves no proxy-owned
//! entry behind, setting is idempotent, and neither operation disturbs an
//! unrelated entry.

use crate::model::{
    add_spec, apply_spec, is_proxy_path, key_crates_io, key_git_fetch, key_index, key_net,
    key_registries, key_registry, key_replace_with, key_rsproxy, key_rsproxy_sparse, key_source,
    nested_missing, path_starts_with, put_leaf2, put_leaf3, put_table1, put_table2, remove_at2,
    remove_at3, remove_subtree, strip_spec, val_registry_index, val_replace_with, val_sparse_index,
    wf, DocModel, Node,
};
use vstd::prelude::*;

verus! {

pub open spec fn p_src() -> Seq<Seq<char>> {
    seq![key_source()]
}

pub open spec fn p_cio() -> Seq<Seq<char>> {
    seq![key_source(), key_crates_io()]
}

pub open spec fn p_rw() -> Seq<Seq<char>> {
    seq![key_source(), key_crates_io(), key_replace_with()]
}

pub open spec fn p_srsp() -> Seq<Seq<char>> {
    seq![key_source(), key_rsproxy()]
}

pub open spec fn p_srsp_reg() -> Seq<Seq<char>> {
    seq![key_source(), key_rsproxy(), key_registry()]
}

pub open spec fn p_srsps() -> Seq<Seq<char>> {
    seq![key_source(), key_rsproxy_sparse()]
}

pub open spec fn p_srsps_reg() -> Seq<Seq<char>> {
    seq![key_source(), key_rsproxy_sparse(), key_registry()]
}

pub open spec fn p_regs() -> Seq<Seq<char>> {
    seq![key_registries()]
}

pub open spec fn p_regs_rsp() -> Seq<Seq<char>> {
    seq![key_registries(), key_rsproxy()]
}

pub open spec fn p_regs_rsp_idx() -> Seq<Seq<char>> {
    seq![key_registries(), key_rsproxy(), key_index()]
}

pub open spec fn p_net() -> Seq<Seq<char>> {
    seq![key_net()]
}

pub open spec fn p_net_gfw() -> Seq<Seq<char>> {
    seq![key_net(), key_git_fetch()]
}

spec fn s1(m: DocModel) -> DocModel {
    remove_at3(m, key_source(), key_crates_io(), key_replace_with())
}

spec fn s2(m: DocModel) -> DocModel {
    remove_at2(s1(m), key_source(), key_rsproxy())
}

spec fn s3(m: DocModel) -> DocModel {
    remove_at2(s2(m), key_source(), key_rsproxy_sparse())
}

spec fn s4(m: DocModel) -> DocModel {
    remove_at2(s3(m), key_registries(), key_rsproxy())
}

spec fn a1(m: DocModel) -> DocModel {
    if !m.dom().contains(p_src()) {
        put_table1(m, key_source())
    } else {
        m
    }
}

spec fn a2(m: DocModel) -> DocModel {
    if nested_missing(a1(m), key_source(), key_crates_io()) {
        put_table2(a1(m), key_source(), key_crates_io())
    } else {
        a1(m)
    }
}

spec fn a3(m: DocModel) -> DocModel {
    put_leaf3(
        a2(m),
        key_source(),
        key_crates_io(),
        key_replace_with(),
        Node::Str(val_replace_with()),
    )
}

spec fn a4(m: DocModel) -> DocModel {
    put_table2(a3(m), key_source(), key_rsproxy())
}

spec fn a5(m: DocModel) -> DocModel {
    put_leaf3(a4(m), key_source(), key_rsproxy(), key_registry(), Node::Str(val_registry_index()))
}

spec fn a6(m: DocModel) -> DocModel {
    put_table2(a5(m), key_source(), key_rsproxy_sparse())
}

spec fn a7(m: DocModel) -> DocModel {
    put_leaf3(
        a6(m),
        key_source(),
        key_rsproxy_sparse(),
        key_registry(),
        Node::Str(val_sparse_index()),
    )
}

spec fn a8(m: DocModel) -> DocModel {
    if !a7(m).dom().contains(p_regs()) {
        put_table1(a7(m), key_registries())
    } else {
        a7(m)
    }
}

spec fn a9(m: DocModel) -> DocModel {
    put_table2(a8(m), key_registries(), key_rsproxy())
}

spec fn a10(m: DocModel) -> DocModel {
    put_leaf3(
        a9(m),
        key_registries(),
        key_rsproxy(),
        key_index(),
        Node::Str(val_registry_index()),
    )
}

spec fn a11(m: DocModel) -> DocModel {
    if !a10(m).dom().contains(p_net()) {
        put_table1(a10(m), key_net())
    } else {
        a10(m)
    }
}

proof fn lemma_strip_unfold(m: DocModel)
    ensures
        strip_spec(m) == remove_at2(s4(m), key_net(), key_git_fetch()),
{
}

proof fn lemma_add_unfold(m: DocModel)
    ensures
        add_spec(m) == put_leaf2(a11(m), key_net(), key_git_fetch(), Node::Bool(true)),
{
}

/// Every table on the way down to an entry of a well-formed model is present
/// and is a table: the prefix of length `i` of a path in the domain.
proof fn lemma_wf_ancestors(m: DocModel, q: Seq<Seq<char>>, i: int)
    requires
        wf(m),
        m.dom().contains(q),
        1 <= i < q.len(),
    ensures
        m.contains_pair(q.subrange(0, i), Node::Table),
    decreases q.len() - i,
{
    let parent = q.subrange(0, q.len() - 1);
    assert(m.contains_pair(parent, Node::Table));
    if i == q.len() - 1 {
    } else {
        assert(parent.subrange(0, i) =~= q.subrange(0, i));
        lemma_wf_ancestors(m, parent, i);
    }
}

/// Removing a subtree keeps the model well-formed.
proof fn lemma_remove_subtree_wf(m: DocModel, p: Seq<Seq<char>>)
    requires
        wf(m),
    ensures
        wf(remove_subtree(m, p)),
{
    let r = remove_subtree(m, p);
    assert forall|q: Seq<Seq<char>>| #[trigger] r.dom().contains(q) && q.len() >= 2 implies
        r.contains_pair(q.subrange(0, q.len() - 1), Node::Table) by {
        let parent = q.subrange(0, q.len() - 1);
        assert(m.contains_pair(parent, Node::Table));
        if path_starts_with(parent, p) {
            assert(q.subrange(0, p.len() as int) =~= parent.subrange(0, p.len() as int));
            assert(path_starts_with(q, p));
        }
    }
}

/// Replacing the whole entry at `p` by a childless node keeps the model
/// well-formed, as long as the parent of `p` is a table.
proof fn lemma_replace_wf(m: DocModel, p: Seq<Seq<char>>, v: Node)
    requires
        wf(m),
        p.len() >= 1,
        p.len() >= 2 ==> m.contains_pair(p.subrange(0, p.len() - 1), Node::Table),
    ensures
        wf(remove_subtree(m, p).insert(p, v)),
{
    let cleared = remove_subtree(m, p);
    let r = cleared.insert(p, v);
    lemma_remove_subtree_wf(m, p);
    assert forall|q: Seq<Seq<char>>| #[trigger] r.dom().contains(q) && q.len() >= 2 implies
        r.contains_pair(q.subrange(0, q.len() - 1), Node::Table) by {
        let parent = q.subrange(0, q.len() - 1);
        if q == p {
            assert(!path_starts_with(parent, p));
            assert(cleared.contains_pair(parent, Node::Table));
            assert(parent != p);
        } else {
            assert(cleared.contains_pair(parent, Node::Table));
            if parent == p {
                assert(q.subrange(0, p.len() as int) =~= p);
                assert(path_starts_with(q, p));
                assert(false);
            }
        }
    }
}

proof fn lemma_remove_at2_wf(m: DocModel, t: Seq<char>, k: Seq<char>)
    requires
        wf(m),
    ensures
        wf(remove_at2(m, t, k)),
{
    if m.contains_pair(seq![t], Node::Table) {
        lemma_remove_subtree_wf(m, seq![t, k]);
    }
}

proof fn lemma_remove_at3_wf(m: DocModel, t1: Seq<char>, t2: Seq<char>, k: Seq<char>)
    requires
        wf(m),
    ensures
        wf(remove_at3(m, t1, t2, k)),
{
    if m.contains_pair(seq![t1], Node::Table) && m.contains_pair(seq![t1, t2], Node::Table) {
        lemma_remove_subtree_wf(m, seq![t1, t2, k]);
    }
}

proof fn lemma_strip_chain_wf(m: DocModel)
    requires
        wf(m),
    ensures
        wf(s1(m)),
        wf(s2(m)),
        wf(s3(m)),
        wf(s4(m)),
        wf(strip_spec(m)),
{
    lemma_remove_at3_wf(m, key_source(), key_crates_io(), key_replace_with());
    lemma_remove_at2_wf(s1(m), key_source(), key_rsproxy());
    lemma_remove_at2_wf(s2(m), key_source(), key_rsproxy_sparse());
    lemma_remove_at2_wf(s3(m), key_registries(), key_rsproxy());
    lemma_remove_at2_wf(s4(m), key_net(), key_git_fetch());
    lemma_strip_unfold(m);
}

proof fn lemma_put_table2_wf(m: DocModel, t: Seq<char>, k: Seq<char>)
    requires
        wf(m),
    ensures
        wf(put_table2(m, t, k)),
{
    if m.contains_pair(seq![t], Node::Table) {
        assert(seq![t, k].subrange(0, 1) =~= seq![t]);
        lemma_replace_wf(m, seq![t, k], Node::Table);
    }
}

proof fn lemma_put_leaf3_wf(m: DocModel, t1: Seq<char>, t2: Seq<char>, k: Seq<char>, v: Node)
    requires
        wf(m),
    ensures
        wf(put_leaf3(m, t1, t2, k, v)),
{
    if m.contains_pair(seq![t1], Node::Table) && m.contains_pair(seq![t1, t2], Node::Table) {
        assert(seq![t1, t2, k].subrange(0, 2) =~= seq![t1, t2]);
        lemma_replace_wf(m, seq![t1, t2, k], v);
    }
}

proof fn lemma_put_leaf2_wf(m: DocModel, t: Seq<char>, k: Seq<char>, v: Node)
    requires
        wf(m),
    ensures
        wf(put_leaf2(m, t, k, v)),
{
    if m.contains_pair(seq![t], Node::Table) {
        assert(seq![t, k].subrange(0, 1) =~= seq![t]);
        lemma_replace_wf(m, seq![t, k], v);
    }
}

proof fn lemma_add_chain_wf(m: DocModel)
    requires
        wf(m),
    ensures
        wf(a1(m)),
        wf(a2(m)),
        wf(a3(m)),
        wf(a4(m)),
        wf(a5(m)),
        wf(a6(m)),
        wf(a7(m)),
        wf(a8(m)),
        wf(a9(m)),
        wf(a10(m)),
        wf(a11(m)),
        wf(add_spec(m)),
{
    if !m.dom().contains(p_src()) {
        lemma_replace_wf(m, seq![key_source()], Node::Table);
    }
    if nested_missing(a1(m), key_source(), key_crates_io()) {
        lemma_put_table2_wf(a1(m), key_source(), key_crates_io());
    }
    lemma_put_leaf3_wf(
        a2(m),
        key_source(),
        key_crates_io(),
        key_replace_with(),
        Node::Str(val_replace_with()),
    );
    lemma_put_table2_wf(a3(m), key_source(), key_rsproxy());
    lemma_put_leaf3_wf(
        a4(m),
        key_source(),
        key_rsproxy(),
        key_registry(),
        Node::Str(val_registry_index()),
    );
    lemma_put_table2_wf(a5(m), key_source(), key_rsproxy_sparse());
    lemma_put_leaf3_wf(
        a6(m),
        key_source(),
        key_rsproxy_sparse(),
        key_registry(),
        Node::Str(val_sparse_index()),
    );
    if !a7(m).dom().contains(p_regs()) {
        lemma_replace_wf(a7(m), seq![key_registries()], Node::Table);
    }
    lemma_put_table2_wf(a8(m), key_registries(), key_rsproxy());
    lemma_put_leaf3_wf(
        a9(m),
        key_registries(),
        key_rsproxy(),
        key_index(),
        Node::Str(val_registry_index()),
    );
    if !a10(m).dom().contains(p_net()) {
        lemma_replace_wf(a10(m), seq![key_net()], Node::Table);
    }
    lemma_put_leaf2_wf(a11(m), key_net(), key_git_fetch(), Node::Bool(true));
    lemma_add_unfold(m);
}

/// Clearing keeps the model well-formed.
pub proof fn lemma_strip_wf(m: DocModel)
    requires
        wf(m),
    ensures
        wf(strip_spec(m)),
{
    lemma_strip_chain_wf(m);
}

/// Installing the redirection block keeps the model well-formed.
pub proof fn lemma_add_wf(m: DocModel)
    requires
        wf(m),
    ensures
        wf(add_spec(m)),
{
    lemma_add_chain_wf(m);
}

/// One whole set operation keeps the model well-formed.
pub proof fn lemma_apply_wf(m: DocModel)
    requires
        wf(m),
    ensures
        wf(apply_spec(m)),
{
    lemma_strip_wf(m);
    lemma_add_wf(strip_spec(m));
}

/// After a clear, no proxy-owned entry remains in the document, whatever the
/// document held before.
pub proof fn lemma_clear_removes_proxy_entries(m: DocModel)
    requires
        wf(m),
    ensures
        forall|p: Seq<Seq<char>>| is_proxy_path(p) ==> !strip_spec(m).dom().contains(p),
{
    lemma_strip_chain_wf(m);
    lemma_strip_unfold(m);
    let m5 = strip_spec(m);
    assert forall|p: Seq<Seq<char>>| is_proxy_path(p) implies !m5.dom().contains(p) by {
        if m5.dom().contains(p) {
            assert(s4(m).dom().contains(p));
            assert(s3(m).dom().contains(p));
            assert(s2(m).dom().contains(p));
            assert(s1(m).dom().contains(p));
            assert(m.dom().contains(p));
            if path_starts_with(p, p_rw()) {
                assert(p.subrange(0, 1) =~= p_src());
                assert(p.subrange(0, 2) =~= p_cio());
                if m.contains_pair(p_src(), Node::Table) && m.contains_pair(
                    p_cio(),
                    Node::Table,
                ) {
                    assert(!s1(m).dom().contains(p));
                } else {
                    lemma_wf_ancestors(m, p, 1);
                    lemma_wf_ancestors(m, p, 2);
                }
            } else if path_starts_with(p, p_srsp()) {
                assert(p.subrange(0, 1) =~= p_src());
                if s1(m).contains_pair(p_src(), Node::Table) {
                    assert(!s2(m).dom().contains(p));
                } else {
                    lemma_wf_ancestors(s1(m), p, 1);
                }
            } else if path_starts_with(p, p_srsps()) {
                assert(p.subrange(0, 1) =~= p_src());
                if s2(m).contains_pair(p_src(), Node::Table) {
                    assert(!s3(m).dom().contains(p));
                } else {
                    lemma_wf_ancestors(s2(m), p, 1);
                }
            } else if path_starts_with(p, p_regs_rsp()) {
                assert(p.subrange(0, 1) =~= p_regs());
                if s3(m).contains_pair(p_regs(), Node::Table) {
                    assert(!s4(m).dom().contains(p));
                } else {
                    lemma_wf_ancestors(s3(m), p, 1);
                }
            } else {
                assert(path_starts_with(p, p_net_gfw()));
                assert(p.subrange(0, 1) =~= p_net());
                if s4(m).contains_pair(p_net(), Node::Table) {
                    assert(!m5.dom().contains(p));
                } else {
                    lemma_wf_ancestors(s4(m), p, 1);
                }
            }
        }
    }
}

/// Setting then clearing leaves a document with no proxy-owned entries,
/// whatever the document held at the start.
pub proof fn lemma_set_then_clear_removes_proxy_entries(m: DocModel)
    requires
        wf(m),
    ensures
        forall|p: Seq<Seq<char>>| is_proxy_path(p) ==> !strip_spec(apply_spec(m)).dom().contains(
            p,
        ),
{
    lemma_apply_wf(m);
    lemma_clear_removes_proxy_entries(apply_spec(m));
}

/// Clearing keeps every entry that the proxy does not own, with its value.
pub proof fn lemma_clear_preserves_unrelated(m: DocModel, q: Seq<Seq<char>>)
    requires
        m.dom().contains(q),
        !is_proxy_path(q),
    ensures
        strip_spec(m).contains_pair(q, m[q]),
{
    lemma_strip_unfold(m);
    assert(s1(m).contains_pair(q, m[q]));
    assert(s2(m).contains_pair(q, m[q]));
    assert(s3(m).contains_pair(q, m[q]));
    assert(s4(m).contains_pair(q, m[q]));
}

/// Installing the redirection block keeps every entry that the proxy does
/// not own, with its value.
proof fn lemma_add_preserves_unrelated(m: DocModel, q: Seq<Seq<char>>)
    requires
        wf(m),
        m.dom().contains(q),
        !is_proxy_path(q),
    ensures
        add_spec(m).contains_pair(q, m[q]),
{
    lemma_add_chain_wf(m);
    lemma_add_unfold(m);
    assert(p_rw().subrange(0, 3) =~= p_rw());
    assert(p_srsp().subrange(0, 2) =~= p_srsp());
    assert(p_srsps().subrange(0, 2) =~= p_srsps());
    assert(p_regs_rsp().subrange(0, 2) =~= p_regs_rsp());
    assert(p_net_gfw().subrange(0, 2) =~= p_net_gfw());
    assert(p_srsp_reg().subrange(0, 2) =~= p_srsp());
    assert(p_srsps_reg().subrange(0, 2) =~= p_srsps());
    assert(p_regs_rsp_idx().subrange(0, 2) =~= p_regs_rsp());
    if !m.dom().contains(p_src()) {
        if path_starts_with(q, p_src()) {
            if q.len() == 1 {
                assert(q.subrange(0, 1) =~= q);
                assert(false);
            } else {
                assert(q.subrange(0, 1) =~= p_src());
                lemma_wf_ancestors(m, q, 1);
                assert(false);
            }
        }
    }
    assert(a1(m).contains_pair(q, m[q]));
    if nested_missing(a1(m), key_source(), key_crates_io()) && a1(m).contains_pair(
        p_src(),
        Node::Table,
    ) {
        if path_starts_with(q, p_cio()) {
            if q.len() == 2 {
                assert(q.subrange(0, 2) =~= q);
                assert(false);
            } else {
                assert(q.subrange(0, 2) =~= p_cio());
                lemma_wf_ancestors(a1(m), q, 2);
                assert(false);
            }
        }
    }
    assert(a2(m).contains_pair(q, m[q]));
    assert(a3(m).contains_pair(q, m[q]));
    assert(a4(m).contains_pair(q, m[q]));
    if path_starts_with(q, p_srsp_reg()) {
        assert(q.subrange(0, 2) =~= p_srsp());
        assert(path_starts_with(q, p_srsp()));
    }
    assert(a5(m).contains_pair(q, m[q]));
    assert(a6(m).contains_pair(q, m[q]));
    if path_starts_with(q, p_srsps_reg()) {
        assert(q.subrange(0, 2) =~= p_srsps());
        assert(path_starts_with(q, p_srsps()));
    }
    assert(a7(m).contains_pair(q, m[q]));
    if !a7(m).dom().contains(p_regs()) {
        if path_starts_with(q, p_regs()) {
            if q.len() == 1 {
                assert(q.subrange(0, 1) =~= q);
                assert(false);
            } else {
                assert(q.subrange(0, 1) =~= p_regs());
                lemma_wf_ancestors(a7(m), q, 1);
                assert(false);
            }
        }
    }
    assert(a8(m).contains_pair(q, m[q]));
    assert(a9(m).contains_pair(q, m[q]));
    if path_starts_with(q, p_regs_rsp_idx()) {
        assert(q.subrange(0, 2) =~= p_regs_rsp());
        assert(path_starts_with(q, p_regs_rsp()));
    }
    assert(a10(m).contains_pair(q, m[q]));
    if !a10(m).dom().contains(p_net()) {
        if path_starts_with(q, p_net()) {
            if q.len() == 1 {
                assert(q.subrange(0, 1) =~= q);
                assert(false);
            } else {
                assert(q.subrange(0, 1) =~= p_net());
                lemma_wf_ancestors(a10(m), q, 1);
                assert(false);
            }
        }
    }
    assert(a11(m).contains_pair(q, m[q]));
}

/// One whole set operation keeps every entry that the proxy does not own,
/// with its value.
pub proof fn lemma_set_preserves_unrelated(m: DocModel, q: Seq<Seq<char>>)
    requires
        wf(m),
        m.dom().contains(q),
        !is_proxy_path(q),
    ensures
        apply_spec(m).contains_pair(q, m[q]),
{
    lemma_clear_preserves_unrelated(m, q);
    lemma_strip_wf(m);
    lemma_add_preserves_unrelated(strip_spec(m), q);
}

proof fn lemma_keys_distinct()
    ensures
        key_source().len() == 6,
        key_crates_io().len() == 9,
        key_replace_with().len() == 12,
        key_rsproxy().len() == 7,
        key_rsproxy_sparse().len() == 14,
        key_registries().len() == 10,
        key_registry().len() == 8,
        key_index().len() == 5,
        key_net().len() == 3,
        key_git_fetch().len() == 18,
{
    reveal_strlit("source");
    reveal_strlit("crates-io");
    reveal_strlit("replace-with");
    reveal_strlit("rsproxy");
    reveal_strlit("rsproxy-sparse");
    reveal_strlit("registries");
    reveal_strlit("registry");
    reveal_strlit("index");
    reveal_strlit("net");
    reveal_strlit("git-fetch-with-cli");
}

/// No proxy-owned entry is present.
pub open spec fn proxy_free(m: DocModel) -> bool {
    forall|p: Seq<Seq<char>>| is_proxy_path(p) ==> !m.dom().contains(p)
}

/// Nothing blocks the `[source]` table: it is absent or already a table.
pub open spec fn src_ok(m: DocModel) -> bool {
    !m.dom().contains(p_src()) || m.contains_pair(p_src(), Node::Table)
}

/// Nothing blocks the `[source.crates-io]` table.
pub open spec fn cio_ok(m: DocModel) -> bool {
    src_ok(m) && (!m.dom().contains(p_cio()) || m.contains_pair(p_cio(), Node::Table))
}

/// Nothing blocks the `[registries]` table.
pub open spec fn regs_ok(m: DocModel) -> bool {
    !m.dom().contains(p_regs()) || m.contains_pair(p_regs(), Node::Table)
}

/// Nothing blocks the `[net]` table.
pub open spec fn net_ok(m: DocModel) -> bool {
    !m.dom().contains(p_net()) || m.contains_pair(p_net(), Node::Table)
}

/// Whatever clearing leaves was already there, unchanged.
proof fn lemma_strip_is_subset(m: DocModel)
    ensures
        forall|q: Seq<Seq<char>>| #[trigger] strip_spec(m).dom().contains(q)
            ==> m.contains_pair(q, strip_spec(m)[q]),
{
    lemma_strip_unfold(m);
    assert forall|q: Seq<Seq<char>>| #[trigger] strip_spec(m).dom().contains(q) implies
        m.contains_pair(q, strip_spec(m)[q]) by {
        assert(s4(m).contains_pair(q, strip_spec(m)[q]));
        assert(s3(m).contains_pair(q, strip_spec(m)[q]));
        assert(s2(m).contains_pair(q, strip_spec(m)[q]));
        assert(s1(m).contains_pair(q, strip_spec(m)[q]));
    }
}

/// What installing the block produces, entry by entry, on a well-formed
/// document with no proxy-owned entries.
proof fn lemma_add_characterization(x: DocModel)
    requires
        wf(x),
        proxy_free(x),
    ensures
        forall|q: Seq<Seq<char>>| #[trigger] x.dom().contains(q) ==> add_spec(x).contains_pair(
            q,
            x[q],
        ),
        forall|q: Seq<Seq<char>>| #[trigger] add_spec(x).dom().contains(q) ==> x.dom().contains(q)
            || q == p_src() || q == p_cio() || q == p_rw() || q == p_srsp() || q == p_srsp_reg()
            || q == p_srsps() || q == p_srsps_reg() || q == p_regs() || q == p_regs_rsp()
            || q == p_regs_rsp_idx() || q == p_net() || q == p_net_gfw(),
        add_spec(x).dom().contains(p_src()),
        src_ok(x) <==> add_spec(x).contains_pair(p_src(), Node::Table),
        add_spec(x).dom().contains(p_cio()) <==> (x.dom().contains(p_cio()) || src_ok(x)),
        cio_ok(x) <==> add_spec(x).contains_pair(p_cio(), Node::Table),
        x.dom().contains(p_cio()) ==> add_spec(x).contains_pair(p_cio(), x[p_cio()]),
        add_spec(x).dom().contains(p_rw()) <==> cio_ok(x),
        cio_ok(x) ==> add_spec(x).contains_pair(p_rw(), Node::Str(val_replace_with())),
        add_spec(x).dom().contains(p_srsp()) <==> src_ok(x),
        src_ok(x) ==> add_spec(x).contains_pair(p_srsp(), Node::Table),
        add_spec(x).dom().contains(p_srsp_reg()) <==> src_ok(x),
        src_ok(x) ==> add_spec(x).contains_pair(p_srsp_reg(), Node::Str(val_registry_index())),
        add_spec(x).dom().contains(p_srsps()) <==> src_ok(x),
        src_ok(x) ==> add_spec(x).contains_pair(p_srsps(), Node::Table),
        add_spec(x).dom().contains(p_srsps_reg()) <==> src_ok(x),
        src_ok(x) ==> add_spec(x).contains_pair(p_srsps_reg(), Node::Str(val_sparse_index())),
        add_spec(x).dom().contains(p_regs()),
        regs_ok(x) <==> add_spec(x).contains_pair(p_regs(), Node::Table),
        add_spec(x).dom().contains(p_regs_rsp()) <==> regs_ok(x),
        regs_ok(x) ==> add_spec(x).contains_pair(p_regs_rsp(), Node::Table),
        add_spec(x).dom().contains(p_regs_rsp_idx()) <==> regs_ok(x),
        regs_ok(x) ==> add_spec(x).contains_pair(p_regs_rsp_idx(), Node::Str(val_registry_index())),
        add_spec(x).dom().contains(p_net()),
        net_ok(x) <==> add_spec(x).contains_pair(p_net(), Node::Table),
        add_spec(x).dom().contains(p_net_gfw()) <==> net_ok(x),
        net_ok(x) ==> add_spec(x).contains_pair(p_net_gfw(), Node::Bool(true)),
{
    lemma_keys_distinct();
    lemma_add_chain_wf(x);
    lemma_add_unfold(x);
    assert(p_src().subrange(0, 1) =~= p_src());
    assert(p_regs().subrange(0, 1) =~= p_regs());
    assert(p_net().subrange(0, 1) =~= p_net());
    assert(p_cio().subrange(0, 2) =~= p_cio());
    assert(p_cio().subrange(0, 1) =~= p_src());
    assert(p_srsp().subrange(0, 1) =~= p_src());
    assert(p_srsps().subrange(0, 1) =~= p_src());
    assert(p_regs_rsp().subrange(0, 1) =~= p_regs());
    assert(p_net_gfw().subrange(0, 1) =~= p_net());
    assert(p_rw().subrange(0, 2) =~= p_cio());
    assert(p_rw().subrange(0, 1) =~= p_src());
    assert(p_srsp_reg().subrange(0, 1) =~= p_src());
    assert(p_srsps_reg().subrange(0, 1) =~= p_src());
    assert(p_regs_rsp_idx().subrange(0, 1) =~= p_regs());
    assert(p_rw().subrange(0, 3) =~= p_rw());
    assert(p_srsp().subrange(0, 2) =~= p_srsp());
    assert(p_srsps().subrange(0, 2) =~= p_srsps());
    assert(p_regs_rsp().subrange(0, 2) =~= p_regs_rsp());
    assert(p_net_gfw().subrange(0, 2) =~= p_net_gfw());
    assert(p_srsp_reg().subrange(0, 2) =~= p_srsp());
    assert(p_srsps_reg().subrange(0, 2) =~= p_srsps());
    assert(p_regs_rsp_idx().subrange(0, 2) =~= p_regs_rsp());
    assert(is_proxy_path(p_rw()));
    assert(is_proxy_path(p_srsp()));
    assert(is_proxy_path(p_srsp_reg()));
    assert(is_proxy_path(p_srsps()));
    assert(is_proxy_path(p_srsps_reg()));
    assert(is_proxy_path(p_regs_rsp()));
    assert(is_proxy_path(p_regs_rsp_idx()));
    assert(is_proxy_path(p_net_gfw()));
    assert forall|q: Seq<Seq<char>>| #[trigger] x.dom().contains(q) implies add_spec(
        x,
    ).contains_pair(q, x[q]) by {
        lemma_add_preserves_unrelated(x, q);
    }
    assert forall|q: Seq<Seq<char>>| #[trigger] add_spec(x).dom().contains(q) implies
        x.dom().contains(q) || q == p_src() || q == p_cio() || q == p_rw() || q == p_srsp()
        || q == p_srsp_reg() || q == p_srsps() || q == p_srsps_reg() || q == p_regs()
        || q == p_regs_rsp() || q == p_regs_rsp_idx() || q == p_net() || q == p_net_gfw() by {
        if !(q == p_src() || q == p_cio() || q == p_rw() || q == p_srsp() || q == p_srsp_reg()
            || q == p_srsps() || q == p_srsps_reg() || q == p_regs() || q == p_regs_rsp()
            || q == p_regs_rsp_idx() || q == p_net() || q == p_net_gfw()) {
            assert(a11(x).dom().contains(q));
            assert(a10(x).dom().contains(q));
            assert(a9(x).dom().contains(q));
            assert(a8(x).dom().contains(q));
            assert(a7(x).dom().contains(q));
            assert(a6(x).dom().contains(q));
            assert(a5(x).dom().contains(q));
            assert(a4(x).dom().contains(q));
            assert(a3(x).dom().contains(q));
            assert(a2(x).dom().contains(q));
            assert(a1(x).dom().contains(q));
        }
    }
    assert(a1(x).dom().contains(p_src()));
    assert(src_ok(x) <==> a1(x).contains_pair(p_src(), Node::Table));
    assert(a2(x).contains_pair(p_src(), Node::Table) == a1(x).contains_pair(
        p_src(),
        Node::Table,
    ));
    assert(a2(x).dom().contains(p_cio()) <==> (x.dom().contains(p_cio()) || src_ok(x)));
    assert(cio_ok(x) <==> a2(x).contains_pair(p_cio(), Node::Table));
    assert(a3(x).dom().contains(p_rw()) <==> cio_ok(x));
    assert(cio_ok(x) ==> a3(x).contains_pair(p_rw(), Node::Str(val_replace_with())));
    assert(a4(x).dom().contains(p_srsp()) <==> src_ok(x));
    assert(src_ok(x) ==> a4(x).contains_pair(p_srsp(), Node::Table));
    assert(a5(x).dom().contains(p_srsp_reg()) <==> src_ok(x));
    assert(src_ok(x) ==> a5(x).contains_pair(p_srsp_reg(), Node::Str(val_registry_index())));
    assert(a6(x).dom().contains(p_srsps()) <==> src_ok(x));
    assert(src_ok(x) ==> a6(x).contains_pair(p_srsps(), Node::Table));
    assert(a7(x).dom().contains(p_srsps_reg()) <==> src_ok(x));
    assert(src_ok(x) ==> a7(x).contains_pair(p_srsps_reg(), Node::Str(val_sparse_index())));
    assert(a8(x).dom().contains(p_regs()));
    assert(regs_ok(x) <==> a8(x).contains_pair(p_regs(), Node::Table));
    assert(a9(x).dom().contains(p_regs_rsp()) <==> regs_ok(x));
    assert(regs_ok(x) ==> a9(x).contains_pair(p_regs_rsp(), Node::Table));
    assert(a10(x).dom().contains(p_regs_rsp_idx()) <==> regs_ok(x));
    assert(regs_ok(x) ==> a10(x).contains_pair(p_regs_rsp_idx(), Node::Str(val_registry_index())));
    assert(a11(x).dom().contains(p_net()));
    assert(net_ok(x) <==> a11(x).contains_pair(p_net(), Node::Table));
    assert(add_spec(x).dom().contains(p_net_gfw()) <==> net_ok(x));
    assert(net_ok(x) ==> add_spec(x).contains_pair(p_net_gfw(), Node::Bool(true)));
    assert(a2(x).dom().contains(p_src()));
    assert(a3(x).dom().contains(p_src()));
    assert(a4(x).dom().contains(p_src()));
    assert(a5(x).dom().contains(p_src()));
    assert(a6(x).dom().contains(p_src()));
    assert(a7(x).dom().contains(p_src()));
    assert(a8(x).dom().contains(p_src()));
    assert(a9(x).dom().contains(p_src()));
    assert(a10(x).dom().contains(p_src()));
    assert(a11(x).dom().contains(p_src()));
    assert(add_spec(x).dom().contains(p_src()));
}

/// Setting twice gives the same document as setting once: the second set
/// strips exactly the block the first one wrote and writes it again.
#[verifier::rlimit(50)]
pub proof fn lemma_set_twice_idempotent(m: DocModel)
    requires
        wf(m),
    ensures
        apply_spec(apply_spec(m)) == apply_spec(m),
{
    lemma_keys_distinct();
    let x = strip_spec(m);
    lemma_strip_wf(m);
    lemma_clear_removes_proxy_entries(m);
    assert(proxy_free(x));
    let a = add_spec(x);
    lemma_add_wf(x);
    let y = strip_spec(a);
    lemma_strip_wf(a);
    lemma_clear_removes_proxy_entries(a);
    assert(proxy_free(y));
    lemma_strip_is_subset(a);
    assert(p_src().subrange(0, 1) =~= p_src());
    assert(p_regs().subrange(0, 1) =~= p_regs());
    assert(p_net().subrange(0, 1) =~= p_net());
    assert(p_cio().subrange(0, 2) =~= p_cio());
    assert(!is_proxy_path(p_src()));
    assert(!is_proxy_path(p_cio()));
    assert(!is_proxy_path(p_regs()));
    assert(!is_proxy_path(p_net()));
    assert forall|q: Seq<Seq<char>>| #[trigger] a.dom().contains(q) && !is_proxy_path(q) implies
        y.contains_pair(q, a[q]) by {
        lemma_clear_preserves_unrelated(a, q);
    }
    lemma_add_characterization(x);
    lemma_add_characterization(y);
    assert(y.dom().contains(p_src()));
    assert(y.dom().contains(p_regs()));
    assert(y.dom().contains(p_net()));
    assert(src_ok(y) == src_ok(x));
    assert(regs_ok(y) == regs_ok(x));
    assert(net_ok(y) == net_ok(x));
    assert(cio_ok(y) == cio_ok(x)) by {
        if src_ok(x) {
            if a.dom().contains(p_cio()) {
                assert(y.contains_pair(p_cio(), a[p_cio()]));
            } else {
                assert(!y.dom().contains(p_cio()));
            }
        }
    }
    assert forall|q: Seq<Seq<char>>| #[trigger] add_spec(y).dom().contains(q) implies
        a.contains_pair(q, add_spec(y)[q]) by {
        if y.dom().contains(q) {
            assert(add_spec(y).contains_pair(q, y[q]));
            assert(a.contains_pair(q, y[q]));
        } else if q == p_rw() {
            assert(cio_ok(y));
            assert(add_spec(y).contains_pair(q, Node::Str(val_replace_with())));
            assert(a.contains_pair(q, Node::Str(val_replace_with())));
        } else if q == p_srsp() {
            assert(add_spec(y).contains_pair(q, Node::Table));
            assert(a.contains_pair(q, Node::Table));
        } else if q == p_srsp_reg() {
            assert(add_spec(y).contains_pair(q, Node::Str(val_registry_index())));
            assert(a.contains_pair(q, Node::Str(val_registry_index())));
        } else if q == p_srsps() {
            assert(add_spec(y).contains_pair(q, Node::Table));
            assert(a.contains_pair(q, Node::Table));
        } else if q == p_srsps_reg() {
            assert(add_spec(y).contains_pair(q, Node::Str(val_sparse_index())));
            assert(a.contains_pair(q, Node::Str(val_sparse_index())));
        } else if q == p_regs_rsp() {
            assert(add_spec(y).contains_pair(q, Node::Table));
            assert(a.contains_pair(q, Node::Table));
        } else if q == p_regs_rsp_idx() {
            assert(add_spec(y).contains_pair(q, Node::Str(val_registry_index())));
            assert(a.contains_pair(q, Node::Str(val_registry_index())));
        } else if q == p_net_gfw() {
            assert(add_spec(y).contains_pair(q, Node::Bool(true)));
            assert(a.contains_pair(q, Node::Bool(true)));
        } else if q == p_cio() {
            assert(src_ok(y));
            assert(a.dom().contains(p_cio()));
            assert(y.dom().contains(p_cio()));
            assert(false);
        } else {
            assert(false);
        }
    }
    assert forall|q: Seq<Seq<char>>| #[trigger] a.dom().contains(q) implies
        add_spec(y).dom().contains(q) by {
        if is_proxy_path(q) {
            if q == p_rw() {
            } else if q == p_srsp() || q == p_srsp_reg() || q == p_srsps() || q
                == p_srsps_reg() {
            } else if q == p_regs_rsp() || q == p_regs_rsp_idx() {
            } else if q == p_net_gfw() {
            } else {
                assert(x.dom().contains(q));
                assert(false);
            }
        } else {
            assert(y.contains_pair(q, a[q]));
            assert(add_spec(y).contains_pair(q, y[q]));
        }
    }
    assert(add_spec(y).dom() =~= a.dom());
    assert(add_spec(y) =~= a);
}

/// After one set on a well-formed document whose `source`, `registries` and
/// `net` entries and whose `source.crates-io` entry are each absent or
/// already tables, the whole redirection block stands in the document.
pub proof fn lemma_set_installs_block(m: DocModel)
    requires
        wf(m),
        cio_ok(m),
        regs_ok(m),
        net_ok(m),
    ensures
        apply_spec(m).contains_pair(p_rw(), Node::Str(val_replace_with())),
        apply_spec(m).contains_pair(p_srsp(), Node::Table),
        apply_spec(m).contains_pair(p_srsp_reg(), Node::Str(val_registry_index())),
        apply_spec(m).contains_pair(p_srsps(), Node::Table),
        apply_spec(m).contains_pair(p_srsps_reg(), Node::Str(val_sparse_index())),
        apply_spec(m).contains_pair(p_regs_rsp(), Node::Table),
        apply_spec(m).contains_pair(p_regs_rsp_idx(), Node::Str(val_registry_index())),
        apply_spec(m).contains_pair(p_net_gfw(), Node::Bool(true)),
{
    lemma_keys_distinct();
    let x = strip_spec(m);
    lemma_strip_wf(m);
    lemma_clear_removes_proxy_entries(m);
    assert(proxy_free(x));
    lemma_strip_is_subset(m);
    assert(p_src().subrange(0, 1) =~= p_src());
    assert(p_regs().subrange(0, 1) =~= p_regs());
    assert(p_net().subrange(0, 1) =~= p_net());
    assert(p_cio().subrange(0, 2) =~= p_cio());
    assert(!is_proxy_path(p_src()));
    assert(!is_proxy_path(p_cio()));
    assert(!is_proxy_path(p_regs()));
    assert(!is_proxy_path(p_net()));
    if m.dom().contains(p_src()) {
        lemma_clear_preserves_unrelated(m, p_src());
    }
    if m.dom().contains(p_cio()) {
        lemma_clear_preserves_unrelated(m, p_cio());
    }
    if m.dom().contains(p_regs()) {
        lemma_clear_preserves_unrelated(m, p_regs());
    }
    if m.dom().contains(p_net()) {
        lemma_clear_preserves_unrelated(m, p_net());
    }
    assert(src_ok(x));
    assert(cio_ok(x));
    assert(regs_ok(x));
    assert(net_ok(x));
    lemma_add_characterization(x);
}

} // verus!
