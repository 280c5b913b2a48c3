//! The laws the builder obeys, stated over the mathematical build function
//! and proved for every input: the shape and order of the built forest,
//! the exclusion of unreachable records, and the reporting of a direct
//! self-cycle under the root.

use vstd::prelude::*;

use crate::builder::{
    build_from, has_id, ids_off_path, lemma_measure_shrinks, root_marker, spec_build, spec_node,
};
use crate::model::{tag_type, RawSelectorView, SelectorNodeView, SitemapError};

verus! {

/// The records from position `k` on whose parent list names `parent`, in
/// source order.
pub open spec fn matching_from(
    records: Seq<RawSelectorView>,
    k: int,
    parent: Seq<char>,
) -> Seq<RawSelectorView>
    decreases records.len() - k,
    when 0 <= k <= records.len()
{
    if k == records.len() {
        Seq::empty()
    } else if records[k].parent_ids.contains(parent) {
        seq![records[k]] + matching_from(records, k + 1, parent)
    } else {
        matching_from(records, k + 1, parent)
    }
}

/// The records whose parent list names `parent`, in source order.
pub open spec fn matching(records: Seq<RawSelectorView>, parent: Seq<char>) -> Seq<
    RawSelectorView,
> {
    matching_from(records, 0, parent)
}

/// Whether every record id of the list is carried by one record only.
pub open spec fn unique_ids(records: Seq<RawSelectorView>) -> bool {
    forall|i: int, j: int|
        0 <= i < records.len() && 0 <= j < records.len() && records[i].id == records[j].id ==> i
            == j
}

/// Whether a node or one of its descendants carries the id `x`.
pub open spec fn node_has_id(n: SelectorNodeView, x: Seq<char>) -> bool
    decreases n,
{
    n.id == x || forest_has_id(n.children, x)
}

/// Whether some node of the forest, at any depth, carries the id `x`.
pub open spec fn forest_has_id(ns: Seq<SelectorNodeView>, x: Seq<char>) -> bool
    decreases ns,
{
    exists|i: int| 0 <= i < ns.len() && node_has_id(ns[i], x)
}

/// Shape and order: where the build of the records from position `k` on
/// under `parent` succeeds, it yields exactly one node per matching
/// record, in source order; each node copies its record's id, selector
/// and multiplicity flag, takes its kind from the record's type tag, and
/// carries the children that its own id builds with itself added to the
/// active path; and no matching record's id was on the active path.
pub proof fn lemma_forest_shape(
    records: Seq<RawSelectorView>,
    k: int,
    parent: Seq<char>,
    path: Set<Seq<char>>,
    ns: Seq<SelectorNodeView>,
)
    requires
        0 <= k <= records.len(),
        path.finite(),
        build_from(records, k, parent, path) == Ok::<Seq<SelectorNodeView>, SitemapError>(ns),
    ensures
        ns.len() == matching_from(records, k, parent).len(),
        forall|i: int|
            0 <= i < ns.len() ==> {
                let m = #[trigger] matching_from(records, k, parent)[i];
                ns[i].id == m.id && ns[i].selector == m.selector && ns[i].multiple == m.multiple
                    && tag_type(m.type_tag) == Some(ns[i].selector_type) && build_from(
                    records,
                    0,
                    m.id,
                    path.insert(m.id),
                ) == Ok::<Seq<SelectorNodeView>, SitemapError>(ns[i].children)
            },
        forall|i: int|
            0 <= i < ns.len() ==> !path.contains(
                #[trigger] matching_from(records, k, parent)[i].id,
            ),
    decreases records.len() - k,
{
    let ms = matching_from(records, k, parent);
    if k == records.len() {
    } else {
        let r = records[k];
        if r.parent_ids.contains(parent) {
            let cs = build_from(records, 0, r.id, path.insert(r.id))->Ok_0;
            let rest = build_from(records, k + 1, parent, path)->Ok_0;
            lemma_forest_shape(records, k + 1, parent, path, rest);
            assert(ns == seq![
                spec_node(r, tag_type(r.type_tag)->0, cs),
            ] + rest);
            let mrest = matching_from(records, k + 1, parent);
            assert(ms == seq![r] + mrest);
            assert forall|i: int| 0 <= i < ns.len() implies {
                let m = #[trigger] ms[i];
                ns[i].id == m.id && ns[i].selector == m.selector && ns[i].multiple == m.multiple
                    && tag_type(m.type_tag) == Some(ns[i].selector_type) && build_from(
                    records,
                    0,
                    m.id,
                    path.insert(m.id),
                ) == Ok::<Seq<SelectorNodeView>, SitemapError>(ns[i].children) && !path.contains(
                    m.id,
                )
            } by {
                if i == 0 {
                    assert(ms[0] == r);
                    assert(ns[0] == spec_node(r, tag_type(r.type_tag)->0, cs));
                } else {
                    assert(ms[i] == mrest[i - 1]);
                    assert(ns[i] == rest[i - 1]);
                }
            }
        } else {
            lemma_forest_shape(records, k + 1, parent, path, ns);
            assert(ms == matching_from(records, k + 1, parent));
        }
    }
}

/// Ordering: where the build of the whole record list under `parent`
/// succeeds, the ids of the yielded siblings are the ids of the matching
/// records, in source order.
pub proof fn lemma_sibling_order(
    records: Seq<RawSelectorView>,
    parent: Seq<char>,
    ns: Seq<SelectorNodeView>,
)
    requires
        spec_build(records, parent) == Ok::<Seq<SelectorNodeView>, SitemapError>(ns),
    ensures
        ns.len() == matching(records, parent).len(),
        Seq::new(ns.len(), |i: int| ns[i].id) =~= Seq::new(
            matching(records, parent).len(),
            |i: int| matching(records, parent)[i].id,
        ),
{
    lemma_forest_shape(records, 0, parent, Set::empty(), ns);
}

/// Exclusion, generalized over the levels of the build: a record none of
/// whose parent references names `parent0` or any record's id never
/// appears, at any depth, in a successfully built forest whose `parent`
/// is `parent0` or a record id.
proof fn lemma_excluded_rec(
    records: Seq<RawSelectorView>,
    k: int,
    parent0: Seq<char>,
    parent: Seq<char>,
    path: Set<Seq<char>>,
    ns: Seq<SelectorNodeView>,
    e: int,
)
    requires
        0 <= k <= records.len(),
        path.finite(),
        build_from(records, k, parent, path) == Ok::<Seq<SelectorNodeView>, SitemapError>(ns),
        unique_ids(records),
        0 <= e < records.len(),
        !records[e].parent_ids.contains(parent0),
        forall|j: int| 0 <= j < records.len() ==> !records[e].parent_ids.contains(records[j].id),
        parent == parent0 || has_id(records, parent),
    ensures
        !forest_has_id(ns, records[e].id),
    decreases ids_off_path(records, path), records.len() - k,
{
    if k == records.len() {
    } else {
        let r = records[k];
        if r.parent_ids.contains(parent) {
            let cs = build_from(records, 0, r.id, path.insert(r.id))->Ok_0;
            let rest = build_from(records, k + 1, parent, path)->Ok_0;
            assert(r.id != records[e].id) by {
                if r.id == records[e].id {
                    assert(k == e);
                    if parent == parent0 {
                        assert(false);
                    } else {
                        let j = choose|j: int|
                            0 <= j < records.len() && records[j].id == parent;
                        assert(!records[e].parent_ids.contains(records[j].id));
                        assert(false);
                    }
                }
            }
            assert(has_id(records, r.id));
            lemma_measure_shrinks(records, path, r.id);
            lemma_excluded_rec(records, 0, parent0, r.id, path.insert(r.id), cs, e);
            lemma_excluded_rec(records, k + 1, parent0, parent, path, rest, e);
            let node = spec_node(r, tag_type(r.type_tag)->0, cs);
            assert(ns == seq![node] + rest);
            assert forall|i: int| 0 <= i < ns.len() implies !node_has_id(
                ns[i],
                records[e].id,
            ) by {
                if i == 0 {
                    assert(ns[0] == node);
                } else {
                    assert(ns[i] == rest[i - 1]);
                    assert(!forest_has_id(rest, records[e].id));
                }
            }
        } else {
            lemma_excluded_rec(records, k + 1, parent0, parent, path, ns, e);
        }
    }
}

/// Exclusion: a record none of whose parent references names the root
/// marker or any record's id — among them one with no parent references
/// at all, and one whose sole reference dangles — never appears, at any
/// depth, in a successfully built tree, provided record ids are unique.
pub proof fn lemma_record_excluded(
    records: Seq<RawSelectorView>,
    ns: Seq<SelectorNodeView>,
    e: int,
)
    requires
        spec_build(records, root_marker()) == Ok::<Seq<SelectorNodeView>, SitemapError>(ns),
        unique_ids(records),
        0 <= e < records.len(),
        forall|p: Seq<char>|
            #[trigger] records[e].parent_ids.contains(p) ==> p != root_marker() && !has_id(
                records,
                p,
            ),
    ensures
        !forest_has_id(ns, records[e].id),
{
    assert(!records[e].parent_ids.contains(root_marker()));
    assert forall|j: int| 0 <= j < records.len() implies !records[e].parent_ids.contains(
        records[j].id,
    ) by {
        if records[e].parent_ids.contains(records[j].id) {
            assert(has_id(records, records[j].id));
        }
    }
    lemma_excluded_rec(records, 0, root_marker(), root_marker(), Set::empty(), ns, e);
}

/// Whether every node of the forest carries an id off `path`, and its
/// children do likewise with the node's own id added: no node repeats an
/// ancestor's id.
pub open spec fn ancestors_distinct_in(ns: Seq<SelectorNodeView>, path: Set<Seq<char>>) -> bool
    decreases ns,
{
    forall|i: int| 0 <= i < ns.len() ==> node_ancestors_distinct_in(#[trigger] ns[i], path)
}

/// Whether a node's id lies off `path` and its children keep their
/// ancestors distinct once the node's id is added.
pub open spec fn node_ancestors_distinct_in(n: SelectorNodeView, path: Set<Seq<char>>) -> bool
    decreases n,
{
    !path.contains(n.id) && ancestors_distinct_in(n.children, path.insert(n.id))
}

/// Cycle safety of successful builds, generalized over the levels: in a
/// forest the builder yields, no node carries the id of one of its
/// ancestors or of the active path.
proof fn lemma_build_distinct_rec(
    records: Seq<RawSelectorView>,
    k: int,
    parent: Seq<char>,
    path: Set<Seq<char>>,
    ns: Seq<SelectorNodeView>,
)
    requires
        0 <= k <= records.len(),
        path.finite(),
        build_from(records, k, parent, path) == Ok::<Seq<SelectorNodeView>, SitemapError>(ns),
    ensures
        ancestors_distinct_in(ns, path),
    decreases ids_off_path(records, path), records.len() - k,
{
    if k == records.len() {
    } else {
        let r = records[k];
        if r.parent_ids.contains(parent) {
            let cs = build_from(records, 0, r.id, path.insert(r.id))->Ok_0;
            let rest = build_from(records, k + 1, parent, path)->Ok_0;
            assert(has_id(records, r.id));
            lemma_measure_shrinks(records, path, r.id);
            lemma_build_distinct_rec(records, 0, r.id, path.insert(r.id), cs);
            lemma_build_distinct_rec(records, k + 1, parent, path, rest);
            let node = spec_node(r, tag_type(r.type_tag)->0, cs);
            assert(ns == seq![node] + rest);
            assert forall|i: int| 0 <= i < ns.len() implies node_ancestors_distinct_in(
                ns[i],
                path,
            ) by {
                if i == 0 {
                    assert(ns[0] == node);
                    assert(!path.contains(node.id));
                    assert(ancestors_distinct_in(node.children, path.insert(node.id)));
                    assert(node_ancestors_distinct_in(node, path));
                } else {
                    assert(ns[i] == rest[i - 1]);
                    assert(node_ancestors_distinct_in(rest[i - 1], path));
                }
            }
        } else {
            lemma_build_distinct_rec(records, k + 1, parent, path, ns);
        }
    }
}

/// Cycle safety of successful builds: in a tree the builder yields, no
/// node at any depth carries the id of one of its ancestors — the
/// active-path check cuts every would-be cycle off, and a build that
/// returns at all (which the builder's termination measure guarantees)
/// either reports an error or yields such a tree.
pub proof fn lemma_tree_ancestors_distinct(
    records: Seq<RawSelectorView>,
    ns: Seq<SelectorNodeView>,
)
    requires
        spec_build(records, root_marker()) == Ok::<Seq<SelectorNodeView>, SitemapError>(ns),
    ensures
        ancestors_distinct_in(ns, Set::empty()),
{
    lemma_build_distinct_rec(records, 0, root_marker(), Set::empty(), ns);
}

/// Cycle reporting, the direct case: a record that names both the root
/// marker and itself among its parents makes the whole build fail — such
/// a record would otherwise be its own child. For cycles in general,
/// [`lemma_tree_ancestors_distinct`] shows what every successful build
/// keeps true, and the builder's termination on every input — cyclic
/// record sets included — is part of its verification.
pub proof fn lemma_self_cycle_errs(records: Seq<RawSelectorView>, e: int)
    requires
        0 <= e < records.len(),
        records[e].parent_ids.contains(root_marker()),
        records[e].parent_ids.contains(records[e].id),
    ensures
        spec_build(records, root_marker()) is Err,
{
    if spec_build(records, root_marker()) is Ok {
        let ns = spec_build(records, root_marker())->Ok_0;
        lemma_forest_shape(records, 0, root_marker(), Set::empty(), ns);
        lemma_matching_has(records, 0, root_marker(), e);
        let i = choose|i: int|
            0 <= i < matching(records, root_marker()).len() && matching(
                records,
                root_marker(),
            )[i] == records[e];
        let cs = ns[i].children;
        let path1 = Set::<Seq<char>>::empty().insert(records[e].id);
        lemma_forest_shape(records, 0, records[e].id, path1, cs);
        lemma_matching_has(records, 0, records[e].id, e);
        let i2 = choose|i2: int|
            0 <= i2 < matching(records, records[e].id).len() && matching(
                records,
                records[e].id,
            )[i2] == records[e];
        assert(!path1.contains(matching(records, records[e].id)[i2].id));
        assert(false);
    }
}

/// Every record whose parent list names `parent` stands somewhere in the
/// matching list.
proof fn lemma_matching_has(records: Seq<RawSelectorView>, k: int, parent: Seq<char>, e: int)
    requires
        0 <= k <= e < records.len(),
        records[e].parent_ids.contains(parent),
    ensures
        exists|i: int|
            0 <= i < matching_from(records, k, parent).len() && matching_from(
                records,
                k,
                parent,
            )[i] == records[e],
    decreases records.len() - k,
{
    let ms = matching_from(records, k, parent);
    if k == e {
        assert(ms[0] == records[e]);
    } else {
        lemma_matching_has(records, k + 1, parent, e);
        let mrest = matching_from(records, k + 1, parent);
        let i = choose|i: int| 0 <= i < mrest.len() && mrest[i] == records[e];
        if records[k].parent_ids.contains(parent) {
            assert(ms == seq![records[k]] + mrest);
            assert(ms[i + 1] == records[e]);
        } else {
            assert(ms == mrest);
        }
    }
}

} // verus!
