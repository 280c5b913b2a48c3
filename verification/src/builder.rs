//! The tree builder: groups the flat selector records under the synthetic
//! root marker into a tree of typed nodes.
//!
//! A record is a child of `parent` exactly when its parent list names
//! `parent`; siblings keep source order, and a record named by several
//! parents is built once under each. The builder keeps the active
//! ancestor-id path and reports a parent-reference cycle as
//! `CyclicSelectorReference` instead of recursing forever; its termination
//! measure is the number of record ids not yet on that path.

use vstd::prelude::*;

use crate::model::{
    tag_type, RawSelector, RawSelectorView, SelectorNode, SelectorNodeView, SelectorTree,
    SelectorTreeView, SelectorType, SiteMap, SiteMapView, SitemapError,
};

verus! {

/// The synthetic root marker: the reserved parent id meaning "top of the
/// tree".
pub open spec fn root_marker() -> Seq<char> {
    "_root"@
}

/// Whether some record of the list carries the id `x`.
pub open spec fn has_id(records: Seq<RawSelectorView>, x: Seq<char>) -> bool {
    exists|i: int| 0 <= i < records.len() && records[i].id == x
}

/// The set of ids the records carry.
pub open spec fn id_set(records: Seq<RawSelectorView>) -> Set<Seq<char>> {
    Set::new(|x: Seq<char>| has_id(records, x))
}

/// How many record ids are not yet on the active ancestor path: the
/// builder's termination measure.
pub open spec fn ids_off_path(records: Seq<RawSelectorView>, path: Set<Seq<char>>) -> nat {
    id_set(records).difference(path).len()
}

/// The node a record becomes, before its children are attached.
pub open spec fn spec_node(
    r: RawSelectorView,
    t: SelectorType,
    children: Seq<SelectorNodeView>,
) -> SelectorNodeView {
    SelectorNodeView {
        id: r.id,
        selector_type: t,
        selector: r.selector,
        multiple: r.multiple,
        children,
    }
}

/// The id set of a record list is finite and no larger than the list.
pub proof fn lemma_id_set_finite(records: Seq<RawSelectorView>)
    ensures
        id_set(records).finite(),
        id_set(records).len() <= records.len(),
    decreases records.len(),
{
    if records.len() == 0 {
        assert(id_set(records) =~= Set::<Seq<char>>::empty());
    } else {
        let prev = records.drop_last();
        lemma_id_set_finite(prev);
        let last = records.last().id;
        assert forall|x: Seq<char>| id_set(records).contains(x) implies id_set(prev).insert(
            last,
        ).contains(x) by {
            let i = choose|i: int| 0 <= i < records.len() && records[i].id == x;
            if i < records.len() - 1 {
                assert(prev[i] == records[i]);
                assert(has_id(prev, x));
            }
        }
        assert forall|x: Seq<char>| id_set(prev).insert(last).contains(x) implies id_set(
            records,
        ).contains(x) by {
            if id_set(prev).contains(x) {
                let i = choose|i: int| 0 <= i < prev.len() && prev[i].id == x;
                assert(records[i] == prev[i]);
                assert(has_id(records, x));
            } else {
                assert(records[records.len() - 1].id == x);
                assert(has_id(records, x));
            }
        }
        assert(id_set(records) =~= id_set(prev).insert(last));
    }
}

/// Putting a fresh record id on the path strictly shrinks the measure.
pub proof fn lemma_measure_shrinks(
    records: Seq<RawSelectorView>,
    path: Set<Seq<char>>,
    rid: Seq<char>,
)
    requires
        path.finite(),
        has_id(records, rid),
        !path.contains(rid),
    ensures
        ids_off_path(records, path.insert(rid)) < ids_off_path(records, path),
{
    lemma_id_set_finite(records);
    let d = id_set(records).difference(path);
    assert(d.contains(rid));
    assert(id_set(records).difference(path.insert(rid)) =~= d.remove(rid));
}

/// What the builder yields for the records from position `k` on, under
/// `parent`, with the ids of `path` as active ancestors: one node per
/// matching record, in source order, each with its children built
/// recursively; or the first error met. A record whose type tag lies
/// outside the closed set yields `UnknownSelectorType`; a matching record
/// whose id is already an active ancestor yields `CyclicSelectorReference`.
pub open spec fn build_from(
    records: Seq<RawSelectorView>,
    k: int,
    parent: Seq<char>,
    path: Set<Seq<char>>,
) -> Result<Seq<SelectorNodeView>, SitemapError>
    decreases ids_off_path(records, path), records.len() - k,
    when 0 <= k <= records.len() && path.finite()
{
    if k == records.len() {
        Ok(Seq::empty())
    } else {
        let r = records[k];
        if r.parent_ids.contains(parent) {
            match tag_type(r.type_tag) {
                None => Err(SitemapError::UnknownSelectorType),
                Some(t) => {
                    if path.contains(r.id) {
                        Err(SitemapError::CyclicSelectorReference)
                    } else {
                        proof {
                            assert(has_id(records, r.id));
                            lemma_measure_shrinks(records, path, r.id);
                        }
                        match build_from(records, 0, r.id, path.insert(r.id)) {
                            Err(e) => Err(e),
                            Ok(children) => match build_from(records, k + 1, parent, path) {
                                Err(e) => Err(e),
                                Ok(rest) => Ok(seq![spec_node(r, t, children)] + rest),
                            },
                        }
                    }
                },
            }
        } else {
            build_from(records, k + 1, parent, path)
        }
    }
}

/// What building the whole record list under `parent` yields, with no
/// active ancestors yet.
pub open spec fn spec_build(records: Seq<RawSelectorView>, parent: Seq<char>) -> Result<
    Seq<SelectorNodeView>,
    SitemapError,
> {
    build_from(records, 0, parent, Set::empty())
}

/// Whether an executable builder result equals a mathematical one.
pub open spec fn forest_result_matches(
    r: Result<Vec<SelectorNode>, SitemapError>,
    s: Result<Seq<SelectorNodeView>, SitemapError>,
) -> bool {
    match (r, s) {
        (Ok(v), Ok(ns)) => v.deep_view() == ns,
        (Err(a), Err(b)) => a == b,
        _ => false,
    }
}

/// The tree a decoded document builds to: its id, the first of its start
/// URLs, and its records grouped under the synthetic root marker.
pub open spec fn spec_tree_of_doc(doc: SiteMapView) -> Result<SelectorTreeView, SitemapError> {
    if doc.start_url.len() == 0 {
        Err(SitemapError::MalformedInput)
    } else {
        match spec_build(doc.selectors, root_marker()) {
            Ok(ns) => Ok(SelectorTreeView { id: doc.id, start_url: doc.start_url[0], selectors: ns }),
            Err(e) => Err(e),
        }
    }
}

/// Whether an executable tree result equals a mathematical one.
pub open spec fn tree_result_matches(
    r: Result<SelectorTree, SitemapError>,
    s: Result<SelectorTreeView, SitemapError>,
) -> bool {
    match (r, s) {
        (Ok(t), Ok(tv)) => t.deep_view() == tv,
        (Err(a), Err(b)) => a == b,
        _ => false,
    }
}

/// Whether the string list holds `x`.
fn contains_str(v: &Vec<String>, x: &String) -> (r: bool)
    ensures
        r == v.deep_view().contains(x@),
{
    let mut i: usize = 0;
    while i < v.len()
        invariant
            0 <= i <= v.len(),
            forall|j: int| 0 <= j < i ==> v.deep_view()[j] != x@,
        decreases v.len() - i,
    {
        if v[i] == *x {
            proof {
                assert(v.deep_view()[i as int] == x@);
            }
            return true;
        }
        i += 1;
    }
    false
}

/// A copy of a string list, element for element.
fn cloned_strings(v: &Vec<String>) -> (r: Vec<String>)
    ensures
        r@ == v@,
{
    let mut r: Vec<String> = Vec::new();
    let mut i: usize = 0;
    while i < v.len()
        invariant
            0 <= i <= v.len(),
            r@ =~= v@.take(i as int),
        decreases v.len() - i,
    {
        r.push(v[i].clone());
        i += 1;
    }
    proof {
        assert(v@.take(v.len() as int) =~= v@);
    }
    r
}

impl SelectorNode {
    /// Converts one record to a childless node, reporting a type tag
    /// outside the closed set as `UnknownSelectorType` instead of
    /// terminating.
    pub fn from_raw(raw: &RawSelector) -> (r: Result<SelectorNode, SitemapError>)
        ensures
            match (r, tag_type(raw.type_tag@)) {
                (Ok(n), Some(t)) => n.deep_view() == spec_node(
                    raw.deep_view(),
                    t,
                    Seq::<SelectorNodeView>::empty(),
                ),
                (Err(e), None) => e == SitemapError::UnknownSelectorType,
                _ => false,
            },
    {
        let t = match SelectorType::from_str(raw.type_tag.as_str()) {
            Ok(t) => t,
            Err(e) => {
                return Err(e);
            },
        };
        let n = SelectorNode {
            id: raw.id.clone(),
            selector_type: t,
            selector: raw.selector.clone(),
            multiple: raw.multiple,
            children: Vec::new(),
        };
        proof {
            assert(n.children@ =~= Seq::<SelectorNode>::empty());
            assert(crate::model::nodes_view(n.children@) =~= Seq::<SelectorNodeView>::empty());
            assert(n.deep_view() =~= spec_node(
                raw.deep_view(),
                t,
                Seq::<SelectorNodeView>::empty(),
            ));
        }
        Ok(n)
    }

    /// Builds the root-level nodes of a decoded sitemap: the records
    /// grouped under the synthetic root marker.
    pub fn new(sitemap: SiteMap) -> (r: Result<Vec<SelectorNode>, SitemapError>)
        ensures
            forest_result_matches(r, spec_build(sitemap.selectors.deep_view(), root_marker())),
    {
        let root = "_root".to_owned();
        build_selector_node(&sitemap.selectors, &root)
    }
}

impl SelectorTree {
    /// Builds the tree of an already decoded sitemap document:
    /// `MalformedInput` where its start-URL list is empty, else the
    /// document's id, its first start URL, and its records grouped under
    /// the synthetic root marker.
    pub fn from_sitemap(sitemap: SiteMap) -> (r: Result<SelectorTree, SitemapError>)
        ensures
            tree_result_matches(r, spec_tree_of_doc(sitemap.deep_view())),
    {
        if sitemap.start_url.len() == 0 {
            return Err(SitemapError::MalformedInput);
        }
        let id = sitemap.id.clone();
        let url = sitemap.start_url[0].clone();
        match SelectorNode::new(sitemap) {
            Ok(selectors) => Ok(SelectorTree { _id: id, start_url: url, selectors }),
            Err(e) => Err(e),
        }
    }
}

/// Groups the records under `parent_id`: one node per record whose parent
/// list names `parent_id`, in source order, each node's children built
/// recursively by the same rule. Reports a type tag outside the closed set
/// or a parent-reference cycle instead of terminating or recursing forever.
pub fn build_selector_node(raw_selectors: &Vec<RawSelector>, parent_id: &String) -> (r: Result<
    Vec<SelectorNode>,
    SitemapError,
>)
    ensures
        forest_result_matches(r, spec_build(raw_selectors.deep_view(), parent_id@)),
{
    let path: Vec<String> = Vec::new();
    proof {
        assert(path.deep_view().to_set() =~= Set::<Seq<char>>::empty());
    }
    build_nodes(raw_selectors, parent_id, &path)
}

/// The recursive worker behind [`build_selector_node`]: `path` holds the
/// ids of the active ancestors, nearest last.
fn build_nodes(records: &Vec<RawSelector>, parent_id: &String, path: &Vec<String>) -> (r: Result<
    Vec<SelectorNode>,
    SitemapError,
>)
    requires
        forall|j: int|
            0 <= j < path.deep_view().len() ==> has_id(records.deep_view(), path.deep_view()[j]),
    ensures
        forest_result_matches(
            r,
            build_from(records.deep_view(), 0, parent_id@, path.deep_view().to_set()),
        ),
    decreases ids_off_path(records.deep_view(), path.deep_view().to_set()),
{
    let ghost recsv = records.deep_view();
    let ghost pset = path.deep_view().to_set();
    let ghost goal = build_from(recsv, 0, parent_id@, pset);
    let mut out: Vec<SelectorNode> = Vec::new();
    let mut i: usize = 0;
    proof {
        assert forall|t: Seq<SelectorNodeView>| Seq::<SelectorNodeView>::empty() + t =~= t by {}
    }
    while i < records.len()
        invariant
            0 <= i <= records.len(),
            recsv == records.deep_view(),
            pset == path.deep_view().to_set(),
            goal == build_from(recsv, 0, parent_id@, pset),
            forall|j: int| 0 <= j < path.deep_view().len() ==> has_id(recsv, path.deep_view()[j]),
            ids_off_path(recsv, pset) == ids_off_path(
                records.deep_view(),
                path.deep_view().to_set(),
            ),
            match build_from(recsv, i as int, parent_id@, pset) {
                Ok(tail) => goal == Ok::<Seq<SelectorNodeView>, SitemapError>(
                    out.deep_view() + tail,
                ),
                Err(e) => goal == Err::<Seq<SelectorNodeView>, SitemapError>(e),
            },
        decreases records.len() - i,
    {
        let r = &records[i];
        let ghost rv = recsv[i as int];
        if contains_str(&r.parent_ids, parent_id) {
            proof {
                assert(rv.parent_ids.contains(parent_id@));
            }
            match SelectorType::from_str(r.type_tag.as_str()) {
                Err(e) => {
                    proof {
                        assert(build_from(recsv, i as int, parent_id@, pset) == Err::<
                            Seq<SelectorNodeView>,
                            SitemapError,
                        >(SitemapError::UnknownSelectorType));
                    }
                    return Err(e);
                },
                Ok(t) => {
                    if contains_str(path, &r.id) {
                        proof {
                            assert(pset.contains(rv.id));
                            assert(build_from(recsv, i as int, parent_id@, pset) == Err::<
                                Seq<SelectorNodeView>,
                                SitemapError,
                            >(SitemapError::CyclicSelectorReference));
                        }
                        return Err(SitemapError::CyclicSelectorReference);
                    }
                    let mut path2 = cloned_strings(path);
                    path2.push(r.id.clone());
                    proof {
                        assert(path2.deep_view() =~= path.deep_view().push(rv.id));
                        path.deep_view().lemma_push_to_set_commute(rv.id);
                        assert(path2.deep_view().to_set() =~= pset.insert(rv.id));
                        assert(!pset.contains(rv.id));
                        assert(has_id(recsv, rv.id));
                        lemma_measure_shrinks(recsv, pset, rv.id);
                        assert forall|j: int|
                            0 <= j < path2.deep_view().len() implies has_id(
                            recsv,
                            path2.deep_view()[j],
                        ) by {
                            if j < path.deep_view().len() {
                                assert(path2.deep_view()[j] == path.deep_view()[j]);
                            } else {
                                assert(path2.deep_view()[j] == rv.id);
                            }
                        }
                    }
                    match build_nodes(records, &r.id, &path2) {
                        Err(e) => {
                            proof {
                                assert(build_from(recsv, 0, rv.id, pset.insert(rv.id)) == Err::<
                                    Seq<SelectorNodeView>,
                                    SitemapError,
                                >(e));
                                assert(build_from(recsv, i as int, parent_id@, pset) == Err::<
                                    Seq<SelectorNodeView>,
                                    SitemapError,
                                >(e));
                            }
                            return Err(e);
                        },
                        Ok(children) => {
                            let ghost childrenv = children.deep_view();
                            let node = SelectorNode {
                                id: r.id.clone(),
                                selector_type: t,
                                selector: r.selector.clone(),
                                multiple: r.multiple,
                                children,
                            };
                            proof {
                                assert(crate::model::nodes_view(node.children@) =~= childrenv);
                                assert(node.deep_view() =~= spec_node(rv, t, childrenv));
                            }
                            let ghost outv = out.deep_view();
                            out.push(node);
                            proof {
                                assert(out.deep_view() =~= outv + seq![spec_node(rv, t, childrenv)]);
                                assert(build_from(recsv, 0, rv.id, pset.insert(rv.id)) == Ok::<
                                    Seq<SelectorNodeView>,
                                    SitemapError,
                                >(childrenv));
                                match build_from(recsv, i + 1, parent_id@, pset) {
                                    Ok(tail) => {
                                        assert(build_from(recsv, i as int, parent_id@, pset) == Ok::<
                                            Seq<SelectorNodeView>,
                                            SitemapError,
                                        >(seq![spec_node(rv, t, childrenv)] + tail));
                                        assert(outv + (seq![spec_node(rv, t, childrenv)] + tail)
                                            =~= (outv + seq![spec_node(rv, t, childrenv)]) + tail);
                                    },
                                    Err(e) => {},
                                }
                            }
                        },
                    }
                },
            }
        } else {
            proof {
                assert(!rv.parent_ids.contains(parent_id@));
                assert(build_from(recsv, i as int, parent_id@, pset) == build_from(
                    recsv,
                    i + 1,
                    parent_id@,
                    pset,
                ));
            }
        }
        i += 1;
    }
    proof {
        assert(build_from(recsv, records.len() as int, parent_id@, pset) == Ok::<
            Seq<SelectorNodeView>,
            SitemapError,
        >(Seq::empty()));
        assert(out.deep_view() + Seq::<SelectorNodeView>::empty() =~= out.deep_view());
    }
    Ok(out)
}

} // verus!
