//! The tree's own structured JSON form: a lossless encode/decode pair for
//! persistence and transport, with a proved round trip.
//!
//! A tree is the object `{"_id", "start_url", "selectors"}`; a node is the
//! object `{"id", "selector_type", "selector", "multiple", "children"}`,
//! its kind written as the variant name. Decoding the encoding of any tree
//! yields that tree again.

use vstd::prelude::*;

use crate::builder::{forest_result_matches, tree_result_matches};
use crate::json_model::{
    json_list_view, json_obj_view, lookup, lookup_member, parse_json_text, parsed_json, JsonValue,
    JsonView,
};
use crate::model::{
    nodes_view, SelectorNode, SelectorNodeView, SelectorTree, SelectorTreeView, SelectorType,
    SitemapError,
};

verus! {

/// The name a selector kind is written as in the tree's JSON form.
pub open spec fn tag_of_type(t: SelectorType) -> Seq<char> {
    match t {
        SelectorType::Text => "Text"@,
        SelectorType::Link => "Link"@,
        SelectorType::Image => "Image"@,
        SelectorType::Element => "Element"@,
    }
}

/// The selector kind a written name means; `None` outside the closed set.
pub open spec fn type_of_name(s: Seq<char>) -> Option<SelectorType> {
    if s == "Text"@ {
        Some(SelectorType::Text)
    } else if s == "Link"@ {
        Some(SelectorType::Link)
    } else if s == "Image"@ {
        Some(SelectorType::Image)
    } else if s == "Element"@ {
        Some(SelectorType::Element)
    } else {
        None
    }
}

/// Reading a written kind name back yields the kind it was written from.
pub proof fn lemma_type_name_round_trip(t: SelectorType)
    ensures
        type_of_name(tag_of_type(t)) == Some(t),
{
    reveal_strlit("Text");
    reveal_strlit("Link");
    reveal_strlit("Image");
    reveal_strlit("Element");
    assert("Text"@.len() == 4);
    assert("Link"@.len() == 4);
    assert("Image"@.len() == 5);
    assert("Element"@.len() == 7);
    assert("Text"@[0] == 'T');
    assert("Link"@[0] == 'L');
}

/// The JSON forms of a list of nodes, in order.
pub open spec fn spec_encode_nodes(ns: Seq<SelectorNodeView>) -> Seq<JsonView>
    decreases ns,
{
    Seq::new(
        ns.len(),
        |i: int|
            if 0 <= i < ns.len() {
                spec_encode_node(ns[i])
            } else {
                arbitrary()
            },
    )
}

/// The JSON form of one node.
pub open spec fn spec_encode_node(n: SelectorNodeView) -> JsonView
    decreases n,
{
    JsonView::Obj(
        seq![
            ("id"@, JsonView::Str(n.id)),
            ("selector_type"@, JsonView::Str(tag_of_type(n.selector_type))),
            ("selector"@, JsonView::Str(n.selector)),
            ("multiple"@, JsonView::Bool(n.multiple)),
            ("children"@, JsonView::Arr(spec_encode_nodes(n.children))),
        ],
    )
}

/// The JSON form of a tree.
pub open spec fn spec_encode_tree(t: SelectorTreeView) -> JsonView {
    JsonView::Obj(
        seq![
            ("_id"@, JsonView::Str(t.id)),
            ("start_url"@, JsonView::Str(t.start_url)),
            ("selectors"@, JsonView::Arr(spec_encode_nodes(t.selectors))),
        ],
    )
}

/// A value an object member lookup yields is one of the object's members.
pub proof fn lemma_lookup_is_member(obj: Seq<(Seq<char>, JsonView)>, key: Seq<char>)
    ensures
        match lookup(obj, key) {
            Some(v) => exists|i: int| 0 <= i < obj.len() && obj[i].1 == v,
            None => true,
        },
    decreases obj.len(),
{
    if obj.len() > 0 && !(obj[0].0 == key) {
        lemma_lookup_is_member(obj.drop_first(), key);
        match lookup(obj.drop_first(), key) {
            Some(v) => {
                let i = choose|i: int|
                    0 <= i < obj.drop_first().len() && obj.drop_first()[i].1 == v;
                assert(obj[i + 1].1 == v);
            },
            None => {},
        }
    }
}

/// The node a JSON value decodes to: `MalformedInput` where a member is
/// missing or of the wrong kind, `UnknownSelectorType` where the written
/// kind name lies outside the closed set.
pub open spec fn spec_node_from_json(j: JsonView) -> Result<SelectorNodeView, SitemapError>
    decreases j, 0int,
{
    match j {
        JsonView::Obj(obj) => match (
            lookup(obj, "id"@),
            lookup(obj, "selector_type"@),
            lookup(obj, "selector"@),
            lookup(obj, "multiple"@),
            lookup(obj, "children"@),
        ) {
            (
                Some(JsonView::Str(id)),
                Some(JsonView::Str(tn)),
                Some(JsonView::Str(sel)),
                Some(JsonView::Bool(m)),
                Some(JsonView::Arr(cs)),
            ) => match type_of_name(tn) {
                None => Err(SitemapError::UnknownSelectorType),
                Some(t) => {
                    proof {
                        lemma_lookup_is_member(obj, "children"@);
                        let i = choose|i: int|
                            0 <= i < obj.len() && obj[i].1 == JsonView::Arr(cs);
                        assert(decreases_to!(j => obj));
                        assert(decreases_to!(obj => obj[i]));
                        assert(decreases_to!(obj[i] => obj[i].1));
                        assert(decreases_to!(JsonView::Arr(cs) => cs));
                    }
                    match spec_nodes_from_json(cs, 0) {
                        Ok(children) => Ok(
                            SelectorNodeView {
                                id: id,
                                selector_type: t,
                                selector: sel,
                                multiple: m,
                                children,
                            },
                        ),
                        Err(e) => Err(e),
                    }
                },
            },
            _ => Err(SitemapError::MalformedInput),
        },
        _ => Err(SitemapError::MalformedInput),
    }
}

/// The nodes the JSON values from position `k` on decode to, or the first
/// error met.
pub open spec fn spec_nodes_from_json(arr: Seq<JsonView>, k: int) -> Result<
    Seq<SelectorNodeView>,
    SitemapError,
>
    decreases arr, arr.len() - k,
    when 0 <= k <= arr.len()
{
    if k == arr.len() {
        Ok(Seq::empty())
    } else {
        proof {
            assert(decreases_to!(arr => arr[k]));
        }
        match spec_node_from_json(arr[k]) {
            Ok(n) => match spec_nodes_from_json(arr, k + 1) {
                Ok(t) => Ok(seq![n] + t),
                Err(e) => Err(e),
            },
            Err(e) => Err(e),
        }
    }
}

/// The tree a JSON value decodes to.
pub open spec fn spec_tree_from_json(j: JsonView) -> Result<SelectorTreeView, SitemapError> {
    match j {
        JsonView::Obj(obj) => match (
            lookup(obj, "_id"@),
            lookup(obj, "start_url"@),
            lookup(obj, "selectors"@),
        ) {
            (Some(JsonView::Str(id)), Some(JsonView::Str(url)), Some(JsonView::Arr(sels))) => {
                match spec_nodes_from_json(sels, 0) {
                    Ok(ns) => Ok(SelectorTreeView { id: id, start_url: url, selectors: ns }),
                    Err(e) => Err(e),
                }
            },
            _ => Err(SitemapError::MalformedInput),
        },
        _ => Err(SitemapError::MalformedInput),
    }
}

/// Round trip, node lists: decoding the encoded forms of the nodes from
/// position `k` on yields those nodes again.
pub proof fn lemma_nodes_round_trip_from(ns: Seq<SelectorNodeView>, k: int)
    requires
        0 <= k <= ns.len(),
    ensures
        spec_nodes_from_json(spec_encode_nodes(ns), k) == Ok::<
            Seq<SelectorNodeView>,
            SitemapError,
        >(ns.skip(k)),
    decreases ns, ns.len() - k,
{
    let arr = spec_encode_nodes(ns);
    if k == ns.len() {
        assert(ns.skip(k) =~= Seq::<SelectorNodeView>::empty());
    } else {
        assert(arr[k] == spec_encode_node(ns[k]));
        assert(decreases_to!(ns => ns[k]));
        lemma_node_round_trip(ns[k]);
        lemma_nodes_round_trip_from(ns, k + 1);
        assert(seq![ns[k]] + ns.skip(k + 1) =~= ns.skip(k));
    }
}

/// Round trip, one node: decoding the encoded form of a node yields that
/// node again.
pub proof fn lemma_node_round_trip(n: SelectorNodeView)
    ensures
        spec_node_from_json(spec_encode_node(n)) == Ok::<SelectorNodeView, SitemapError>(n),
    decreases n, 0int,
{
    reveal_strlit("id");
    reveal_strlit("selector_type");
    reveal_strlit("selector");
    reveal_strlit("multiple");
    reveal_strlit("children");
    assert("id"@.len() == 2);
    assert("selector_type"@.len() == 13);
    assert("selector"@.len() == 8);
    assert("multiple"@.len() == 8);
    assert("children"@.len() == 8);
    assert("selector"@[0] == 's');
    assert("multiple"@[0] == 'm');
    assert("children"@[0] == 'c');
    reveal_with_fuel(lookup, 6);
    let obj = spec_encode_node(n)->Obj_0;
    assert(lookup(obj, "id"@) == Some(JsonView::Str(n.id)));
    assert(lookup(obj, "selector_type"@) == Some(
        JsonView::Str(tag_of_type(n.selector_type)),
    ));
    assert(lookup(obj, "selector"@) == Some(JsonView::Str(n.selector)));
    assert(lookup(obj, "multiple"@) == Some(JsonView::Bool(n.multiple)));
    assert(lookup(obj, "children"@) == Some(JsonView::Arr(spec_encode_nodes(n.children))));
    lemma_type_name_round_trip(n.selector_type);
    lemma_nodes_round_trip_from(n.children, 0);
    assert(n.children.skip(0) =~= n.children);
    assert(spec_node_from_json(spec_encode_node(n))->Ok_0 =~= n);
}

/// The written name of a selector kind.
fn kind_name(t: &SelectorType) -> (r: String)
    ensures
        r@ == tag_of_type(*t),
{
    match t {
        SelectorType::Text => "Text".to_owned(),
        SelectorType::Link => "Link".to_owned(),
        SelectorType::Image => "Image".to_owned(),
        SelectorType::Element => "Element".to_owned(),
    }
}

/// The selector kind a written name means.
fn name_to_type(s: &String) -> (r: Option<SelectorType>)
    ensures
        r == type_of_name(s@),
{
    if *s == String::from_str("Text") {
        Some(SelectorType::Text)
    } else if *s == String::from_str("Link") {
        Some(SelectorType::Link)
    } else if *s == String::from_str("Image") {
        Some(SelectorType::Image)
    } else if *s == String::from_str("Element") {
        Some(SelectorType::Element)
    } else {
        None
    }
}

/// Writes a list of nodes in its JSON form, in order.
fn encode_nodes(v: &Vec<SelectorNode>) -> (r: Vec<JsonValue>)
    ensures
        r.deep_view() == spec_encode_nodes(nodes_view(v@)),
    decreases v,
{
    let mut out: Vec<JsonValue> = Vec::new();
    let mut i: usize = 0;
    while i < v.len()
        invariant
            0 <= i <= v.len(),
            out.len() == i,
            forall|k: int|
                0 <= k < i ==> out.deep_view()[k] == spec_encode_node(
                    crate::model::node_view(v@[k]),
                ),
        decreases v.len() - i,
    {
        proof {
            assert(decreases_to!(v => v@));
            assert(decreases_to!(v@ => v@[i as int]));
        }
        let j = encode_node(&v[i]);
        let ghost jv = j.deep_view();
        let ghost outv = out.deep_view();
        out.push(j);
        proof {
            assert(out.deep_view() =~= outv.push(jv));
        }
        i += 1;
    }
    proof {
        assert(out.deep_view() =~= spec_encode_nodes(nodes_view(v@)));
    }
    out
}

/// Writes one node in its JSON form.
fn encode_node(n: &SelectorNode) -> (r: JsonValue)
    ensures
        r.deep_view() == spec_encode_node(n.deep_view()),
    decreases n,
{
    proof {
        assert(decreases_to!(n => n.children));
    }
    let children = encode_nodes(&n.children);
    let ghost childrenv = children.deep_view();
    let ghost cvec = children@;
    proof {
        assert(json_list_view(cvec) =~= childrenv);
    }
    let mut members: Vec<(String, JsonValue)> = Vec::new();
    members.push(("id".to_owned(), JsonValue::Str(n.id.clone())));
    members.push(("selector_type".to_owned(), JsonValue::Str(kind_name(&n.selector_type))));
    members.push(("selector".to_owned(), JsonValue::Str(n.selector.clone())));
    members.push(("multiple".to_owned(), JsonValue::Bool(n.multiple)));
    members.push(("children".to_owned(), JsonValue::Arr(children)));
    let r = JsonValue::Obj(members);
    proof {
        assert(members@.len() == 5);
        assert(json_obj_view(members@) =~= spec_encode_node(n.deep_view())->Obj_0);
        assert(r.deep_view() =~= spec_encode_node(n.deep_view()));
    }
    r
}

/// Reads a list of nodes out of the JSON values of an array.
fn decode_nodes(arr: &Vec<JsonValue>) -> (r: Result<Vec<SelectorNode>, SitemapError>)
    ensures
        forest_result_matches(r, spec_nodes_from_json(json_list_view(arr@), 0)),
    decreases arr,
{
    let ghost av = json_list_view(arr@);
    let ghost goal = spec_nodes_from_json(av, 0);
    let mut out: Vec<SelectorNode> = Vec::new();
    let mut i: usize = 0;
    proof {
        assert forall|t: Seq<SelectorNodeView>| Seq::<SelectorNodeView>::empty() + t =~= t by {}
    }
    while i < arr.len()
        invariant
            0 <= i <= arr.len(),
            av == json_list_view(arr@),
            goal == spec_nodes_from_json(av, 0),
            match spec_nodes_from_json(av, i as int) {
                Ok(tail) => goal == Ok::<Seq<SelectorNodeView>, SitemapError>(
                    out.deep_view() + tail,
                ),
                Err(e) => goal == Err::<Seq<SelectorNodeView>, SitemapError>(e),
            },
        decreases arr.len() - i,
    {
        proof {
            assert(av[i as int] == arr@[i as int].deep_view());
            assert(decreases_to!(arr => arr@));
            assert(decreases_to!(arr@ => arr@[i as int]));
        }
        match decode_node(&arr[i]) {
            Ok(n) => {
                let ghost nv = n.deep_view();
                let ghost outv = out.deep_view();
                out.push(n);
                proof {
                    assert(out.deep_view() =~= outv + seq![nv]);
                    match spec_nodes_from_json(av, i + 1) {
                        Ok(tail) => {
                            assert(outv + (seq![nv] + tail) =~= (outv + seq![nv]) + tail);
                        },
                        Err(e) => {},
                    }
                }
            },
            Err(e) => {
                return Err(e);
            },
        }
        i += 1;
    }
    proof {
        assert(out.deep_view() + Seq::<SelectorNodeView>::empty() =~= out.deep_view());
    }
    Ok(out)
}

/// Reads one node out of its JSON form.
fn decode_node(j: &JsonValue) -> (r: Result<SelectorNode, SitemapError>)
    ensures
        match (r, spec_node_from_json(j.deep_view())) {
            (Ok(n), Ok(x)) => n.deep_view() == x,
            (Err(a), Err(b)) => a == b,
            _ => false,
        },
    decreases j,
{
    let obj = match j {
        JsonValue::Obj(m) => m,
        _ => {
            return Err(SitemapError::MalformedInput);
        },
    };
    proof {
        assert(obj.deep_view() =~= json_obj_view(obj@));
    }
    let id = match lookup_member(obj, &"id".to_owned()) {
        Some(JsonValue::Str(s)) => s.clone(),
        _ => {
            return Err(SitemapError::MalformedInput);
        },
    };
    let tn = match lookup_member(obj, &"selector_type".to_owned()) {
        Some(JsonValue::Str(s)) => s.clone(),
        _ => {
            return Err(SitemapError::MalformedInput);
        },
    };
    let sel = match lookup_member(obj, &"selector".to_owned()) {
        Some(JsonValue::Str(s)) => s.clone(),
        _ => {
            return Err(SitemapError::MalformedInput);
        },
    };
    let multiple = match lookup_member(obj, &"multiple".to_owned()) {
        Some(JsonValue::Bool(b)) => *b,
        _ => {
            return Err(SitemapError::MalformedInput);
        },
    };
    let cs = match lookup_member(obj, &"children".to_owned()) {
        Some(v) => match v {
            JsonValue::Arr(a) => {
                proof {
                    assert(a.deep_view() =~= json_list_view(a@));
                }
                a
            },
            _ => {
                return Err(SitemapError::MalformedInput);
            },
        },
        _ => {
            return Err(SitemapError::MalformedInput);
        },
    };
    let t = match name_to_type(&tn) {
        Some(t) => t,
        None => {
            return Err(SitemapError::UnknownSelectorType);
        },
    };
    proof {
        let i = choose|i: int| 0 <= i < obj@.len() && obj@[i].1 == JsonValue::Arr(*cs);
        assert(decreases_to!(j => obj));
        assert(decreases_to!(obj => obj@));
        assert(decreases_to!(obj@ => obj@[i]));
        assert(decreases_to!(obj@[i] => obj@[i].1));
        assert(decreases_to!(JsonValue::Arr(*cs) => *cs));
    }
    let children = match decode_nodes(cs) {
        Ok(c) => c,
        Err(e) => {
            return Err(e);
        },
    };
    let n = SelectorNode { id, selector_type: t, selector: sel, multiple, children };
    proof {
        assert(spec_node_from_json(j.deep_view()) is Ok);
        assert(crate::model::nodes_view(n.children@) =~= children.deep_view());
        assert(n.deep_view() =~= spec_node_from_json(j.deep_view())->Ok_0);
    }
    Ok(n)
}

impl SelectorTree {
    /// Writes the tree in its own structured JSON form.
    pub fn to_json_value(&self) -> (r: JsonValue)
        ensures
            r.deep_view() == spec_encode_tree(self.deep_view()),
    {
        let selectors = encode_nodes(&self.selectors);
        let ghost selsv = selectors.deep_view();
        let ghost svec = selectors@;
        proof {
            assert(json_list_view(svec) =~= selsv);
            assert(nodes_view(self.selectors@) =~= self.selectors.deep_view());
        }
        let mut members: Vec<(String, JsonValue)> = Vec::new();
        members.push(("_id".to_owned(), JsonValue::Str(self._id.clone())));
        members.push(("start_url".to_owned(), JsonValue::Str(self.start_url.clone())));
        members.push(("selectors".to_owned(), JsonValue::Arr(selectors)));
        let r = JsonValue::Obj(members);
        proof {
            assert(members@.len() == 3);
            assert(json_obj_view(members@) =~= spec_encode_tree(self.deep_view())->Obj_0);
            assert(r.deep_view() =~= spec_encode_tree(self.deep_view()));
        }
        r
    }

    /// Reads a tree back out of its own structured JSON form.
    pub fn from_json_value(j: &JsonValue) -> (r: Result<SelectorTree, SitemapError>)
        ensures
            tree_result_matches(r, spec_tree_from_json(j.deep_view())),
    {
        let obj = match j {
            JsonValue::Obj(m) => m,
            _ => {
                return Err(SitemapError::MalformedInput);
            },
        };
        proof {
            assert(obj.deep_view() =~= json_obj_view(obj@));
        }
        let id = match lookup_member(obj, &"_id".to_owned()) {
            Some(JsonValue::Str(s)) => s.clone(),
            _ => {
                return Err(SitemapError::MalformedInput);
            },
        };
        let url = match lookup_member(obj, &"start_url".to_owned()) {
            Some(JsonValue::Str(s)) => s.clone(),
            _ => {
                return Err(SitemapError::MalformedInput);
            },
        };
        let selectors = match lookup_member(obj, &"selectors".to_owned()) {
            Some(JsonValue::Arr(a)) => {
                proof {
                    assert(a.deep_view() =~= json_list_view(a@));
                }
                match decode_nodes(a) {
                    Ok(ns) => ns,
                    Err(e) => {
                        return Err(e);
                    },
                }
            },
            _ => {
                return Err(SitemapError::MalformedInput);
            },
        };
        let t = SelectorTree { _id: id, start_url: url, selectors };
        proof {
            assert(spec_tree_from_json(j.deep_view()) is Ok);
            assert(t.deep_view() =~= spec_tree_from_json(j.deep_view())->Ok_0);
        }
        Ok(t)
    }

    /// Reads a tree back out of the JSON text of its own structured form:
    /// `MalformedInput` where the text is not a JSON document or a member
    /// is missing or of the wrong kind, `UnknownSelectorType` where a
    /// node's written kind name lies outside the closed set.
    pub fn from_json(json: String) -> (r: Result<SelectorTree, SitemapError>)
        ensures
            match parsed_json(json@) {
                None => r == Err::<SelectorTree, SitemapError>(SitemapError::MalformedInput),
                Some(jv) => tree_result_matches(r, spec_tree_from_json(jv)),
            },
    {
        match parse_json_text(json.as_str()) {
            Some(j) => SelectorTree::from_json_value(&j),
            None => Err(SitemapError::MalformedInput),
        }
    }
}

/// Round trip (the tree's serialization law): for every selector tree,
/// decoding its encoded JSON form yields a tree equal to it.
pub proof fn lemma_tree_round_trip(t: SelectorTreeView)
    ensures
        spec_tree_from_json(spec_encode_tree(t)) == Ok::<SelectorTreeView, SitemapError>(t),
{
    reveal_strlit("_id");
    reveal_strlit("start_url");
    reveal_strlit("selectors");
    assert("_id"@.len() == 3);
    assert("start_url"@.len() == 9);
    assert("selectors"@.len() == 9);
    assert("start_url"@[1] == 't');
    assert("selectors"@[1] == 'e');
    reveal_with_fuel(lookup, 4);
    let obj = spec_encode_tree(t)->Obj_0;
    assert(lookup(obj, "_id"@) == Some(JsonView::Str(t.id)));
    assert(lookup(obj, "start_url"@) == Some(JsonView::Str(t.start_url)));
    assert(lookup(obj, "selectors"@) == Some(JsonView::Arr(spec_encode_nodes(t.selectors))));
    lemma_nodes_round_trip_from(t.selectors, 0);
    assert(t.selectors.skip(0) =~= t.selectors);
    assert(spec_tree_from_json(spec_encode_tree(t))->Ok_0 =~= t);
}

} // verus!
