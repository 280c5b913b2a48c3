//! The schema decoder: reads the library's JSON model of a sitemap document
//! into the flat record list, and the full pipeline from raw text to a
//! built selector tree.
//!
//! A document must be an object with a string `_id`, a non-empty array of
//! strings `startUrl`, and an array `selectors` of records, each an object
//! with string `id`, `type` and `selector`, boolean `multiple`, an array
//! of strings `parentSelectors`, and an integer `delay`. Anything else is
//! `MalformedInput`; members beyond these are ignored.

use vstd::prelude::*;

use crate::builder::{spec_tree_of_doc, tree_result_matches};
use crate::json_model::{lookup, lookup_member, parse_json_text, parsed_json, JsonValue, JsonView};
use crate::model::{
    RawSelector, RawSelectorView, SelectorTree, SelectorTreeView, SiteMap, SiteMapView,
    SitemapError,
};

verus! {

/// The strings of a JSON array, or `MalformedInput` where an element is
/// not a string.
pub open spec fn spec_decode_strings(arr: Seq<JsonView>) -> Result<Seq<Seq<char>>, SitemapError>
    decreases arr.len(),
{
    if arr.len() == 0 {
        Ok(Seq::empty())
    } else {
        match arr[0] {
            JsonView::Str(s) => match spec_decode_strings(arr.drop_first()) {
                Ok(t) => Ok(seq![s] + t),
                Err(e) => Err(e),
            },
            _ => Err(SitemapError::MalformedInput),
        }
    }
}

/// The record a JSON value decodes to, or `MalformedInput` where a
/// required member is missing or of the wrong kind.
pub open spec fn spec_decode_selector(j: JsonView) -> Result<RawSelectorView, SitemapError> {
    match j {
        JsonView::Obj(obj) => match (
            lookup(obj, "id"@),
            lookup(obj, "type"@),
            lookup(obj, "selector"@),
            lookup(obj, "multiple"@),
            lookup(obj, "parentSelectors"@),
            lookup(obj, "delay"@),
        ) {
            (
                Some(JsonView::Str(id)),
                Some(JsonView::Str(tag)),
                Some(JsonView::Str(sel)),
                Some(JsonView::Bool(m)),
                Some(JsonView::Arr(ps)),
                Some(JsonView::Int(d)),
            ) => match spec_decode_strings(ps) {
                Ok(parents) => Ok(
                    RawSelectorView {
                        id: id,
                        type_tag: tag,
                        selector: sel,
                        multiple: m,
                        parent_ids: parents,
                        delay: d,
                    },
                ),
                Err(e) => Err(e),
            },
            _ => Err(SitemapError::MalformedInput),
        },
        _ => Err(SitemapError::MalformedInput),
    }
}

/// The records of a JSON array, in order, or the first error met.
pub open spec fn spec_decode_selectors(arr: Seq<JsonView>) -> Result<
    Seq<RawSelectorView>,
    SitemapError,
>
    decreases arr.len(),
{
    if arr.len() == 0 {
        Ok(Seq::empty())
    } else {
        match spec_decode_selector(arr[0]) {
            Ok(r) => match spec_decode_selectors(arr.drop_first()) {
                Ok(t) => Ok(seq![r] + t),
                Err(e) => Err(e),
            },
            Err(e) => Err(e),
        }
    }
}

/// The document a JSON value decodes to: its id, its non-empty start-URL
/// list, and its records; `MalformedInput` where the shape is wrong.
pub open spec fn spec_decode(j: JsonView) -> Result<SiteMapView, SitemapError> {
    match j {
        JsonView::Obj(obj) => match (
            lookup(obj, "_id"@),
            lookup(obj, "startUrl"@),
            lookup(obj, "selectors"@),
        ) {
            (Some(JsonView::Str(id)), Some(JsonView::Arr(urls)), Some(JsonView::Arr(sels))) => {
                match (spec_decode_strings(urls), spec_decode_selectors(sels)) {
                    (Ok(us), Ok(rs)) => if us.len() == 0 {
                        Err(SitemapError::MalformedInput)
                    } else {
                        Ok(SiteMapView { id: id, start_url: us, selectors: rs })
                    },
                    (Err(e), _) => Err(e),
                    (_, Err(e)) => Err(e),
                }
            },
            _ => Err(SitemapError::MalformedInput),
        },
        _ => Err(SitemapError::MalformedInput),
    }
}

/// The only error the string-list decoder reports is `MalformedInput`.
pub proof fn lemma_decode_strings_err(arr: Seq<JsonView>)
    ensures
        spec_decode_strings(arr) is Err ==> spec_decode_strings(arr) == Err::<
            Seq<Seq<char>>,
            SitemapError,
        >(SitemapError::MalformedInput),
    decreases arr.len(),
{
    if arr.len() > 0 {
        lemma_decode_strings_err(arr.drop_first());
    }
}

/// Whether an executable string-list result equals a mathematical one.
pub open spec fn strings_result_matches(
    r: Result<Vec<String>, SitemapError>,
    s: Result<Seq<Seq<char>>, SitemapError>,
) -> bool {
    match (r, s) {
        (Ok(v), Ok(x)) => v.deep_view() == x,
        (Err(a), Err(b)) => a == b,
        _ => false,
    }
}

/// Whether an executable record-list result equals a mathematical one.
pub open spec fn selectors_result_matches(
    r: Result<Vec<RawSelector>, SitemapError>,
    s: Result<Seq<RawSelectorView>, SitemapError>,
) -> bool {
    match (r, s) {
        (Ok(v), Ok(x)) => v.deep_view() == x,
        (Err(a), Err(b)) => a == b,
        _ => false,
    }
}

/// Whether an executable document result equals a mathematical one.
pub open spec fn sitemap_result_matches(
    r: Result<SiteMap, SitemapError>,
    s: Result<SiteMapView, SitemapError>,
) -> bool {
    match (r, s) {
        (Ok(v), Ok(x)) => v.deep_view() == x,
        (Err(a), Err(b)) => a == b,
        _ => false,
    }
}

/// Reads a JSON array as a list of strings.
fn decode_strings(arr: &Vec<JsonValue>) -> (r: Result<Vec<String>, SitemapError>)
    ensures
        strings_result_matches(r, spec_decode_strings(arr.deep_view())),
{
    let ghost arrv = arr.deep_view();
    let mut out: Vec<String> = Vec::new();
    let mut i: usize = 0;
    proof {
        assert(arrv.skip(0) =~= arrv);
        assert forall|t: Seq<Seq<char>>| Seq::<Seq<char>>::empty() + t =~= t by {}
    }
    while i < arr.len()
        invariant
            0 <= i <= arr.len(),
            arrv == arr.deep_view(),
            match spec_decode_strings(arrv.skip(i as int)) {
                Ok(tail) => spec_decode_strings(arrv) == Ok::<Seq<Seq<char>>, SitemapError>(
                    out.deep_view() + tail,
                ),
                Err(e) => spec_decode_strings(arrv) == Err::<Seq<Seq<char>>, SitemapError>(e),
            },
        decreases arr.len() - i,
    {
        proof {
            assert(arrv.skip(i as int)[0] == arrv[i as int]);
            assert(arrv.skip(i as int).drop_first() =~= arrv.skip(i as int + 1));
        }
        match &arr[i] {
            JsonValue::Str(s) => {
                let ghost outv = out.deep_view();
                out.push(s.clone());
                proof {
                    assert(out.deep_view() =~= outv + seq![s@]);
                    match spec_decode_strings(arrv.skip(i as int + 1)) {
                        Ok(tail) => {
                            assert(outv + (seq![s@] + tail) =~= (outv + seq![s@]) + tail);
                        },
                        Err(e) => {},
                    }
                }
            },
            _ => {
                return Err(SitemapError::MalformedInput);
            },
        }
        i += 1;
    }
    proof {
        assert(arrv.skip(arr.len() as int) =~= Seq::<JsonView>::empty());
        assert(out.deep_view() + Seq::<Seq<char>>::empty() =~= out.deep_view());
    }
    Ok(out)
}

/// Reads one selector record out of its JSON form.
fn decode_selector(j: &JsonValue) -> (r: Result<RawSelector, SitemapError>)
    ensures
        match (r, spec_decode_selector(j.deep_view())) {
            (Ok(v), Ok(x)) => v.deep_view() == x,
            (Err(a), Err(b)) => a == b,
            _ => false,
        },
{
    let obj = match j {
        JsonValue::Obj(m) => m,
        _ => {
            return Err(SitemapError::MalformedInput);
        },
    };
    proof {
        assert(obj.deep_view() =~= crate::json_model::json_obj_view(obj@));
    }
    let id = match lookup_member(obj, &"id".to_owned()) {
        Some(JsonValue::Str(s)) => s.clone(),
        _ => {
            return Err(SitemapError::MalformedInput);
        },
    };
    let tag = match lookup_member(obj, &"type".to_owned()) {
        Some(JsonValue::Str(s)) => s.clone(),
        _ => {
            return Err(SitemapError::MalformedInput);
        },
    };
    let sel = match lookup_member(obj, &"selector".to_owned()) {
        Some(JsonValue::Str(s)) => s.clone(),
        _ => {
            return Err(SitemapError::MalformedInput);
        },
    };
    let multiple = match lookup_member(obj, &"multiple".to_owned()) {
        Some(JsonValue::Bool(b)) => *b,
        _ => {
            return Err(SitemapError::MalformedInput);
        },
    };
    let parents = match lookup_member(obj, &"parentSelectors".to_owned()) {
        Some(JsonValue::Arr(a)) => match decode_strings(a) {
            Ok(ps) => {
                proof {
                    assert(a.deep_view() =~= crate::json_model::json_list_view(a@));
                }
                ps
            },
            Err(e) => {
                proof {
                    assert(a.deep_view() =~= crate::json_model::json_list_view(a@));
                    lemma_decode_strings_err(a.deep_view());
                }
                return Err(e);
            },
        },
        _ => {
            return Err(SitemapError::MalformedInput);
        },
    };
    let delay = match lookup_member(obj, &"delay".to_owned()) {
        Some(JsonValue::Int(d)) => *d,
        _ => {
            return Err(SitemapError::MalformedInput);
        },
    };
    let r = RawSelector {
        id,
        type_tag: tag,
        selector: sel,
        multiple,
        parent_ids: parents,
        delay,
    };
    proof {
        assert(spec_decode_selector(j.deep_view()) is Ok);
        assert(r.deep_view() =~= spec_decode_selector(j.deep_view())->Ok_0);
    }
    Ok(r)
}

/// Reads a JSON array as a list of selector records.
fn decode_selectors(arr: &Vec<JsonValue>) -> (r: Result<Vec<RawSelector>, SitemapError>)
    ensures
        selectors_result_matches(r, spec_decode_selectors(arr.deep_view())),
{
    let ghost arrv = arr.deep_view();
    let mut out: Vec<RawSelector> = Vec::new();
    let mut i: usize = 0;
    proof {
        assert(arrv.skip(0) =~= arrv);
        assert forall|t: Seq<RawSelectorView>| Seq::<RawSelectorView>::empty() + t =~= t by {}
    }
    while i < arr.len()
        invariant
            0 <= i <= arr.len(),
            arrv == arr.deep_view(),
            match spec_decode_selectors(arrv.skip(i as int)) {
                Ok(tail) => spec_decode_selectors(arrv) == Ok::<Seq<RawSelectorView>, SitemapError>(
                    out.deep_view() + tail,
                ),
                Err(e) => spec_decode_selectors(arrv) == Err::<Seq<RawSelectorView>, SitemapError>(
                    e,
                ),
            },
        decreases arr.len() - i,
    {
        proof {
            assert(arrv.skip(i as int)[0] == arrv[i as int]);
            assert(arrv.skip(i as int).drop_first() =~= arrv.skip(i as int + 1));
        }
        match decode_selector(&arr[i]) {
            Ok(rec) => {
                let ghost recv = rec.deep_view();
                let ghost outv = out.deep_view();
                out.push(rec);
                proof {
                    assert(out.deep_view() =~= outv + seq![recv]);
                    match spec_decode_selectors(arrv.skip(i as int + 1)) {
                        Ok(tail) => {
                            assert(outv + (seq![recv] + tail) =~= (outv + seq![recv]) + tail);
                        },
                        Err(e) => {},
                    }
                }
            },
            Err(e) => {
                return Err(e);
            },
        }
        i += 1;
    }
    proof {
        assert(arrv.skip(arr.len() as int) =~= Seq::<JsonView>::empty());
        assert(out.deep_view() + Seq::<RawSelectorView>::empty() =~= out.deep_view());
    }
    Ok(out)
}

impl SiteMap {
    /// Decodes a sitemap document out of the library's JSON model of it.
    pub fn decode(j: &JsonValue) -> (r: Result<SiteMap, SitemapError>)
        ensures
            sitemap_result_matches(r, spec_decode(j.deep_view())),
    {
        let obj = match j {
            JsonValue::Obj(m) => m,
            _ => {
                return Err(SitemapError::MalformedInput);
            },
        };
        proof {
            assert(obj.deep_view() =~= crate::json_model::json_obj_view(obj@));
        }
        let id = match lookup_member(obj, &"_id".to_owned()) {
            Some(JsonValue::Str(s)) => s.clone(),
            _ => {
                return Err(SitemapError::MalformedInput);
            },
        };
        let start_url = match lookup_member(obj, &"startUrl".to_owned()) {
            Some(JsonValue::Arr(a)) => match decode_strings(a) {
                Ok(us) => {
                    proof {
                        assert(a.deep_view() =~= crate::json_model::json_list_view(a@));
                    }
                    us
                },
                Err(e) => {
                    proof {
                        assert(a.deep_view() =~= crate::json_model::json_list_view(a@));
                        lemma_decode_strings_err(a.deep_view());
                    }
                    return Err(e);
                },
            },
            _ => {
                return Err(SitemapError::MalformedInput);
            },
        };
        let selectors = match lookup_member(obj, &"selectors".to_owned()) {
            Some(JsonValue::Arr(a)) => match decode_selectors(a) {
                Ok(rs) => {
                    proof {
                        assert(a.deep_view() =~= crate::json_model::json_list_view(a@));
                    }
                    rs
                },
                Err(e) => {
                    proof {
                        assert(a.deep_view() =~= crate::json_model::json_list_view(a@));
                    }
                    return Err(e);
                },
            },
            _ => {
                return Err(SitemapError::MalformedInput);
            },
        };
        if start_url.len() == 0 {
            return Err(SitemapError::MalformedInput);
        }
        let doc = SiteMap { id, start_url, selectors };
        proof {
            assert(spec_decode(j.deep_view()) is Ok);
            assert(doc.deep_view() =~= spec_decode(j.deep_view())->Ok_0);
        }
        Ok(doc)
    }

    /// Decodes a sitemap document out of its raw JSON text:
    /// `MalformedInput` where the text is not a JSON document or its shape
    /// is wrong.
    pub fn new(json: String) -> (r: Result<SiteMap, SitemapError>)
        ensures
            match parsed_json(json@) {
                None => r == Err::<SiteMap, SitemapError>(SitemapError::MalformedInput),
                Some(jv) => sitemap_result_matches(r, spec_decode(jv)),
            },
    {
        match parse_json_text(json.as_str()) {
            Some(j) => SiteMap::decode(&j),
            None => Err(SitemapError::MalformedInput),
        }
    }
}

/// The tree a JSON document yields: decode, then build.
pub open spec fn spec_tree_of_json(j: JsonView) -> Result<SelectorTreeView, SitemapError> {
    match spec_decode(j) {
        Ok(doc) => spec_tree_of_doc(doc),
        Err(e) => Err(e),
    }
}

impl SelectorTree {
    /// Builds the selector tree of a sitemap document given as raw JSON
    /// text: parses the text, decodes the document, and groups its records
    /// under the synthetic root marker. `MalformedInput` where the text or
    /// the document shape is wrong, `UnknownSelectorType` where a record's
    /// type tag lies outside the closed set, and `CyclicSelectorReference`
    /// where the parent references of the visited records form a cycle.
    pub fn new(sitemap_json: String) -> (r: Result<SelectorTree, SitemapError>)
        ensures
            match parsed_json(sitemap_json@) {
                None => r == Err::<SelectorTree, SitemapError>(SitemapError::MalformedInput),
                Some(jv) => tree_result_matches(r, spec_tree_of_json(jv)),
            },
    {
        match parse_json_text(sitemap_json.as_str()) {
            Some(j) => SelectorTree::of_document(&j),
            None => Err(SitemapError::MalformedInput),
        }
    }

    /// Builds the selector tree of a sitemap document already parsed into
    /// the library's JSON model.
    pub fn of_document(j: &JsonValue) -> (r: Result<SelectorTree, SitemapError>)
        ensures
            tree_result_matches(r, spec_tree_of_json(j.deep_view())),
    {
        match SiteMap::decode(j) {
            Ok(doc) => SelectorTree::from_sitemap(doc),
            Err(e) => Err(e),
        }
    }
}

} // verus!
