//! The data model: raw selector records as decoded from a sitemap document,
//! the selector tree built from them, and the error kinds this library
//! reports. Each executable type has a mathematical view used in contracts.

use vstd::prelude::*;

verus! {

/// The errors this library reports: documents that are not valid JSON or
/// miss a required field, selector records whose type tag lies outside the
/// closed set, and parent-reference cycles met while building the tree.
#[derive(Clone, Copy, Debug, PartialEq, Eq, Structural)]
pub enum SitemapError {
    MalformedInput,
    UnknownSelectorType,
    CyclicSelectorReference,
}

/// The closed set of selector kinds a record's type tag may name.
#[derive(Clone, Copy, Debug, PartialEq, Eq, Structural)]
pub enum SelectorType {
    Text,
    Link,
    Image,
    Element,
}

/// Mathematical view of a raw selector record.
#[verifier::ext_equal]
pub struct RawSelectorView {
    pub id: Seq<char>,
    pub type_tag: Seq<char>,
    pub selector: Seq<char>,
    pub multiple: bool,
    pub parent_ids: Seq<Seq<char>>,
    pub delay: int,
}

/// One record of the flat sitemap: a selector that names its parents by id.
/// The `delay` timing hint is decoded but not carried into the tree.
#[derive(Debug)]
pub struct RawSelector {
    pub id: String,
    pub type_tag: String,
    pub selector: String,
    pub multiple: bool,
    pub parent_ids: Vec<String>,
    pub delay: i64,
}

impl DeepView for RawSelector {
    type V = RawSelectorView;

    open spec fn deep_view(&self) -> RawSelectorView {
        RawSelectorView {
            id: self.id@,
            type_tag: self.type_tag@,
            selector: self.selector@,
            multiple: self.multiple,
            parent_ids: self.parent_ids.deep_view(),
            delay: self.delay as int,
        }
    }
}

/// Mathematical view of a decoded sitemap document.
#[verifier::ext_equal]
pub struct SiteMapView {
    pub id: Seq<char>,
    pub start_url: Seq<Seq<char>>,
    pub selectors: Seq<RawSelectorView>,
}

/// A decoded sitemap document: its id, its non-empty start-URL list, and
/// the flat list of selector records in source order.
#[derive(Debug)]
pub struct SiteMap {
    pub id: String,
    pub start_url: Vec<String>,
    pub selectors: Vec<RawSelector>,
}

impl DeepView for SiteMap {
    type V = SiteMapView;

    open spec fn deep_view(&self) -> SiteMapView {
        SiteMapView {
            id: self.id@,
            start_url: self.start_url.deep_view(),
            selectors: self.selectors.deep_view(),
        }
    }
}

/// Mathematical view of a selector node.
#[verifier::ext_equal]
pub struct SelectorNodeView {
    pub id: Seq<char>,
    pub selector_type: SelectorType,
    pub selector: Seq<char>,
    pub multiple: bool,
    pub children: Seq<SelectorNodeView>,
}

/// One node of the selector tree: a typed selector and its children in
/// source order. A record attached under several parents appears once per
/// matching parent; each copy owns its own children.
#[derive(Debug)]
pub struct SelectorNode {
    pub id: String,
    pub selector_type: SelectorType,
    pub selector: String,
    pub multiple: bool,
    pub children: Vec<SelectorNode>,
}

/// The views of a list of selector nodes, in order.
pub open spec fn nodes_view(s: Seq<SelectorNode>) -> Seq<SelectorNodeView>
    decreases s,
{
    Seq::new(
        s.len(),
        |i: int|
            if 0 <= i < s.len() {
                node_view(s[i])
            } else {
                arbitrary()
            },
    )
}

/// The view of a selector node, taken recursively through its children.
pub open spec fn node_view(n: SelectorNode) -> SelectorNodeView
    decreases n,
{
    proof {
        assert(decreases_to!(n => n.children));
        assert(decreases_to!(n.children => n.children@));
    }
    SelectorNodeView {
        id: n.id@,
        selector_type: n.selector_type,
        selector: n.selector@,
        multiple: n.multiple,
        children: nodes_view(n.children@),
    }
}

impl DeepView for SelectorNode {
    type V = SelectorNodeView;

    open spec fn deep_view(&self) -> SelectorNodeView {
        node_view(*self)
    }
}

/// Mathematical view of a selector tree.
#[verifier::ext_equal]
pub struct SelectorTreeView {
    pub id: Seq<char>,
    pub start_url: Seq<char>,
    pub selectors: Seq<SelectorNodeView>,
}

/// The built tree: the document's id, the first of its start URLs, and the
/// root-level selector nodes (the children of the synthetic root marker).
#[derive(Debug)]
pub struct SelectorTree {
    pub _id: String,
    pub start_url: String,
    pub selectors: Vec<SelectorNode>,
}

impl DeepView for SelectorTree {
    type V = SelectorTreeView;

    open spec fn deep_view(&self) -> SelectorTreeView {
        SelectorTreeView {
            id: self._id@,
            start_url: self.start_url@,
            selectors: self.selectors.deep_view(),
        }
    }
}

/// Maps a record's type tag to its selector kind; `None` outside the
/// closed set.
pub open spec fn tag_type(tag: Seq<char>) -> Option<SelectorType> {
    if tag == "SelectorText"@ {
        Some(SelectorType::Text)
    } else if tag == "SelectorLink"@ {
        Some(SelectorType::Link)
    } else if tag == "SelectorImage"@ {
        Some(SelectorType::Image)
    } else if tag == "SelectorElement"@ {
        Some(SelectorType::Element)
    } else {
        None
    }
}

impl SelectorType {
    /// Maps a type tag to its selector kind, reporting a tag outside the
    /// closed set as `UnknownSelectorType` instead of terminating.
    pub fn from_str(s: &str) -> (r: Result<SelectorType, SitemapError>)
        ensures
            r == match tag_type(s@) {
                Some(t) => Result::<SelectorType, SitemapError>::Ok(t),
                None => Result::<SelectorType, SitemapError>::Err(SitemapError::UnknownSelectorType),
            },
    {
        let tag = s.to_owned();
        if tag == String::from_str("SelectorText") {
            Ok(SelectorType::Text)
        } else if tag == String::from_str("SelectorLink") {
            Ok(SelectorType::Link)
        } else if tag == String::from_str("SelectorImage") {
            Ok(SelectorType::Image)
        } else if tag == String::from_str("SelectorElement") {
            Ok(SelectorType::Element)
        } else {
            Err(SitemapError::UnknownSelectorType)
        }
    }
}

} // verus!
