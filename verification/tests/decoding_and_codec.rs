use selector_tree::json_model::{parse_json_text, JsonValue};
use selector_tree::model::{SelectorNode, SelectorTree, SelectorType, SiteMap, SitemapError};

fn node(id: &str, t: SelectorType, sel: &str, multiple: bool, children: Vec<SelectorNode>) -> SelectorNode {
    SelectorNode {
        id: id.to_owned(),
        selector_type: t,
        selector: sel.to_owned(),
        multiple,
        children,
    }
}

fn nodes_equal(a: &SelectorNode, b: &SelectorNode) -> bool {
    a.id == b.id && a.selector_type == b.selector_type && a.selector == b.selector
        && a.multiple == b.multiple && a.children.len() == b.children.len()
        && a.children.iter().zip(b.children.iter()).all(|(x, y)| nodes_equal(x, y))
}

fn trees_equal(a: &SelectorTree, b: &SelectorTree) -> bool {
    a._id == b._id && a.start_url == b.start_url && a.selectors.len() == b.selectors.len()
        && a.selectors.iter().zip(b.selectors.iter()).all(|(x, y)| nodes_equal(x, y))
}

#[test]
fn scenario_d_missing_selectors_is_malformed() {
    let json = r#"{"_id":"s4","startUrl":["http://x"]}"#;
    let err = SelectorTree::new(json.to_owned()).unwrap_err();
    assert_eq!(err, SitemapError::MalformedInput);
}

#[test]
fn invalid_json_text_is_malformed() {
    let err = SelectorTree::new("{\"_id\":".to_owned()).unwrap_err();
    assert_eq!(err, SitemapError::MalformedInput);
}

#[test]
fn empty_start_url_list_is_malformed() {
    let json = r#"{"_id":"s","startUrl":[],"selectors":[]}"#;
    let err = SelectorTree::new(json.to_owned()).unwrap_err();
    assert_eq!(err, SitemapError::MalformedInput);
}

#[test]
fn non_string_start_url_is_malformed() {
    let json = r#"{"_id":"s","startUrl":[7],"selectors":[]}"#;
    let err = SelectorTree::new(json.to_owned()).unwrap_err();
    assert_eq!(err, SitemapError::MalformedInput);
}

#[test]
fn non_boolean_multiple_is_malformed() {
    let json = r#"{"_id":"s","startUrl":["u"],"selectors":[
        {"id":"a","type":"SelectorText","selector":"h1","multiple":"no",
         "parentSelectors":["_root"],"delay":0}]}"#;
    let err = SelectorTree::new(json.to_owned()).unwrap_err();
    assert_eq!(err, SitemapError::MalformedInput);
}

#[test]
fn fractional_delay_is_malformed() {
    let json = r#"{"_id":"s","startUrl":["u"],"selectors":[
        {"id":"a","type":"SelectorText","selector":"h1","multiple":false,
         "parentSelectors":["_root"],"delay":1.5}]}"#;
    let err = SelectorTree::new(json.to_owned()).unwrap_err();
    assert_eq!(err, SitemapError::MalformedInput);
}

#[test]
fn sitemap_new_decodes_flat_records() {
    let json = r#"{"_id":"doc","startUrl":["http://a","http://b"],"selectors":[
        {"id":"a","type":"SelectorText","selector":"h1","multiple":false,
         "parentSelectors":["_root","x"],"delay":1500}]}"#;
    let doc = SiteMap::new(json.to_owned()).unwrap();
    assert_eq!(doc.id, "doc");
    assert_eq!(doc.start_url, vec!["http://a".to_owned(), "http://b".to_owned()]);
    assert_eq!(doc.selectors.len(), 1);
    let r = &doc.selectors[0];
    assert_eq!(r.id, "a");
    assert_eq!(r.type_tag, "SelectorText");
    assert_eq!(r.selector, "h1");
    assert!(!r.multiple);
    assert_eq!(r.parent_ids, vec!["_root".to_owned(), "x".to_owned()]);
    assert_eq!(r.delay, 1500);
}

#[test]
fn extra_members_are_ignored() {
    let json = r#"{"_id":"doc","startUrl":["u"],"noise":true,"selectors":[
        {"id":"a","type":"SelectorText","selector":"h1","multiple":false,
         "parentSelectors":["_root"],"delay":0,"comment":"kept out"}]}"#;
    let tree = SelectorTree::new(json.to_owned()).unwrap();
    assert_eq!(tree.selectors.len(), 1);
}

#[test]
fn parse_json_text_builds_the_model() {
    let parsed = parse_json_text("{\"a\":[1,true,\"s\",null]}").unwrap();
    match parsed {
        JsonValue::Obj(members) => {
            assert_eq!(members.len(), 1);
            assert_eq!(members[0].0, "a");
            match &members[0].1 {
                JsonValue::Arr(items) => {
                    assert_eq!(items.len(), 4);
                    assert!(matches!(items[0], JsonValue::Int(1)));
                    assert!(matches!(items[1], JsonValue::Bool(true)));
                    match &items[2] {
                        JsonValue::Str(s) => assert_eq!(s, "s"),
                        _ => panic!("expected a string"),
                    }
                    assert!(matches!(items[3], JsonValue::Null));
                },
                _ => panic!("expected an array"),
            }
        },
        _ => panic!("expected an object"),
    }
    assert!(parse_json_text("not json").is_none());
}

#[test]
fn round_trip_through_json_value() {
    let tree = SelectorTree {
        _id: "rt".to_owned(),
        start_url: "http://rt".to_owned(),
        selectors: vec![
            node(
                "a",
                SelectorType::Element,
                ".a",
                false,
                vec![
                    node("b", SelectorType::Link, ".b", true, vec![]),
                    node("c", SelectorType::Image, "img", false, vec![]),
                ],
            ),
            node("d", SelectorType::Text, ".d", true, vec![]),
        ],
    };
    let encoded = tree.to_json_value();
    let back = SelectorTree::from_json_value(&encoded).unwrap();
    assert!(trees_equal(&tree, &back));
}

#[test]
fn from_json_reads_the_tree_form() {
    let json = r#"{"_id":"rt2","start_url":"http://rt2","selectors":[
        {"id":"a","selector_type":"Text","selector":"h1","multiple":false,"children":[
            {"id":"b","selector_type":"Link","selector":"a","multiple":true,"children":[]}]}]}"#;
    let tree = SelectorTree::from_json(json.to_owned()).unwrap();
    assert_eq!(tree._id, "rt2");
    assert_eq!(tree.start_url, "http://rt2");
    assert_eq!(tree.selectors.len(), 1);
    assert_eq!(tree.selectors[0].id, "a");
    assert_eq!(tree.selectors[0].selector_type, SelectorType::Text);
    assert_eq!(tree.selectors[0].children.len(), 1);
    assert_eq!(tree.selectors[0].children[0].id, "b");
    assert_eq!(tree.selectors[0].children[0].selector_type, SelectorType::Link);
}

#[test]
fn from_json_rejects_unknown_kind_name() {
    let json = r#"{"_id":"t","start_url":"u","selectors":[
        {"id":"a","selector_type":"Bogus","selector":"h1","multiple":false,"children":[]}]}"#;
    let err = SelectorTree::from_json(json.to_owned()).unwrap_err();
    assert_eq!(err, SitemapError::UnknownSelectorType);
}

#[test]
fn from_json_rejects_missing_member() {
    let json = r#"{"_id":"t","selectors":[]}"#;
    let err = SelectorTree::from_json(json.to_owned()).unwrap_err();
    assert_eq!(err, SitemapError::MalformedInput);
}

#[test]
fn built_tree_survives_the_round_trip() {
    let json = r#"{"_id":"s2","startUrl":["http://y"],"selectors":[
        {"id":"b","type":"SelectorLink","selector":".b","multiple":true,
         "parentSelectors":["a"],"delay":0},
        {"id":"a","type":"SelectorElement","selector":".a","multiple":false,
         "parentSelectors":["_root"],"delay":0}]}"#;
    let tree = SelectorTree::new(json.to_owned()).unwrap();
    let back = SelectorTree::from_json_value(&tree.to_json_value()).unwrap();
    assert!(trees_equal(&tree, &back));
}
