use selector_tree::builder::build_selector_node;
use selector_tree::model::{RawSelector, SelectorNode, SelectorTree, SelectorType, SitemapError};

fn record(id: &str, tag: &str, sel: &str, multiple: bool, parents: &[&str]) -> RawSelector {
    RawSelector {
        id: id.to_owned(),
        type_tag: tag.to_owned(),
        selector: sel.to_owned(),
        multiple,
        parent_ids: parents.iter().map(|p| (*p).to_owned()).collect(),
        delay: 0,
    }
}

#[test]
fn scenario_a_single_text_selector() {
    let json = r#"{"_id":"s1","startUrl":["http://x"],"selectors":[
        {"id":"a","type":"SelectorText","selector":"h1","multiple":false,
         "parentSelectors":["_root"],"delay":0}]}"#;
    let tree = SelectorTree::new(json.to_owned()).unwrap();
    assert_eq!(tree._id, "s1");
    assert_eq!(tree.start_url, "http://x");
    assert_eq!(tree.selectors.len(), 1);
    let node = &tree.selectors[0];
    assert_eq!(node.id, "a");
    assert_eq!(node.selector_type, SelectorType::Text);
    assert_eq!(node.selector, "h1");
    assert!(!node.multiple);
    assert!(node.children.is_empty());
}

#[test]
fn scenario_b_child_under_parent() {
    let json = r#"{"_id":"s2","startUrl":["http://y"],"selectors":[
        {"id":"b","type":"SelectorLink","selector":".b","multiple":true,
         "parentSelectors":["a"],"delay":0},
        {"id":"a","type":"SelectorElement","selector":".a","multiple":false,
         "parentSelectors":["_root"],"delay":0}]}"#;
    let tree = SelectorTree::new(json.to_owned()).unwrap();
    assert_eq!(tree.selectors.len(), 1);
    let a = &tree.selectors[0];
    assert_eq!(a.id, "a");
    assert_eq!(a.selector_type, SelectorType::Element);
    assert_eq!(a.children.len(), 1);
    let b = &a.children[0];
    assert_eq!(b.id, "b");
    assert_eq!(b.selector_type, SelectorType::Link);
    assert!(b.multiple);
    assert!(b.children.is_empty());
}

#[test]
fn scenario_c_dangling_parent_is_dropped() {
    let json = r#"{"_id":"s3","startUrl":["http://z"],"selectors":[
        {"id":"c","type":"SelectorText","selector":".c","multiple":false,
         "parentSelectors":["does_not_exist"],"delay":0}]}"#;
    let tree = SelectorTree::new(json.to_owned()).unwrap();
    assert!(tree.selectors.is_empty());
}

#[test]
fn scenario_e_unknown_selector_type() {
    let json = r#"{"_id":"s5","startUrl":["http://x"],"selectors":[
        {"id":"x","type":"SelectorBogus","selector":".x","multiple":false,
         "parentSelectors":["_root"],"delay":0}]}"#;
    let err = SelectorTree::new(json.to_owned()).unwrap_err();
    assert_eq!(err, SitemapError::UnknownSelectorType);
}

#[test]
fn reachable_cycle_is_reported() {
    let json = r#"{"_id":"s6","startUrl":["http://x"],"selectors":[
        {"id":"a","type":"SelectorText","selector":".a","multiple":false,
         "parentSelectors":["_root","b"],"delay":0},
        {"id":"b","type":"SelectorText","selector":".b","multiple":false,
         "parentSelectors":["a"],"delay":0}]}"#;
    let err = SelectorTree::new(json.to_owned()).unwrap_err();
    assert_eq!(err, SitemapError::CyclicSelectorReference);
}

#[test]
fn self_cycle_is_reported() {
    let json = r#"{"_id":"s6b","startUrl":["http://x"],"selectors":[
        {"id":"a","type":"SelectorText","selector":".a","multiple":false,
         "parentSelectors":["_root","a"],"delay":0}]}"#;
    let err = SelectorTree::new(json.to_owned()).unwrap_err();
    assert_eq!(err, SitemapError::CyclicSelectorReference);
}

#[test]
fn unreachable_cycle_terminates_with_empty_tree() {
    let json = r#"{"_id":"s7","startUrl":["http://x"],"selectors":[
        {"id":"c1","type":"SelectorText","selector":".1","multiple":false,
         "parentSelectors":["c2"],"delay":0},
        {"id":"c2","type":"SelectorText","selector":".2","multiple":false,
         "parentSelectors":["c1"],"delay":0}]}"#;
    let tree = SelectorTree::new(json.to_owned()).unwrap();
    assert!(tree.selectors.is_empty());
}

#[test]
fn empty_parent_list_is_dropped() {
    let json = r#"{"_id":"s8","startUrl":["http://x"],"selectors":[
        {"id":"lone","type":"SelectorText","selector":".l","multiple":false,
         "parentSelectors":[],"delay":0}]}"#;
    let tree = SelectorTree::new(json.to_owned()).unwrap();
    assert!(tree.selectors.is_empty());
}

#[test]
fn multi_parent_record_is_duplicated() {
    let json = r#"{"_id":"s9","startUrl":["http://x"],"selectors":[
        {"id":"a","type":"SelectorElement","selector":".a","multiple":false,
         "parentSelectors":["_root"],"delay":0},
        {"id":"d","type":"SelectorText","selector":".d","multiple":true,
         "parentSelectors":["_root","a"],"delay":0}]}"#;
    let tree = SelectorTree::new(json.to_owned()).unwrap();
    assert_eq!(tree.selectors.len(), 2);
    assert_eq!(tree.selectors[0].id, "a");
    assert_eq!(tree.selectors[1].id, "d");
    let under_a = &tree.selectors[0].children;
    assert_eq!(under_a.len(), 1);
    let copy1 = &under_a[0];
    let copy2 = &tree.selectors[1];
    assert_eq!(copy1.id, copy2.id);
    assert_eq!(copy1.selector_type, copy2.selector_type);
    assert_eq!(copy1.selector, copy2.selector);
    assert_eq!(copy1.multiple, copy2.multiple);
    assert!(copy1.children.is_empty());
    assert!(copy2.children.is_empty());
}

#[test]
fn siblings_keep_source_order() {
    let json = r#"{"_id":"s10","startUrl":["http://x"],"selectors":[
        {"id":"n3","type":"SelectorText","selector":".3","multiple":false,
         "parentSelectors":["_root"],"delay":0},
        {"id":"n1","type":"SelectorText","selector":".1","multiple":false,
         "parentSelectors":["_root"],"delay":0},
        {"id":"n2","type":"SelectorText","selector":".2","multiple":false,
         "parentSelectors":["_root"],"delay":0}]}"#;
    let tree = SelectorTree::new(json.to_owned()).unwrap();
    let ids: Vec<&str> = tree.selectors.iter().map(|n| n.id.as_str()).collect();
    assert_eq!(ids, vec!["n3", "n1", "n2"]);
}

#[test]
fn grandchildren_are_built_recursively() {
    let json = r#"{"_id":"s11","startUrl":["http://x"],"selectors":[
        {"id":"top","type":"SelectorElement","selector":".t","multiple":true,
         "parentSelectors":["_root"],"delay":0},
        {"id":"mid","type":"SelectorElement","selector":".m","multiple":false,
         "parentSelectors":["top"],"delay":0},
        {"id":"leaf","type":"SelectorText","selector":".l","multiple":false,
         "parentSelectors":["mid"],"delay":0}]}"#;
    let tree = SelectorTree::new(json.to_owned()).unwrap();
    assert_eq!(tree.selectors.len(), 1);
    let top = &tree.selectors[0];
    assert_eq!(top.children.len(), 1);
    let mid = &top.children[0];
    assert_eq!(mid.id, "mid");
    assert_eq!(mid.children.len(), 1);
    let leaf = &mid.children[0];
    assert_eq!(leaf.id, "leaf");
    assert!(leaf.children.is_empty());
}

#[test]
fn first_start_url_is_taken() {
    let json = r#"{"_id":"s12","startUrl":["http://first","http://second"],"selectors":[]}"#;
    let tree = SelectorTree::new(json.to_owned()).unwrap();
    assert_eq!(tree.start_url, "http://first");
    assert!(tree.selectors.is_empty());
}

#[test]
fn build_selector_node_groups_under_given_parent() {
    let records = vec![
        record("x", "SelectorImage", "img", true, &["p"]),
        record("y", "SelectorText", ".y", false, &["q"]),
    ];
    let nodes = build_selector_node(&records, &"p".to_owned()).unwrap();
    assert_eq!(nodes.len(), 1);
    assert_eq!(nodes[0].id, "x");
    assert_eq!(nodes[0].selector_type, SelectorType::Image);
    assert!(nodes[0].multiple);
}

#[test]
fn from_raw_copies_fields() {
    let raw = record("r", "SelectorLink", ".r a", true, &["_root"]);
    let node = SelectorNode::from_raw(&raw).unwrap();
    assert_eq!(node.id, "r");
    assert_eq!(node.selector_type, SelectorType::Link);
    assert_eq!(node.selector, ".r a");
    assert!(node.multiple);
    assert!(node.children.is_empty());
}

#[test]
fn from_raw_rejects_unknown_tag() {
    let raw = record("r", "SelectorTable", ".r", false, &["_root"]);
    let err = SelectorNode::from_raw(&raw).unwrap_err();
    assert_eq!(err, SitemapError::UnknownSelectorType);
}

#[test]
fn selector_type_from_str_covers_closed_set() {
    assert_eq!(SelectorType::from_str("SelectorText").unwrap(), SelectorType::Text);
    assert_eq!(SelectorType::from_str("SelectorLink").unwrap(), SelectorType::Link);
    assert_eq!(SelectorType::from_str("SelectorImage").unwrap(), SelectorType::Image);
    assert_eq!(SelectorType::from_str("SelectorElement").unwrap(), SelectorType::Element);
    assert_eq!(
        SelectorType::from_str("SelectorGroup").unwrap_err(),
        SitemapError::UnknownSelectorType
    );
}
