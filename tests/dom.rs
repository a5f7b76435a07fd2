use lib_kern::dom::css::SimpleSelector;
use lib_kern::dom::node::{elem, matches_simple_selector, text, ElementData, NodeType};

fn element(tag: &str, attrs: &[(&str, &str)]) -> ElementData {
    ElementData {
        tag_name: tag.to_string(),
        attributes: attrs.iter().map(|(k, v)| (k.to_string(), v.to_string())).collect(),
    }
}

fn selector(tag: Option<&str>, id: Option<&str>, classes: &[&str]) -> SimpleSelector {
    SimpleSelector {
        tag_name: tag.map(|t| t.to_string()),
        id: id.map(|t| t.to_string()),
        class: classes.iter().map(|c| c.to_string()).collect(),
    }
}

#[test]
fn text_and_elem_nodes() {
    let t = text("hi".to_string());
    assert!(t.children.is_empty());
    assert!(matches!(&t.node_type, NodeType::Text(s) if s == "hi"));
    let e = elem("p".to_string(), vec![("id".to_string(), "x".to_string())], vec![t]);
    assert_eq!(e.children.len(), 1);
    match &e.node_type {
        NodeType::Element(d) => {
            assert_eq!(d.tag_name, "p");
            assert_eq!(d.id(), Some(&"x".to_string()));
        }
        NodeType::Text(_) => panic!("expected an element"),
    }
}

#[test]
fn id_takes_first_value() {
    let e = element("div", &[("class", "a"), ("id", "one"), ("id", "two")]);
    assert_eq!(e.id(), Some(&"one".to_string()));
    assert_eq!(element("div", &[]).id(), None);
}

#[test]
fn classes_split_on_spaces() {
    let e = element("div", &[("class", "a b  c")]);
    assert_eq!(e.classes(), vec!["a", "b", "", "c"]);
    assert!(element("div", &[]).classes().is_empty());
}

#[test]
fn simple_selector_matching() {
    let e = element("li", &[("id", "first"), ("class", "x y")]);
    assert!(matches_simple_selector(&e, &selector(Some("li"), Some("first"), &["y", "x"])));
    assert!(matches_simple_selector(&e, &selector(None, None, &[])));
    assert!(!matches_simple_selector(&e, &selector(Some("ul"), None, &[])));
    assert!(!matches_simple_selector(&e, &selector(None, Some("second"), &[])));
    assert!(!matches_simple_selector(&e, &selector(None, None, &["z"])));
    assert!(!matches_simple_selector(&element("li", &[]), &selector(None, Some("first"), &[])));
}
