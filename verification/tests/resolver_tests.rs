use neuralbridge_mcp::protocol::pb::{Bounds, Selector, UiElement};
use neuralbridge_mcp::semantic::resolver::{ElementResolver, ResolveError};

fn element(id: &str, text: &str, rid: &str) -> UiElement {
    UiElement {
        element_id: id.to_string(),
        resource_id: rid.to_string(),
        class_name: "android.widget.Button".to_string(),
        text: text.to_string(),
        content_description: String::new(),
        semantic_type: String::new(),
        bounds: Some(Bounds { left: 0, top: 0, right: 100, bottom: 100 }),
        visible: true,
        enabled: true,
        clickable: true,
        focusable: true,
        checkable: false,
        scrollable: false,
        depth: 1,
    }
}

#[test]
fn test_levenshtein_distance() {
    assert_eq!(ElementResolver::levenshtein_distance("kitten", "sitting"), 3);
    assert_eq!(ElementResolver::levenshtein_distance("hello", "hello"), 0);
    assert_eq!(ElementResolver::levenshtein_distance("", "test"), 4);
}

#[test]
fn test_match_resource_id() {
    let resolver = ElementResolver::new(vec![]);
    assert!(resolver.match_resource_id("com.app:id/login_button", "login_button"));
    assert!(resolver.match_resource_id("com.app:id/login_button", "com.app:id/login_button"));
    assert!(!resolver.match_resource_id("com.app:id/other_button", "login_button"));
}

#[test]
fn test_match_text() {
    let resolver = ElementResolver::new(vec![]);
    assert_eq!(resolver.match_text("Login", "Login", true), Some(95));
    assert_eq!(resolver.match_text("Login", "login", true), None);
    assert_eq!(resolver.match_text("Click to Login", "login", false), Some(85));
    assert_eq!(resolver.match_text("Login", "login", false), Some(95));
}

#[test]
fn fuzzy_text_scores() {
    let resolver = ElementResolver::new(vec![]);
    assert_eq!(resolver.match_text("Logon", "login", false), Some(70));
    assert_eq!(resolver.match_text("Settings", "login", false), None);
    assert_eq!(resolver.match_text("", "login", false), None);
}

#[test]
fn class_and_description_matching() {
    let resolver = ElementResolver::new(vec![]);
    assert!(resolver.match_class_name("android.widget.Button", "Button"));
    assert!(!resolver.match_class_name("android.widget.ImageButton", "Button"));
    assert!(resolver.match_content_desc("Navigate Up", "navigate"));
    assert!(!resolver.match_content_desc("", "x"));
}

#[test]
fn element_id_wins_over_text() {
    let elements = vec![element("a", "Login", "login"), element("b", "Other", "other")];
    let resolver = ElementResolver::new(elements);
    let mut sel = Selector::default();
    sel.element_id = "b".to_string();
    sel.text = "Login".to_string();
    sel.index = -1;
    let r = resolver.resolve(&sel, false).unwrap();
    assert_eq!(r.len(), 1);
    assert_eq!(r[0].element_id, "b");
}

#[test]
fn resolve_orders_by_score() {
    let elements = vec![element("a", "Click to Login", ""), element("b", "Login", "")];
    let resolver = ElementResolver::new(elements);
    let mut sel = Selector::default();
    sel.text = "login".to_string();
    sel.index = -1;
    let r = resolver.resolve(&sel, true).unwrap();
    let ids: Vec<&str> = r.iter().map(|e| e.element_id.as_str()).collect();
    assert_eq!(ids, vec!["b", "a"]);
}

#[test]
fn resolve_errors() {
    let resolver = ElementResolver::new(vec![element("a", "Login", "")]);
    let mut sel = Selector::default();
    sel.text = "nothing here at all".to_string();
    assert_eq!(resolver.resolve(&sel, false).unwrap_err(), ResolveError::NoMatch);
    let mut sel = Selector::default();
    sel.text = "Login".to_string();
    sel.index = 3;
    assert_eq!(
        resolver.resolve(&sel, false).unwrap_err(),
        ResolveError::IndexOutOfRange { index: 3, matches: 1 }
    );
}

#[test]
fn finds_by_id_and_point() {
    let mut inner = element("inner", "x", "");
    inner.bounds = Some(Bounds { left: 10, top: 10, right: 20, bottom: 20 });
    inner.depth = 3;
    let resolver = ElementResolver::new(vec![element("outer", "y", ""), inner]);
    assert_eq!(resolver.find_by_element_id("outer").unwrap().text, "y");
    assert!(resolver.find_by_element_id("none").is_none());
    assert_eq!(resolver.element_at_point(15, 15).unwrap().element_id, "inner");
    assert_eq!(resolver.element_at_point(50, 50).unwrap().element_id, "outer");
    assert!(resolver.element_at_point(500, 500).is_none());
}

fn ids(v: &[UiElement]) -> Vec<&str> {
    v.iter().map(|e| e.element_id.as_str()).collect()
}

#[test]
fn resource_id_ranks_above_exact_text() {
    let mut a = element("a", "", "com.app:id/login");
    a.class_name = String::new();
    let mut b = element("b", "Login", "");
    b.class_name = String::new();
    let resolver = ElementResolver::new(vec![b, a]);
    let mut sel = Selector::default();
    sel.resource_id = "login".to_string();
    sel.text = "Login".to_string();
    sel.index = -1;
    assert_eq!(ids(&resolver.resolve(&sel, true).unwrap()), vec!["a", "b"]);
    assert_eq!(ids(&resolver.resolve(&sel, false).unwrap()), vec!["a"]);
}

#[test]
fn class_name_ranks_above_fuzzy_text() {
    let mut a = element("a", "Logon", "");
    a.class_name = String::new();
    let b = element("b", "", "");
    let resolver = ElementResolver::new(vec![a, b]);
    let mut sel = Selector::default();
    sel.text = "login".to_string();
    sel.class_name = "Button".to_string();
    sel.index = -1;
    assert_eq!(ids(&resolver.resolve(&sel, true).unwrap()), vec!["b", "a"]);
}

#[test]
fn element_matched_twice_appears_once() {
    let a = element("a", "", "com.app:id/btn");
    let mut b = element("b", "OK now", "");
    b.class_name = String::new();
    let resolver = ElementResolver::new(vec![a, b]);
    let mut sel = Selector::default();
    sel.resource_id = "btn".to_string();
    sel.text = "ok".to_string();
    sel.class_name = "Button".to_string();
    sel.index = -1;
    assert_eq!(ids(&resolver.resolve(&sel, true).unwrap()), vec!["a", "b"]);
    sel.index = 1;
    assert_eq!(ids(&resolver.resolve(&sel, false).unwrap()), vec!["b"]);
    sel.index = 2;
    assert_eq!(
        resolver.resolve(&sel, true).unwrap_err(),
        ResolveError::IndexOutOfRange { index: 2, matches: 2 }
    );
}
