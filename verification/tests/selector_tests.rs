use neuralbridge_mcp::semantic::selector::{parse_attribute_selector, parse_selector, SelectorBuilder};

#[test]
fn test_parse_text_selector() {
    let selector = parse_selector("\"Login\"").unwrap();
    assert_eq!(selector.text, "Login");
    assert!(!selector.exact_match);
}

#[test]
fn test_parse_id_selector() {
    let selector = parse_selector("#login_button").unwrap();
    assert_eq!(selector.resource_id, "login_button");
}

#[test]
fn test_parse_class_selector() {
    let selector = parse_selector(".Button").unwrap();
    assert_eq!(selector.class_name, "Button");
}

#[test]
fn test_parse_attribute_selector() {
    let selector = parse_selector("[text=\"Login\"]").unwrap();
    assert_eq!(selector.text, "Login");
}

#[test]
fn test_selector_builder() {
    let selector = SelectorBuilder::new()
        .text("Login")
        .visible_only(true)
        .enabled_only(true)
        .build();
    assert_eq!(selector.text, "Login");
    assert!(selector.visible_only);
    assert!(selector.enabled_only);
}

#[test]
fn attribute_forms() {
    let s = parse_attribute_selector("[content_desc=\"Back\"]").unwrap();
    assert_eq!(s.content_desc, "Back");
    let s = parse_attribute_selector("[resource_id=\"com.app:id/ok\"]").unwrap();
    assert_eq!(s.resource_id, "com.app:id/ok");
    assert!(parse_attribute_selector("[bogus=\"x\"]").is_err());
    assert!(parse_attribute_selector("[text]").is_err());
}

#[test]
fn bare_word_is_not_a_selector() {
    assert!(parse_selector("Submit").is_err());
    let s = parse_selector("[elementId=\"n7\"]").unwrap();
    assert_eq!(s.element_id, "n7");
}

#[test]
fn builder_sets_every_field() {
    let s = SelectorBuilder::new()
        .resource_id("rid")
        .content_desc("desc")
        .class_name("cls")
        .element_id("e1")
        .exact_match(true)
        .index(2)
        .build();
    assert_eq!(s.resource_id, "rid");
    assert_eq!(s.content_desc, "desc");
    assert_eq!(s.class_name, "cls");
    assert_eq!(s.element_id, "e1");
    assert!(s.exact_match);
    assert_eq!(s.index, 2);
    assert!(!s.visible_only);
}

#[test]
fn text_forms() {
    let s = parse_selector("text=\"Login\"").unwrap();
    assert_eq!(s.text, "Login");
    assert!(s.exact_match);
    assert!(!s.visible_only);
    let s = parse_selector("text~=\"login\"").unwrap();
    assert_eq!(s.text, "login");
    assert!(!s.exact_match);
    let s = parse_selector("text=\"Login\"[visible=true]").unwrap();
    assert_eq!(s.text, "Login");
    assert!(s.exact_match);
    assert!(s.visible_only);
    assert!(parse_selector("text=\"Login").is_err());
    assert!(parse_selector("text=\"Login\"[enabled=true]").is_err());
}
