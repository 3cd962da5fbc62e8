use uikit::jsx_parser::{
    attrs_region_ok, build_el, extract_attrs, extract_tag_name, extract_text_content,
    parse_element, text_region_ok,
};
use uikit::el::ElChild;

#[test]
fn test_element_wihtout_name() {
    let result = parse_element("<></>");
    assert!(result.is_none());
}

#[test]
fn test_simple_element() {
    let result = parse_element("<div></div>").unwrap();
    assert_eq!(result.tag, "div");
    assert!(result.attrs.is_empty());
    assert!(result.text.is_none());
}

#[test]
fn test_element_with_attr() {
    let result = parse_element(r#"<div class="container"></div>"#).unwrap();
    assert_eq!(result.tag, "div");
    assert_eq!(
        result.attrs,
        vec![("class".to_string(), "container".to_string())]
    );
    assert!(result.text.is_none());
}

#[test]
fn test_element_with_attrs() {
    let result = parse_element(r#"<div id="id-container" class="container"></div>"#).unwrap();
    assert_eq!(result.tag, "div");
    assert_eq!(
        result.attrs,
        vec![
            ("id".to_string(), "id-container".to_string()),
            ("class".to_string(), "container".to_string()),
        ]
    );
    assert!(result.text.is_none());
}

#[test]
fn test_element_with_text_content() {
    let result = parse_element(r#"<div>testo</div>"#).unwrap();
    assert_eq!(result.tag, "div");
    assert!(result.attrs.is_empty());
    assert_eq!(result.text, Some("testo".to_string()));
}

#[test]
fn test_element_with_text_content_and_attr() {
    let result = parse_element(r#"<div class="container">testo</div>"#).unwrap();
    assert_eq!(result.tag, "div");
    assert_eq!(
        result.attrs,
        vec![("class".to_string(), "container".to_string())]
    );
    assert_eq!(result.text, Some("testo".to_string()));
}

#[test]
fn extract_tag_name_cases() {
    assert_eq!(extract_tag_name("<div></div>"), Some("div"));
    assert_eq!(extract_tag_name("<span attr>"), Some("span"));
    assert_eq!(extract_tag_name("<></>"), None);
    assert_eq!(extract_tag_name("no brackets"), None);
    assert_eq!(extract_tag_name("<never-closed"), None);
}

#[test]
fn extract_attrs_cases() {
    assert_eq!(extract_attrs("<div></div>"), None);
    let attrs = extract_attrs(r#"<div id="a" class="b"></div>"#).unwrap();
    assert_eq!(attrs, vec![("id", "a"), ("class", "b")]);
}

#[test]
fn extract_text_content_cases() {
    assert_eq!(extract_text_content("<div></div>"), None);
    assert_eq!(extract_text_content("<div>hi</div>"), Some("hi"));
    assert_eq!(extract_text_content("<div>hi"), None);
}

#[test]
fn region_checkers() {
    assert!(attrs_region_ok("<div></div>"));
    assert!(attrs_region_ok(r#"<div id="a"></div>"#));
    // empty attribute region: the token carries no `=`
    assert!(!attrs_region_ok("<div ></div>"));
    // the first space comes after the first `>`
    assert!(!attrs_region_ok("<div>a b</div>"));
    assert!(text_region_ok("<div>hi</div>"));
    // `</` before the first `>`
    assert!(!text_region_ok("</a> hi"));
}

#[test]
fn template_round_trip_simple() {
    let template = parse_element("<div>hi</div>").unwrap();
    let el = build_el(&template);
    assert_eq!(el.tag, "div");
    assert!(el.attrs.is_empty());
    assert_eq!(el.children.len(), 1);
    match &el.children[0] {
        ElChild::Text(d) => assert_eq!(d, "hi"),
        _ => panic!("expected a text child"),
    }
}

#[test]
fn template_round_trip_attrs_in_order() {
    let template = parse_element(r#"<div id="a" class="b"></div>"#).unwrap();
    let el = build_el(&template);
    assert_eq!(el.tag, "div");
    assert_eq!(
        el.attrs,
        vec![
            ("id".to_string(), "a".to_string()),
            ("class".to_string(), "b".to_string()),
        ]
    );
    assert!(el.children.is_empty());
}
