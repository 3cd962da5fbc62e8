use uikit::el::{El, ElChild};

#[test]
fn builder_accumulates_in_order() {
    let el = El::new("div")
        .attr("id", "a")
        .attr("class", "b")
        .text("one")
        .child(El::new("p"))
        .dyn_text()
        .dyn_child()
        .on("click", 1)
        .on("focus", 2);

    assert_eq!(el.tag, "div");
    assert_eq!(
        el.attrs,
        vec![
            ("id".to_string(), "a".to_string()),
            ("class".to_string(), "b".to_string()),
        ]
    );
    assert_eq!(
        el.listeners,
        vec![("click".to_string(), 1), ("focus".to_string(), 2)]
    );
    assert_eq!(el.children.len(), 4);
    assert!(matches!(&el.children[0], ElChild::Text(t) if t == "one"));
    assert!(matches!(&el.children[1], ElChild::Node(n) if n.tag == "p"));
    assert!(matches!(el.children[2], ElChild::DynText));
    assert!(matches!(el.children[3], ElChild::DynChild));
}

#[test]
fn new_element_is_bare() {
    let el = El::new("span");
    assert_eq!(el.tag, "span");
    assert!(el.attrs.is_empty());
    assert!(el.listeners.is_empty());
    assert!(el.children.is_empty());
}
