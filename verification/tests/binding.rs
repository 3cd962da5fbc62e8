use uikit::el::El;
use uikit::host::{BindKind, HostNode, HostTree};

fn text_data(tree: &HostTree, id: usize) -> String {
    match tree.node(id) {
        HostNode::Text { data } => data.clone(),
        _ => panic!("expected a text node"),
    }
}

fn children_of(tree: &HostTree, id: usize) -> Vec<usize> {
    match tree.node(id) {
        HostNode::Element { children, .. } => children.clone(),
        _ => panic!("expected an element"),
    }
}

#[test]
fn dyn_text_recompute() {
    let mut tree = HostTree::new();
    let mut sites = Vec::new();
    let el = El::new("span").dyn_text();
    tree.materialize(&el, &mut sites);

    assert_eq!(sites.len(), 1);
    assert!(matches!(sites[0].kind, BindKind::Text));
    let slot = sites[0].node;

    // the slot starts empty; the effect's first run fills it
    assert_eq!(text_data(&tree, slot), "");
    tree.recompute_text(slot, "0");
    assert_eq!(text_data(&tree, slot), "0");

    // a dependency change recomputes the content in place
    tree.recompute_text(slot, "5");
    assert_eq!(text_data(&tree, slot), "5");

    // re-running with no change leaves the tree unchanged
    let len_before = tree.len();
    tree.recompute_text(slot, "5");
    assert_eq!(text_data(&tree, slot), "5");
    assert_eq!(tree.len(), len_before);
}

#[test]
fn dyn_child_clear_and_rebuild() {
    let mut tree = HostTree::new();
    let mut sites = Vec::new();
    let el = El::new("div").dyn_child();
    tree.materialize(&el, &mut sites);

    assert_eq!(sites.len(), 1);
    assert!(matches!(sites[0].kind, BindKind::Child));
    let container = sites[0].node;

    // the container is an isolated region with no layout of its own
    match tree.node(container) {
        HostNode::Element { tag, attrs, children, .. } => {
            assert_eq!(tag, "div");
            assert_eq!(
                attrs,
                &vec![
                    ("style".to_string(), "display: contents".to_string()),
                    ("data-dyn-child".to_string(), String::new()),
                ]
            );
            assert!(children.is_empty());
        },
        _ => panic!("expected an element"),
    }

    // while the producer returns nothing, the container has no children
    let mut extra = Vec::new();
    let r = tree.recompute_child(container, None, &mut extra);
    assert!(r.is_none());
    assert_eq!(children_of(&tree, container).len(), 0);

    // when it returns an element, that element is the sole content
    let first = tree
        .recompute_child(container, Some(&El::new("p").text("x")), &mut extra)
        .unwrap();
    assert_eq!(children_of(&tree, container), vec![first]);

    // toggling back clears the content wholesale
    let r = tree.recompute_child(container, None, &mut extra);
    assert!(r.is_none());
    assert_eq!(children_of(&tree, container).len(), 0);

    // entering the rendered state again builds a new child identity
    let second = tree
        .recompute_child(container, Some(&El::new("p").text("x")), &mut extra)
        .unwrap();
    assert_eq!(children_of(&tree, container), vec![second]);
    assert_ne!(first, second);
}

#[test]
fn materialize_structure() {
    let mut tree = HostTree::new();
    let mut sites = Vec::new();
    let el = El::new("div")
        .attr("class", "box")
        .on("click", 7)
        .text("hello")
        .child(El::new("span").text("inner"));
    let root = tree.materialize(&el, &mut sites);

    assert!(sites.is_empty());
    match tree.node(root) {
        HostNode::Element { tag, attrs, listeners, children } => {
            assert_eq!(tag, "div");
            assert_eq!(attrs, &vec![("class".to_string(), "box".to_string())]);
            assert_eq!(listeners, &vec![("click".to_string(), 7)]);
            assert_eq!(children.len(), 2);
            assert_eq!(text_data(&tree, children[0]), "hello");
            match tree.node(children[1]) {
                HostNode::Element { tag, children, .. } => {
                    assert_eq!(tag, "span");
                    assert_eq!(text_data(&tree, children[0]), "inner");
                },
                _ => panic!("expected an element"),
            }
        },
        _ => panic!("expected an element"),
    }
}

#[test]
fn host_ops() {
    let mut tree = HostTree::new();
    let parent = tree.create_element("ul");
    let child = tree.create_element("li");
    tree.set_attribute(child, "class", "item");
    tree.add_event_listener(child, "click", 9);
    match tree.node(child) {
        HostNode::Element { attrs, listeners, .. } => {
            assert_eq!(attrs, &vec![("class".to_string(), "item".to_string())]);
            assert_eq!(listeners, &vec![("click".to_string(), 9)]);
        },
        _ => panic!("expected an element"),
    }
    tree.append_child(parent, child);
    let note = tree.create_text_node("n");
    tree.append_child(parent, note);
    assert_eq!(children_of(&tree, parent), vec![child, note]);
    tree.set_text_data(note, "m");
    assert_eq!(text_data(&tree, note), "m");
    tree.clear_children(parent);
    assert!(children_of(&tree, parent).is_empty());
    // the former children stay allocated but are no longer content
    assert_eq!(tree.len(), 3);
}

#[test]
fn dyn_child_rebuild_clears_outside_content_too() {
    let mut tree = HostTree::new();
    let mut sites = Vec::new();
    let el = El::new("div").dyn_child();
    tree.materialize(&el, &mut sites);
    let container = sites[0].node;

    // content inserted into the container from outside the binding
    let intruder = tree.create_text_node("outside");
    tree.append_child(container, intruder);
    assert_eq!(children_of(&tree, container), vec![intruder]);

    // the rebuild clears the container's entire content, not only its own
    let mut extra = Vec::new();
    let rebuilt = tree
        .recompute_child(container, Some(&El::new("em")), &mut extra)
        .unwrap();
    assert_eq!(children_of(&tree, container), vec![rebuilt]);
}
