use uikit::component::{mount_traced, Component, ComponentContext, Phase};
use uikit::el::{El, ElChild};
use uikit::host::{HostNode, HostTree};
use uikit::runtime::start_app;

/// A component that records whether initialization ran before render.
struct Probe {
    inited: bool,
}

impl Component for Probe {
    fn on_init(&mut self, ctx: &mut ComponentContext) {
        self.inited = true;
        ctx.provide(1, 10);
    }

    fn render(&self, ctx: &mut ComponentContext) -> El {
        let state = if self.inited { "true" } else { "false" };
        let injected = if ctx.inject(1) == Some(10) { "yes" } else { "no" };
        El::new("div").attr("data-inited", state).attr("data-injected", injected)
    }
}

/// A component with the default (no-op) initialization.
struct Leaf;

impl Component for Leaf {
    fn render(&self, _ctx: &mut ComponentContext) -> El {
        El::new("span").text("leaf")
    }
}

#[test]
fn mount_ordering() {
    let mut ctx = ComponentContext::new(0);
    let (el, trace) = mount_traced(Probe { inited: false }, &mut ctx);
    // initialization completed before render began, and render ran once
    assert_eq!(trace, vec![Phase::Init, Phase::Render]);
    assert_eq!(
        el.attrs,
        vec![
            ("data-inited".to_string(), "true".to_string()),
            ("data-injected".to_string(), "yes".to_string()),
        ]
    );
}

#[test]
fn mount_consumes_instance() {
    let mut ctx = ComponentContext::new(0);
    let el = Probe { inited: false }.mount(&mut ctx);
    assert_eq!(el.tag, "div");
    // what on_init provided stays visible on the same context
    assert_eq!(ctx.inject(1), Some(10));
}

#[test]
fn component_appends_rendered_child() {
    let mut ctx = ComponentContext::new(0);
    let el = El::new("main").component(Leaf, &mut ctx);
    assert_eq!(el.children.len(), 1);
    match &el.children[0] {
        ElChild::Node(child) => assert_eq!(child.tag, "span"),
        _ => panic!("expected a nested element"),
    }
}

#[test]
fn start_app_attaches_to_host_root() {
    let mut tree = HostTree::new();
    let body = tree.create_element("body");
    let mut sites = Vec::new();
    let (wrapper, _ctx) = start_app(Probe { inited: false }, 3, &mut tree, body, &mut sites);

    match tree.node(body) {
        HostNode::Element { children, .. } => assert_eq!(children, &vec![wrapper]),
        _ => panic!("expected an element"),
    }
    match tree.node(wrapper) {
        HostNode::Element { tag, children, .. } => {
            assert_eq!(tag, "div");
            assert_eq!(children.len(), 1);
        },
        _ => panic!("expected an element"),
    }
}

#[test]
fn separate_mounts_share_nothing() {
    let mut tree = HostTree::new();
    let body = tree.create_element("body");
    let mut sites = Vec::new();
    let (first, ctx1) = start_app(Probe { inited: false }, 1, &mut tree, body, &mut sites);
    let (second, ctx2) = start_app(Leaf, 2, &mut tree, body, &mut sites);
    assert_ne!(first, second);
    assert_eq!(ctx1.scope, 1);
    assert_eq!(ctx2.scope, 2);
    // the second mount's context starts fresh: no registration carries over
    assert_eq!(ctx2.inject(1), None);
    match tree.node(body) {
        HostNode::Element { children, .. } => assert_eq!(children, &vec![first, second]),
        _ => panic!("expected an element"),
    }
}
