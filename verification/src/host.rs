//! A value model of the host tree that elements render into: an arena of
//! element and text nodes. The embedder mirrors this model into its real
//! host (a document tree) one operation at a time; everything the framework
//! decides about the tree is stated and proved here.

use vstd::prelude::*;
use crate::el::{El, ElChild};

verus! {

/// One node of the host tree.
pub enum HostNode {
    /// An element: tag, attributes and listeners in the order they were set,
    /// and the ids of its children in document order.
    Element {
        tag: String,
        attrs: Vec<(String, String)>,
        listeners: Vec<(String, u64)>,
        children: Vec<usize>,
    },
    /// A text node.
    Text { data: String },
}

/// What a node looks like to an observer: the same structure with every
/// string taken as its character sequence.
pub enum HostNodeView {
    Element {
        tag: Seq<char>,
        attrs: Seq<(Seq<char>, Seq<char>)>,
        listeners: Seq<(Seq<char>, u64)>,
        children: Seq<usize>,
    },
    Text { data: Seq<char> },
}

/// Pairs of strings (an attribute) observed as character sequences.
pub open spec fn attr_views(attrs: Seq<(String, String)>) -> Seq<(Seq<char>, Seq<char>)> {
    attrs.map_values(|p: (String, String)| (p.0@, p.1@))
}

/// Pairs of string and token (a listener) observed as character sequences.
pub open spec fn listener_views(listeners: Seq<(String, u64)>) -> Seq<(Seq<char>, u64)> {
    listeners.map_values(|p: (String, u64)| (p.0@, p.1))
}

impl View for HostNode {
    type V = HostNodeView;

    open spec fn view(&self) -> HostNodeView {
        match self {
            HostNode::Element { tag, attrs, listeners, children } => HostNodeView::Element {
                tag: tag@,
                attrs: attr_views(attrs@),
                listeners: listener_views(listeners@),
                children: children@,
            },
            HostNode::Text { data } => HostNodeView::Text { data: data@ },
        }
    }
}

/// The host tree: an arena of nodes addressed by index. A node id handed out
/// once stays valid for the life of the tree; there is no removal.
pub struct HostTree {
    nodes: Vec<HostNode>,
}

impl View for HostTree {
    type V = Seq<HostNode>;

    closed spec fn view(&self) -> Seq<HostNode> {
        self.nodes@
    }
}

impl HostTree {
    /// An empty host tree.
    pub fn new() -> (r: Self)
        ensures
            r@.len() == 0,
    {
        HostTree { nodes: Vec::new() }
    }

    /// How many nodes the tree holds.
    pub fn len(&self) -> (r: usize)
        ensures
            r == self@.len(),
    {
        self.nodes.len()
    }

    /// Reads one node.
    pub fn node(&self, id: usize) -> (r: &HostNode)
        requires
            id < self@.len(),
        ensures
            *r == self@[id as int],
    {
        &self.nodes[id]
    }

    /// Allocates an element node of the given tag, with no attributes,
    /// listeners or children yet. Existing nodes are untouched.
    pub fn create_element(&mut self, tag: &str) -> (id: usize)
        ensures
            final(self)@.len() == old(self)@.len() + 1,
            id == old(self)@.len(),
            forall|j: int| 0 <= j < old(self)@.len() ==> final(self)@[j] == old(self)@[j],
            final(self)@[id as int]@ == (HostNodeView::Element {
                tag: tag@,
                attrs: Seq::<(Seq<char>, Seq<char>)>::empty(),
                listeners: Seq::<(Seq<char>, u64)>::empty(),
                children: Seq::<usize>::empty(),
            }),
    {
        let id = self.nodes.len();
        self.nodes.push(
            HostNode::Element {
                tag: tag.to_owned(),
                attrs: Vec::new(),
                listeners: Vec::new(),
                children: Vec::new(),
            },
        );
        proof {
            assert(attr_views(Seq::<(String, String)>::empty())
                =~= Seq::<(Seq<char>, Seq<char>)>::empty());
            assert(listener_views(Seq::<(String, u64)>::empty())
                =~= Seq::<(Seq<char>, u64)>::empty());
        }
        id
    }

    /// Allocates a text node with the given content. Existing nodes are
    /// untouched.
    pub fn create_text_node(&mut self, data: &str) -> (id: usize)
        ensures
            final(self)@.len() == old(self)@.len() + 1,
            id == old(self)@.len(),
            forall|j: int| 0 <= j < old(self)@.len() ==> final(self)@[j] == old(self)@[j],
            final(self)@[id as int]@ == (HostNodeView::Text { data: data@ }),
    {
        let id = self.nodes.len();
        self.nodes.push(HostNode::Text { data: data.to_owned() });
        id
    }

    /// Sets an attribute on an element: appended after the attributes already
    /// set, so left-to-right order is kept. Every other node is untouched.
    pub fn set_attribute(&mut self, id: usize, name: &str, value: &str)
        requires
            id < old(self)@.len(),
            old(self)@[id as int] is Element,
        ensures
            final(self)@.len() == old(self)@.len(),
            forall|j: int| 0 <= j < old(self)@.len() && j != id ==> final(self)@[j] == old(
                self,
            )@[j],
            final(self)@[id as int]@ == (HostNodeView::Element {
                tag: old(self)@[id as int]@->Element_tag,
                attrs: old(self)@[id as int]@->Element_attrs.push((name@, value@)),
                listeners: old(self)@[id as int]@->Element_listeners,
                children: old(self)@[id as int]@->Element_children,
            }),
    {
        let node = &mut self.nodes[id];
        match node {
            HostNode::Element { attrs, .. } => {
                attrs.push((name.to_owned(), value.to_owned()));
            },
            HostNode::Text { .. } => {
                proof {
                    assert(false);
                }
            },
        }
        proof {
            assert(attr_views(final(node)->Element_attrs@) =~= old(
                self,
            )@[id as int]@->Element_attrs.push((name@, value@)));
        }
    }

    /// Replaces the content of a text node. Every other node is untouched.
    pub fn set_text_data(&mut self, id: usize, value: &str)
        requires
            id < old(self)@.len(),
            old(self)@[id as int] is Text,
        ensures
            final(self)@.len() == old(self)@.len(),
            forall|j: int| 0 <= j < old(self)@.len() && j != id ==> final(self)@[j] == old(
                self,
            )@[j],
            final(self)@[id as int]@ == (HostNodeView::Text { data: value@ }),
    {
        let node = &mut self.nodes[id];
        match node {
            HostNode::Element { .. } => {
                proof {
                    assert(false);
                }
            },
            HostNode::Text { data } => {
                *data = value.to_owned();
            },
        }
    }

    /// Appends an existing node as the last child of an element. Every other
    /// node is untouched.
    pub fn append_child(&mut self, parent: usize, child: usize)
        requires
            parent < old(self)@.len(),
            child < old(self)@.len(),
            old(self)@[parent as int] is Element,
        ensures
            final(self)@.len() == old(self)@.len(),
            forall|j: int| 0 <= j < old(self)@.len() && j != parent ==> final(self)@[j] == old(
                self,
            )@[j],
            final(self)@[parent as int]@ == (HostNodeView::Element {
                tag: old(self)@[parent as int]@->Element_tag,
                attrs: old(self)@[parent as int]@->Element_attrs,
                listeners: old(self)@[parent as int]@->Element_listeners,
                children: old(self)@[parent as int]@->Element_children.push(child),
            }),
    {
        let node = &mut self.nodes[parent];
        match node {
            HostNode::Element { children, .. } => {
                children.push(child);
            },
            HostNode::Text { .. } => {
                proof {
                    assert(false);
                }
            },
        }
    }

    /// Registers a host event listener on an element, by the opaque token
    /// the embedder maps to the callback; appended after the listeners
    /// already registered. Every other node is untouched.
    pub fn add_event_listener(&mut self, id: usize, name: &str, listener: u64)
        requires
            id < old(self)@.len(),
            old(self)@[id as int] is Element,
        ensures
            final(self)@.len() == old(self)@.len(),
            forall|j: int| 0 <= j < old(self)@.len() && j != id ==> final(self)@[j] == old(
                self,
            )@[j],
            final(self)@[id as int]@ == (HostNodeView::Element {
                tag: old(self)@[id as int]@->Element_tag,
                attrs: old(self)@[id as int]@->Element_attrs,
                listeners: old(self)@[id as int]@->Element_listeners.push((name@, listener)),
                children: old(self)@[id as int]@->Element_children,
            }),
    {
        let node = &mut self.nodes[id];
        match node {
            HostNode::Element { listeners, .. } => {
                listeners.push((name.to_owned(), listener));
            },
            HostNode::Text { .. } => {
                proof {
                    assert(false);
                }
            },
        }
        proof {
            assert(listener_views(final(node)->Element_listeners@) =~= old(
                self,
            )@[id as int]@->Element_listeners.push((name@, listener)));
        }
    }

    /// Removes every child of an element at once: the non-diffing clear that
    /// precedes every dynamic-child rebuild. Every other node is untouched;
    /// the former children stay allocated but are no longer content.
    pub fn clear_children(&mut self, id: usize)
        requires
            id < old(self)@.len(),
            old(self)@[id as int] is Element,
        ensures
            final(self)@.len() == old(self)@.len(),
            forall|j: int| 0 <= j < old(self)@.len() && j != id ==> final(self)@[j] == old(
                self,
            )@[j],
            final(self)@[id as int]@ == (HostNodeView::Element {
                tag: old(self)@[id as int]@->Element_tag,
                attrs: old(self)@[id as int]@->Element_attrs,
                listeners: old(self)@[id as int]@->Element_listeners,
                children: Seq::<usize>::empty(),
            }),
    {
        let node = &mut self.nodes[id];
        match node {
            HostNode::Element { children, .. } => {
                children.clear();
            },
            HostNode::Text { .. } => {
                proof {
                    assert(false);
                }
            },
        }
    }
}


/// The attributes every dynamic-child container carries: it takes no layout
/// of its own and is marked as a dynamic region.
pub open spec fn dyn_container_attrs() -> Seq<(Seq<char>, Seq<char>)> {
    seq![("style"@, "display: contents"@), ("data-dyn-child"@, ""@)]
}

/// Where a dynamic binding was installed during materialization, so the
/// embedder can register the effect that keeps it updated.
pub enum BindKind {
    /// A dynamic text node: its content is recomputed in place.
    Text,
    /// A dynamic child container: its whole content is cleared and rebuilt.
    Child,
}

pub struct BindingSite {
    pub kind: BindKind,
    pub node: usize,
}

/// A binding site points at a node of the right shape for its kind.
pub open spec fn site_ok(nodes: Seq<HostNode>, site: BindingSite) -> bool {
    &&& site.node < nodes.len()
    &&& match site.kind {
        BindKind::Text => nodes[site.node as int] is Text,
        BindKind::Child => nodes[site.node as int] is Element,
    }
}

/// How many dynamic binding sites one child contributes.
pub open spec fn dyn_count_child(c: ElChild) -> nat
    decreases c,
{
    match c {
        ElChild::Text(_) => 0,
        ElChild::Node(el) => dyn_count(el),
        ElChild::DynText => 1,
        ElChild::DynChild => 1,
    }
}

/// How many dynamic binding sites a sequence of children contributes.
pub open spec fn dyn_count_children(cs: Seq<ElChild>) -> nat
    decreases cs,
{
    if cs.len() == 0 {
        0
    } else {
        dyn_count_children(cs.drop_last()) + dyn_count_child(cs.last())
    }
}

/// How many dynamic binding sites materializing `el` installs.
pub open spec fn dyn_count(el: El) -> nat
    decreases el,
{
    dyn_count_children(el.children@)
}

/// The node `id` of `nodes` renders `el`: same tag, same attributes and
/// listeners in order, and its children render `el`'s children left to
/// right — a static text child as a text node, a dynamic text slot as an
/// empty text node, a dynamic child slot as an empty container, and a nested
/// element recursively. Every node of the subtree lies at or above `floor`.
pub open spec fn subtree_matches(nodes: Seq<HostNode>, id: int, el: El, floor: int) -> bool
    decreases el,
{
    &&& 0 <= floor <= id < nodes.len()
    &&& nodes[id]@ matches HostNodeView::Element { tag, attrs, listeners, children }
        && tag == el.tag@ && attrs == attr_views(el.attrs@) && listeners == listener_views(
        el.listeners@,
    ) && children.len() == el.children@.len() && (forall|i: int|
        0 <= i < el.children@.len() ==> child_matches(
            nodes,
            children[i] as int,
            #[trigger] el.children@[i],
            floor,
        ))
}

/// The node `id` of `nodes` renders one child of an element.
pub open spec fn child_matches(nodes: Seq<HostNode>, id: int, c: ElChild, floor: int) -> bool
    decreases c,
{
    match c {
        ElChild::Text(s) => {
            &&& 0 <= floor <= id < nodes.len()
            &&& nodes[id]@ == (HostNodeView::Text { data: s@ })
        },
        ElChild::Node(el) => subtree_matches(nodes, id, el, floor),
        ElChild::DynText => {
            &&& 0 <= floor <= id < nodes.len()
            &&& nodes[id]@ == (HostNodeView::Text { data: Seq::<char>::empty() })
        },
        ElChild::DynChild => {
            &&& 0 <= floor <= id < nodes.len()
            &&& nodes[id]@ == (HostNodeView::Element {
                tag: "div"@,
                attrs: dyn_container_attrs(),
                listeners: Seq::<(Seq<char>, u64)>::empty(),
                children: Seq::<usize>::empty(),
            })
        },
    }
}

/// A rendered subtree only reads nodes at or above its floor, so it still
/// renders after the tree grows or a node below the floor changes.
pub proof fn lemma_subtree_matches_frame(
    nodes1: Seq<HostNode>,
    nodes2: Seq<HostNode>,
    id: int,
    el: El,
    floor: int,
)
    requires
        subtree_matches(nodes1, id, el, floor),
        nodes1.len() <= nodes2.len(),
        forall|j: int| floor <= j < nodes1.len() ==> nodes2[j] == nodes1[j],
    ensures
        subtree_matches(nodes2, id, el, floor),
    decreases el,
{
    let children = nodes1[id]@->Element_children;
    assert forall|i: int| 0 <= i < el.children@.len() implies child_matches(
        nodes2,
        children[i] as int,
        #[trigger] el.children@[i],
        floor,
    ) by {
        lemma_child_matches_frame(nodes1, nodes2, children[i] as int, el.children@[i], floor);
    }
    assert(nodes2[id]@ == nodes1[id]@);
}

/// As `lemma_subtree_matches_frame`, for one child.
pub proof fn lemma_child_matches_frame(
    nodes1: Seq<HostNode>,
    nodes2: Seq<HostNode>,
    id: int,
    c: ElChild,
    floor: int,
)
    requires
        child_matches(nodes1, id, c, floor),
        nodes1.len() <= nodes2.len(),
        forall|j: int| floor <= j < nodes1.len() ==> nodes2[j] == nodes1[j],
    ensures
        child_matches(nodes2, id, c, floor),
    decreases c,
{
    match c {
        ElChild::Node(el) => {
            lemma_subtree_matches_frame(nodes1, nodes2, id, el, floor);
        },
        _ => {},
    }
}

/// A rendered subtree keeps rendering under a smaller floor.
pub proof fn lemma_subtree_matches_floor(
    nodes: Seq<HostNode>,
    id: int,
    el: El,
    floor1: int,
    floor2: int,
)
    requires
        subtree_matches(nodes, id, el, floor1),
        0 <= floor2 <= floor1,
    ensures
        subtree_matches(nodes, id, el, floor2),
    decreases el,
{
    let children = nodes[id]@->Element_children;
    assert forall|i: int| 0 <= i < el.children@.len() implies child_matches(
        nodes,
        children[i] as int,
        #[trigger] el.children@[i],
        floor2,
    ) by {
        lemma_child_matches_floor(nodes, children[i] as int, el.children@[i], floor1, floor2);
    }
}

/// As `lemma_subtree_matches_floor`, for one child.
pub proof fn lemma_child_matches_floor(nodes: Seq<HostNode>, id: int, c: ElChild, floor1: int, floor2: int)
    requires
        child_matches(nodes, id, c, floor1),
        0 <= floor2 <= floor1,
    ensures
        child_matches(nodes, id, c, floor2),
    decreases c,
{
    match c {
        ElChild::Node(el) => {
            lemma_subtree_matches_floor(nodes, id, el, floor1, floor2);
        },
        _ => {},
    }
}


/// One more child taken into account adds exactly that child's dynamic
/// slots.
proof fn lemma_dyn_count_children_step(cs: Seq<ElChild>, i: int)
    requires
        0 <= i < cs.len(),
    ensures
        dyn_count_children(cs.take(i + 1)) == dyn_count_children(cs.take(i)) + dyn_count_child(
            cs[i],
        ),
{
    assert(cs.take(i + 1).drop_last() =~= cs.take(i));
    assert(cs.take(i + 1).last() == cs[i]);
}

impl HostTree {
    /// Renders `el` and everything under it into the tree, bottom-up: only
    /// fresh nodes are allocated and nothing already in the tree is touched.
    /// Returns the id of the subtree root and appends one entry to `sites`
    /// for every dynamic slot installed, so the embedder can register the
    /// effects that keep those slots updated.
    pub fn materialize(&mut self, el: &El, sites: &mut Vec<BindingSite>) -> (id: usize)
        ensures
            old(self)@.len() < final(self)@.len(),
            id == final(self)@.len() - 1,
            forall|j: int| 0 <= j < old(self)@.len() ==> final(self)@[j] == old(self)@[j],
            subtree_matches(final(self)@, id as int, *el, old(self)@.len() as int),
            final(sites)@.len() == old(sites)@.len() + dyn_count(*el),
            forall|k: int| 0 <= k < old(sites)@.len() ==> final(sites)@[k] == old(sites)@[k],
            forall|k: int|
                old(sites)@.len() <= k < final(sites)@.len() ==> site_ok(
                    final(self)@,
                    #[trigger] final(sites)@[k],
                ) && final(sites)@[k].node >= old(self)@.len(),
        decreases *el,
    {
        let ghost floor = self@.len() as int;
        let ghost orig_tree = self@;
        let ghost orig_sites = sites@;

        let mut child_ids: Vec<usize> = Vec::new();
        let mut i: usize = 0;
        while i < el.children.len()
            invariant
                i <= el.children@.len(),
                floor == orig_tree.len(),
                orig_tree.len() <= self@.len(),
                forall|j: int| 0 <= j < orig_tree.len() ==> self@[j] == orig_tree[j],
                child_ids@.len() == i,
                forall|k: int|
                    0 <= k < i ==> child_matches(
                        self@,
                        child_ids@[k] as int,
                        #[trigger] el.children@[k],
                        floor,
                    ),
                sites@.len() == orig_sites.len() + dyn_count_children(
                    el.children@.take(i as int),
                ),
                forall|k: int| 0 <= k < orig_sites.len() ==> sites@[k] == orig_sites[k],
                forall|k: int|
                    orig_sites.len() <= k < sites@.len() ==> site_ok(self@, #[trigger] sites@[k])
                        && sites@[k].node >= orig_tree.len(),
            decreases el.children@.len() - i,
        {
            let ghost prev_tree = self@;
            let c = &el.children[i];
            match c {
                ElChild::Text(s) => {
                    let cid = self.create_text_node(s.as_str());
                    child_ids.push(cid);
                    proof {
                        assert(child_matches(self@, cid as int, el.children@[i as int], floor));
                    }
                },
                ElChild::Node(sub) => {
                    let cid = self.materialize(sub, sites);
                    child_ids.push(cid);
                    proof {
                        lemma_subtree_matches_floor(
                            self@,
                            cid as int,
                            *sub,
                            prev_tree.len() as int,
                            floor,
                        );
                        assert(child_matches(self@, cid as int, el.children@[i as int], floor));
                    }
                },
                ElChild::DynText => {
                    let cid = self.create_text_node("");
                    sites.push(BindingSite { kind: BindKind::Text, node: cid });
                    child_ids.push(cid);
                    proof {
                        reveal_strlit("");
                        assert(""@ =~= Seq::<char>::empty());
                        assert(child_matches(self@, cid as int, el.children@[i as int], floor));
                    }
                },
                ElChild::DynChild => {
                    let cid = self.create_element("div");
                    self.set_attribute(cid, "style", "display: contents");
                    self.set_attribute(cid, "data-dyn-child", "");
                    sites.push(BindingSite { kind: BindKind::Child, node: cid });
                    child_ids.push(cid);
                    proof {
                        assert(Seq::<(Seq<char>, Seq<char>)>::empty().push(
                            ("style"@, "display: contents"@),
                        ).push(("data-dyn-child"@, ""@)) =~= dyn_container_attrs());
                        assert(child_matches(self@, cid as int, el.children@[i as int], floor));
                    }
                },
            }
            proof {
                lemma_dyn_count_children_step(el.children@, i as int);
                assert forall|k: int| 0 <= k < i + 1 implies child_matches(
                    self@,
                    child_ids@[k] as int,
                    #[trigger] el.children@[k],
                    floor,
                ) by {
                    if k < i {
                        lemma_child_matches_frame(
                            prev_tree,
                            self@,
                            child_ids@[k] as int,
                            el.children@[k],
                            floor,
                        );
                    }
                }
            }
            i += 1;
        }
        proof {
            assert(el.children@.take(el.children@.len() as int) =~= el.children@);
        }

        let mut attrs: Vec<(String, String)> = Vec::new();
        let mut a: usize = 0;
        while a < el.attrs.len()
            invariant
                a <= el.attrs@.len(),
                attrs@.len() == a,
                forall|k: int| 0 <= k < a ==> attrs@[k] == el.attrs@[k],
            decreases el.attrs@.len() - a,
        {
            let pair = &el.attrs[a];
            attrs.push((pair.0.clone(), pair.1.clone()));
            a += 1;
        }

        let mut listeners: Vec<(String, u64)> = Vec::new();
        let mut b: usize = 0;
        while b < el.listeners.len()
            invariant
                b <= el.listeners@.len(),
                listeners@.len() == b,
                forall|k: int| 0 <= k < b ==> listeners@[k] == el.listeners@[k],
            decreases el.listeners@.len() - b,
        {
            let pair = &el.listeners[b];
            listeners.push((pair.0.clone(), pair.1));
            b += 1;
        }

        let ghost attrs_seq = attrs@;
        let ghost listeners_seq = listeners@;
        let ghost pre_push = self@;
        let ghost child_ids_seq = child_ids@;

        let id = self.nodes.len();
        self.nodes.push(
            HostNode::Element { tag: el.tag.clone(), attrs, listeners, children: child_ids },
        );

        proof {
            assert(attrs_seq =~= el.attrs@);
            assert(listeners_seq =~= el.listeners@);
            assert forall|k: int| 0 <= k < el.children@.len() implies child_matches(
                self@,
                child_ids_seq[k] as int,
                #[trigger] el.children@[k],
                floor,
            ) by {
                lemma_child_matches_frame(
                    pre_push,
                    self@,
                    child_ids_seq[k] as int,
                    el.children@[k],
                    floor,
                );
            }
            assert(subtree_matches(self@, id as int, *el, floor));
        }
        id
    }
}


impl HostTree {
    /// One run of a dynamic-text binding: the effect recomputed the producer
    /// and the resulting text replaces the slot's content in place. Nothing
    /// else in the tree changes.
    pub fn recompute_text(&mut self, site: usize, value: &str)
        requires
            site < old(self)@.len(),
            old(self)@[site as int] is Text,
        ensures
            final(self)@.len() == old(self)@.len(),
            forall|j: int| 0 <= j < old(self)@.len() && j != site ==> final(self)@[j] == old(
                self,
            )@[j],
            final(self)@[site as int]@ == (HostNodeView::Text { data: value@ }),
    {
        self.set_text_data(site, value);
    }

    /// One run of a dynamic-child binding: the container's entire content is
    /// cleared, then, if the producer returned an element, that element is
    /// rendered from fresh nodes and becomes the container's sole content;
    /// otherwise the container stays empty. There is no partial update and no
    /// reuse of a previously rendered child.
    pub fn recompute_child(&mut self, container: usize, produced: Option<&El>, sites: &mut Vec<
        BindingSite,
    >) -> (r: Option<usize>)
        requires
            container < old(self)@.len(),
            old(self)@[container as int] is Element,
        ensures
            old(self)@.len() <= final(self)@.len(),
            forall|j: int| 0 <= j < old(self)@.len() && j != container ==> final(self)@[j] == old(
                self,
            )@[j],
            final(self)@[container as int] is Element,
            final(self)@[container as int]@->Element_tag == old(
                self,
            )@[container as int]@->Element_tag,
            final(self)@[container as int]@->Element_attrs == old(
                self,
            )@[container as int]@->Element_attrs,
            final(self)@[container as int]@->Element_listeners == old(
                self,
            )@[container as int]@->Element_listeners,
            match produced {
                None => {
                    &&& r is None
                    &&& final(self)@.len() == old(self)@.len()
                    &&& final(self)@[container as int]@->Element_children
                        == Seq::<usize>::empty()
                    &&& final(sites)@ == old(sites)@
                },
                Some(el) => {
                    &&& r matches Some(root) && old(self)@.len() <= root < final(self)@.len()
                        && final(self)@[container as int]@->Element_children == seq![root]
                        && subtree_matches(final(self)@, root as int, *el, old(self)@.len() as int)
                    &&& final(sites)@.len() == old(sites)@.len() + dyn_count(*el)
                    &&& forall|k: int| 0 <= k < old(sites)@.len() ==> final(sites)@[k] == old(
                        sites,
                    )@[k]
                    &&& forall|k: int|
                        old(sites)@.len() <= k < final(sites)@.len() ==> site_ok(
                            final(self)@,
                            #[trigger] final(sites)@[k],
                        ) && final(sites)@[k].node >= old(self)@.len()
                },
            },
    {
        self.clear_children(container);
        match produced {
            None => None,
            Some(el) => {
                let root = self.materialize(el, sites);
                let ghost mid_tree = self@;
                self.append_child(container, root);
                proof {
                    lemma_subtree_matches_frame(
                        mid_tree,
                        self@,
                        root as int,
                        *el,
                        old(self)@.len() as int,
                    );
                    assert(final(self)@[container as int]@->Element_children
                        == Seq::<usize>::empty().push(root));
                    assert(Seq::<usize>::empty().push(root) =~= seq![root]);
                }
                Some(root)
            },
        }
    }
}

/// Recomputing a dynamic text slot with the content it already shows leaves
/// every node of the tree observably unchanged: `pre` and `post` are the tree
/// before and after a recompute whose value equals the slot's current data.
pub proof fn lemma_dyn_text_stable(
    pre: Seq<HostNode>,
    post: Seq<HostNode>,
    site: int,
    value: Seq<char>,
)
    requires
        0 <= site < pre.len(),
        post.len() == pre.len(),
        forall|j: int| 0 <= j < pre.len() && j != site ==> post[j] == pre[j],
        pre[site]@ == (HostNodeView::Text { data: value }),
        post[site]@ == (HostNodeView::Text { data: value }),
    ensures
        forall|j: int| 0 <= j < pre.len() ==> post[j]@ == pre[j]@,
{
}

/// Each time a dynamic-child rebuild produces content, the content is a new
/// child identity: a rebuild only uses nodes at or past the tree's length
/// when it starts, and the tree never shrinks, so the second root cannot be
/// the first one again.
pub proof fn lemma_dyn_child_fresh_identity(
    len_before_first: int,
    len_after_first: int,
    first_root: int,
    len_before_second: int,
    second_root: int,
)
    requires
        len_before_first <= first_root < len_after_first,
        len_after_first <= len_before_second,
        len_before_second <= second_root,
    ensures
        first_root != second_root,
{
}

} // verus!
