//! A builder wrapping one host-tree element: it accumulates static
//! attributes, text and children, and records the dynamic regions (dynamic
//! text, dynamic child) that the reactive engine will keep updating.

use vstd::prelude::*;
use crate::component::{Component, ComponentContext};

verus! {

/// One accumulated child of an element under construction.
pub enum ElChild {
    /// A static text node.
    Text(String),
    /// An already-built element, appended as a child.
    Node(El),
    /// A text node whose content an external effect recomputes; it is created
    /// empty and filled on the effect's first run.
    DynText,
    /// An isolated container element whose entire content is cleared and
    /// rebuilt by an external effect.
    DynChild,
}

/// A host-tree element under construction: one tag, its static attributes and
/// event listeners, and its children in left-to-right order.
pub struct El {
    pub tag: String,
    pub attrs: Vec<(String, String)>,
    pub listeners: Vec<(String, u64)>,
    pub children: Vec<ElChild>,
}

impl El {
    /// A fresh element of the given tag, with no attributes, listeners or
    /// children yet.
    pub fn new(tag_name: &str) -> (r: El)
        ensures
            r.tag@ == tag_name@,
            r.attrs@.len() == 0,
            r.listeners@.len() == 0,
            r.children@.len() == 0,
    {
        El {
            tag: tag_name.to_owned(),
            attrs: Vec::new(),
            listeners: Vec::new(),
            children: Vec::new(),
        }
    }

    /// Sets a static attribute; attributes keep their left-to-right order.
    pub fn attr(self, attr: &str, val: &str) -> (r: El)
        ensures
            r.tag == self.tag,
            r.listeners == self.listeners,
            r.children == self.children,
            r.attrs@.len() == self.attrs@.len() + 1,
            forall|i: int| 0 <= i < self.attrs@.len() ==> r.attrs@[i] == self.attrs@[i],
            r.attrs@.last().0@ == attr@,
            r.attrs@.last().1@ == val@,
    {
        let mut r = self;
        r.attrs.push((attr.to_owned(), val.to_owned()));
        r
    }

    /// Appends a static text child.
    pub fn text(self, data: &str) -> (r: El)
        ensures
            r.tag == self.tag,
            r.listeners == self.listeners,
            r.attrs == self.attrs,
            r.children@.len() == self.children@.len() + 1,
            forall|i: int| 0 <= i < self.children@.len() ==> r.children@[i] == self.children@[i],
            r.children@.last() matches ElChild::Text(d) && d@ == data@,
    {
        let mut r = self;
        r.children.push(ElChild::Text(data.to_owned()));
        r
    }

    /// Appends an already-built element as a child; the child passes into the
    /// parent and has no further identity of its own.
    pub fn child(self, node: El) -> (r: El)
        ensures
            r.tag == self.tag,
            r.listeners == self.listeners,
            r.attrs == self.attrs,
            r.children@.len() == self.children@.len() + 1,
            forall|i: int| 0 <= i < self.children@.len() ==> r.children@[i] == self.children@[i],
            r.children@.last() == ElChild::Node(node),
    {
        let mut r = self;
        r.children.push(ElChild::Node(node));
        r
    }

    /// Registers a host event listener under the given event name. The
    /// listener itself lives with the embedder; it is recorded here by an
    /// opaque token.
    pub fn on(self, event_name: &str, listener: u64) -> (r: El)
        ensures
            r.tag == self.tag,
            r.attrs == self.attrs,
            r.children == self.children,
            r.listeners@.len() == self.listeners@.len() + 1,
            forall|i: int| 0 <= i < self.listeners@.len() ==> r.listeners@[i]
                == self.listeners@[i],
            r.listeners@.last().0@ == event_name@,
            r.listeners@.last().1 == listener,
    {
        let mut r = self;
        r.listeners.push((event_name.to_owned(), listener));
        r
    }

    /// Runs the component lifecycle (initialize once, then render once) and
    /// appends the element it produced as a child.
    pub fn component<C: Component>(self, component: C, ctx: &mut ComponentContext) -> (r: El)
        ensures
            r.tag == self.tag,
            r.listeners == self.listeners,
            r.attrs == self.attrs,
            r.children@.len() == self.children@.len() + 1,
            forall|i: int| 0 <= i < self.children@.len() ==> r.children@[i] == self.children@[i],
            r.children@.last() is Node,
    {
        let el = component.mount(ctx);
        let mut r = self;
        r.children.push(ElChild::Node(el));
        r
    }

    /// Appends a text node that an external effect keeps recomputing; the
    /// node starts empty, and the effect's first run fills in the initial
    /// content.
    pub fn dyn_text(self) -> (r: El)
        ensures
            r.tag == self.tag,
            r.listeners == self.listeners,
            r.attrs == self.attrs,
            r.children@.len() == self.children@.len() + 1,
            forall|i: int| 0 <= i < self.children@.len() ==> r.children@[i] == self.children@[i],
            r.children@.last() is DynText,
    {
        let mut r = self;
        r.children.push(ElChild::DynText);
        r
    }

    /// Appends an isolated container element; on the external effect's first
    /// run and on every dependency change, the container's entire content is
    /// cleared and rebuilt from what the producer returns.
    pub fn dyn_child(self) -> (r: El)
        ensures
            r.tag == self.tag,
            r.listeners == self.listeners,
            r.attrs == self.attrs,
            r.children@.len() == self.children@.len() + 1,
            forall|i: int| 0 <= i < self.children@.len() ==> r.children@[i] == self.children@[i],
            r.children@.last() is DynChild,
    {
        let mut r = self;
        r.children.push(ElChild::DynChild);
        r
    }
}

} // verus!
