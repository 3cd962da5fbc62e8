//! The ambient environment of a render call — a reactive-scope handle paired
//! with a service registry — and the component lifecycle built on it.

use vstd::prelude::*;
use crate::el::El;
use crate::service::ServiceContainer;
use crate::{ServiceHandle, TypeTag};

verus! {

/// The environment passed to every render call: a handle to the reactive
/// scope the mount root owns, and a service registry scoped to a subtree of
/// components. Contexts are threaded explicitly through render calls; a
/// provider boundary forks a child context.
pub struct ComponentContext {
    /// Handle to the reactive scope that owns the effects installed under
    /// this context. The scope is created by the external reactive engine at
    /// mount; this core only carries the handle along.
    pub scope: u64,
    pub services: ServiceContainer,
}

impl ComponentContext {
    /// The registrations this context can see, as a map from type tag to the
    /// shared instance's handle.
    pub open spec fn registry(&self) -> Map<TypeTag, ServiceHandle> {
        self.services@
    }

    /// A root context: the given scope, and no registrations yet.
    pub fn new(scope: u64) -> (r: Self)
        ensures
            r.scope == scope,
            r.registry() == Map::<TypeTag, ServiceHandle>::empty(),
    {
        ComponentContext { scope, services: ServiceContainer::new() }
    }

    /// Registers a service: visible to this context and to any child context
    /// forked from it afterwards. A second registration under the same tag
    /// supersedes the first.
    pub fn provide(&mut self, tag: TypeTag, handle: ServiceHandle)
        ensures
            final(self).scope == old(self).scope,
            final(self).registry() == old(self).registry().insert(tag, handle),
    {
        self.services.register(tag, handle);
    }

    /// Looks up the service registered under `tag`; empty if no registration
    /// is visible here. Absence is not a failure: the caller decides whether
    /// to fall back or treat it as fatal.
    pub fn inject(&self, tag: TypeTag) -> (r: Option<ServiceHandle>)
        ensures
            r == if self.registry().contains_key(tag) {
                Some(self.registry()[tag])
            } else {
                None::<ServiceHandle>
            },
    {
        self.services.get(tag)
    }

    /// The reactive-scope handle this context carries.
    pub fn scope(&self) -> (r: u64)
        ensures
            r == self.scope,
    {
        self.scope
    }

    /// Forks this context at a provider boundary: the child shares the scope
    /// handle and starts from a value-snapshot of this registry. Entries are
    /// shared instances, but a later registration on either side is invisible
    /// to the other.
    pub fn create_child(&self) -> (r: Self)
        ensures
            r.scope == self.scope,
            r.registry() == self.registry(),
    {
        ComponentContext { scope: self.scope, services: self.services.fork() }
    }
}

/// The two phases of the mounting protocol, in the order the framework runs
/// them for one component instance.
#[derive(Clone, Copy, PartialEq, Eq, Structural, Debug)]
pub enum Phase {
    Init,
    Render,
}

/// A polymorphic render unit: optional one-time initialization, then a render
/// that produces an element. An instance is constructed, initialized at most
/// once, rendered exactly once, then discarded; only the reactive bindings
/// inside the element it produced keep updating.
pub trait Component: Sized {
    /// One-time initialization, run before render; intended for side effects
    /// such as registering services that the render step depends on. Default:
    /// does nothing.
    fn on_init(&mut self, ctx: &mut ComponentContext) {
    }

    /// Produces this component's element. May inject services and fork child
    /// contexts; must not retain the context beyond the call.
    fn render(&self, ctx: &mut ComponentContext) -> El;

    /// The mounting protocol: initialization completes before render begins,
    /// and the instance is consumed, so it renders exactly once.
    fn mount(self, ctx: &mut ComponentContext) -> El {
        let mut component = self;
        component.on_init(ctx);
        component.render(ctx)
    }
}

/// Mount ordering made observable: runs the mounting protocol for one
/// instance and returns, beside the element, the trace of lifecycle phases
/// that ran — always initialization first, then exactly one render.
pub fn mount_traced<C: Component>(component: C, ctx: &mut ComponentContext) -> (r: (El, Vec<
    Phase,
>))
    ensures
        r.1@ =~= seq![Phase::Init, Phase::Render],
{
    let mut component = component;
    let mut trace: Vec<Phase> = Vec::new();
    component.on_init(ctx);
    trace.push(Phase::Init);
    let el = component.render(ctx);
    trace.push(Phase::Render);
    (el, trace)
}

} // verus!
