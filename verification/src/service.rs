//! Type-keyed store of shared service instances, with snapshot-copy forking.

use vstd::prelude::*;
use std::collections::HashMap;
use crate::{ServiceHandle, TypeTag};

verus! {

broadcast use vstd::std_specs::hash::group_hash_axioms;

/// A registry mapping a stable per-type identifier to a shared service
/// instance. At most one instance is active per type identifier;
/// re-registration replaces the previous one.
pub struct ServiceContainer {
    services: HashMap<TypeTag, ServiceHandle>,
}

impl View for ServiceContainer {
    type V = Map<TypeTag, ServiceHandle>;

    closed spec fn view(&self) -> Map<TypeTag, ServiceHandle> {
        self.services@
    }
}

impl ServiceContainer {
    /// A new registry holds no registrations.
    pub fn new() -> (r: Self)
        ensures
            r@ == Map::<TypeTag, ServiceHandle>::empty(),
    {
        ServiceContainer { services: HashMap::new() }
    }

    /// Inserts or replaces the entry keyed by `tag`: afterwards `tag` maps to
    /// `handle` and every other registration is unchanged.
    pub fn register(&mut self, tag: TypeTag, handle: ServiceHandle)
        ensures
            final(self)@ == old(self)@.insert(tag, handle),
    {
        self.services.insert(tag, handle);
    }

    /// Returns the handle registered for `tag`, or nothing if `tag` was never
    /// registered in this registry.
    pub fn get(&self, tag: TypeTag) -> (r: Option<ServiceHandle>)
        ensures
            r == if self@.contains_key(tag) {
                Some(self@[tag])
            } else {
                None::<ServiceHandle>
            },
    {
        match self.services.get(&tag) {
            Some(h) => Some(*h),
            None => None,
        }
    }

    /// Produces a registry holding, at call time, the same shared instances
    /// under the same tags as this one. Later registration on either registry
    /// does not affect the other.
    pub fn fork(&self) -> (r: Self)
        ensures
            r@ == self@,
    {
        ServiceContainer { services: self.services.clone() }
    }

    /// The underlying tag-to-handle table, read-only.
    pub fn services(&self) -> (r: &HashMap<TypeTag, ServiceHandle>)
        ensures
            r@ == self@,
    {
        &self.services
    }

    /// The underlying tag-to-handle table, writable; writes through the
    /// returned reference are writes to this registry.
    pub fn services_mut(&mut self) -> (r: &mut HashMap<TypeTag, ServiceHandle>)
        ensures
            r@ == old(self)@,
            final(self)@ == final(r)@,
    {
        &mut self.services
    }
}

/// Fork isolation: a fork agrees with its source on every tag as of fork
/// time, and a registration made on either side afterwards is visible there
/// and invisible on the other side — the other side keeps answering exactly
/// as at fork time.
pub proof fn lemma_fork_isolation(
    source: Map<TypeTag, ServiceHandle>,
    fork: Map<TypeTag, ServiceHandle>,
    tag: TypeTag,
    late_tag: TypeTag,
    late_handle: ServiceHandle,
)
    requires
        fork == source,
    ensures
        fork.contains_key(tag) <==> source.contains_key(tag),
        fork.contains_key(tag) ==> fork[tag] == source[tag],
        source.insert(late_tag, late_handle).contains_key(late_tag),
        source.insert(late_tag, late_handle)[late_tag] == late_handle,
        !source.contains_key(late_tag) ==> !fork.contains_key(late_tag),
        tag != late_tag ==> (fork.contains_key(tag) <==> source.insert(
            late_tag,
            late_handle,
        ).contains_key(tag)),
        tag != late_tag && fork.contains_key(tag) ==> fork[tag] == source.insert(
            late_tag,
            late_handle,
        )[tag],
        fork.insert(late_tag, late_handle).contains_key(late_tag),
        fork.insert(late_tag, late_handle)[late_tag] == late_handle,
        !fork.contains_key(late_tag) ==> !source.contains_key(late_tag),
        tag != late_tag ==> (source.contains_key(tag) <==> fork.insert(
            late_tag,
            late_handle,
        ).contains_key(tag)),
{
}

/// Single active registration: after registering under the same tag twice,
/// a lookup of that tag sees only the second handle.
pub proof fn lemma_single_active_registration(
    registry: Map<TypeTag, ServiceHandle>,
    tag: TypeTag,
    first: ServiceHandle,
    second: ServiceHandle,
)
    ensures
        registry.insert(tag, first).insert(tag, second).contains_key(tag),
        registry.insert(tag, first).insert(tag, second)[tag] == second,
{
}

} // verus!

