//! Bootstraps a mount: one root context bound to a fresh reactive scope, the
//! root component's lifecycle, and attachment of the produced element to the
//! host root.

use vstd::prelude::*;
use crate::component::{Component, ComponentContext};
use crate::el::El;
use crate::host::{BindingSite, HostTree};

verus! {

/// Mounts `root_component` under the node `host_root` of `tree`: builds a
/// root context around the externally created reactive scope, runs the
/// component's lifecycle (initialize, then render exactly once), renders the
/// result into a fresh wrapper element, and appends that wrapper to the host
/// root. Returns the wrapper's node id and the root context, and appends one
/// entry to `sites` per dynamic slot installed, for the embedder to bind
/// effects to.
///
/// Separate mounts share nothing: each call starts from a fresh context, and
/// only `host_root`'s child list changes among the nodes that existed before
/// the call. A missing host root is fatal at startup; the embedder checks for
/// it before calling.
pub fn start_app<C: Component>(
    root_component: C,
    scope: u64,
    tree: &mut HostTree,
    host_root: usize,
    sites: &mut Vec<BindingSite>,
) -> (r: (usize, ComponentContext))
    requires
        host_root < old(tree)@.len(),
        old(tree)@[host_root as int] is Element,
    ensures
        old(tree)@.len() < final(tree)@.len(),
        forall|j: int|
            0 <= j < old(tree)@.len() && j != host_root ==> final(tree)@[j] == old(tree)@[j],
        final(tree)@[host_root as int] is Element,
        final(tree)@[host_root as int]@->Element_tag == old(tree)@[host_root as int]@->Element_tag,
        final(tree)@[host_root as int]@->Element_attrs == old(
            tree,
        )@[host_root as int]@->Element_attrs,
        final(tree)@[host_root as int]@->Element_listeners == old(
            tree,
        )@[host_root as int]@->Element_listeners,
        final(tree)@[host_root as int]@->Element_children == old(
            tree,
        )@[host_root as int]@->Element_children.push(r.0),
        old(tree)@.len() <= r.0 < final(tree)@.len(),
        final(tree)@[r.0 as int] is Element,
        final(tree)@[r.0 as int]@->Element_tag == "div"@,
        final(tree)@[r.0 as int]@->Element_attrs == Seq::<(Seq<char>, Seq<char>)>::empty(),
        final(tree)@[r.0 as int]@->Element_children.len() == 1,
        forall|k: int| 0 <= k < old(sites)@.len() ==> final(sites)@[k] == old(sites)@[k],
        forall|k: int|
            old(sites)@.len() <= k < final(sites)@.len() ==> crate::host::site_ok(
                final(tree)@,
                #[trigger] final(sites)@[k],
            ) && final(sites)@[k].node >= old(tree)@.len(),
{
    let mut ctx = ComponentContext::new(scope);
    let root_el = El::new("div").component(root_component, &mut ctx);
    let root_id = tree.materialize(&root_el, sites);
    tree.append_child(host_root, root_id);
    (root_id, ctx)
}

} // verus!
