//! A minimal UI component framework: components render into a host-tree
//! builder, read and write shared services through a hierarchical
//! dependency-injection context, and bind regions of the output tree to an
//! external reactive signal engine so that only the affected text or child
//! regions are recomputed when state changes.

pub mod component;
pub mod el;
pub mod host;
pub mod jsx_parser;
pub mod runtime;
pub mod service;

use vstd::prelude::*;

verus! {

/// A stable identifier for a service type: an explicit registration token
/// chosen by the embedder, one per service type.
pub type TypeTag = u64;

/// An opaque handle to a shared service instance. The embedder maps each
/// handle to the actual shared, mutably-accessible cell; two registries that
/// hold the same handle share the same instance.
pub type ServiceHandle = u64;

} // verus!
