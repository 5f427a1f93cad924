//! The concurrent map of the `dashmap` crate, declared so that the caches
//! and registries of this library can hold one. What each map holds is
//! named, and each call on it is described, in the module that uses it.

use vstd::prelude::*;

verus! {

/// `dashmap::DashMap`: a concurrent hash map. Opaque here.
#[verifier::external_type_specification]
#[verifier::external_body]
#[verifier::reject_recursive_types(K)]
#[verifier::reject_recursive_types(V)]
#[verifier::reject_recursive_types(S)]
pub struct ExDashMap<K, V, S>(dashmap::DashMap<K, V, S>);

} // verus!
