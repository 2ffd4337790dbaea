//! The concurrent map that holds the state kept for each key: the buckets
//! and windows of the rate limiters, and the sessions of the detectors.
//!
//! The map is that of the `dashmap` crate. Each module that keeps state in
//! one gives a name to what its map holds, and states over that name what
//! each operation on the map does.

use dashmap::DashMap;
use vstd::prelude::*;

verus! {

/// `dashmap::DashMap`, a concurrent hash map. What a map holds is known
/// only through the names given to the contents of each kind of map.
#[verifier::external_type_specification]
#[verifier::external_body]
#[verifier::reject_recursive_types(K)]
#[verifier::reject_recursive_types(V)]
#[verifier::reject_recursive_types(S)]
pub struct ExDashMap<K, V, S>(DashMap<K, V, S>);

} // verus!
