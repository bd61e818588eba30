//! Recipe composition consistency layer.
//!
//! A recipe aggregate is a header row together with a set of ingredient
//! definition rows and the link rows that join them. This crate models the
//! three persisted collections and verifies the protocol that keeps them
//! mutually consistent across create, read, replace and delete operations:
//! bulk set-based inserts paired positionally with freshly generated
//! identifiers, and a delete-then-reinsert strategy instead of row-level
//! diffing.

mod idgen;
pub mod laws;
pub mod manager;
pub mod model;
pub mod store;

use vstd::prelude::*;

verus! {

/// Builds the vector that repeats one recipe identifier once per ingredient,
/// so that a bulk link insert can pair each link row with the same recipe.
pub fn uuids(id: u128, size: usize) -> (r: Vec<u128>)
    ensures
        r@.len() == size,
        forall|j: int| 0 <= j < size ==> r@[j] == id,
{
    let mut id_vec: Vec<u128> = Vec::with_capacity(size);
    for _i in 0..size
        invariant
            id_vec@.len() == _i,
            forall|j: int| 0 <= j < _i ==> id_vec@[j] == id,
    {
        id_vec.push(id);
    }
    id_vec
}

} // verus!
