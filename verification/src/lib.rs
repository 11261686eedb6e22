//! Configuration registry: named configuration objects (cross-stream
//! correlations and notification targets) kept simultaneously in a durable
//! key-value store and an in-memory index that mirrors it, behind a
//! permission-gated create/read/update/delete surface.

use vstd::prelude::*;

pub mod correlation;
pub mod correlations;
pub mod docs;
pub mod errors;
pub mod gate;
pub mod idgen;
pub mod index;
pub mod store;
pub mod target;
pub mod targets;

verus! {

} // verus!
