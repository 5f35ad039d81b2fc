//! Persistent configuration.  No options exist yet; the type stands so
//! loading and merging can grow around it.

use vstd::prelude::*;

verus! {

/// The persistent configuration; empty for now.
#[derive(Clone, Copy, Debug, PartialEq, Eq, Structural)]
pub struct Config {}

} // verus!
