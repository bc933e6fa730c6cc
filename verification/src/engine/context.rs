//! Facts about a run that travel with its result.

use vstd::prelude::*;

verus! {

/// How much input was analyzed.
#[derive(Debug, Clone, Copy, PartialEq, Eq, Structural)]
pub struct InputContext {
    pub bytes: usize,
    pub truncated: bool,
}

/// Which pack was used.
#[derive(Debug)]
pub struct PackIdentity {
    pub name: String,
    pub version: String,
}

} // verus!
