//! Schema migrations as data: a version, a name, and the statement to
//! run. The store applies its own idempotent migration on open; this
//! type carries externally-defined steps.

use vstd::prelude::*;

verus! {

/// One schema change: applied in version order and tracked by the
/// store that runs it.
pub struct Migration {
    pub version: u32,
    pub name: &'static str,
    pub sql: &'static str,
}

} // verus!
