//! The direction tag a channel message carries.

use vstd::prelude::*;

verus! {

/// Whether a message came from a user or goes out to one.
#[derive(Debug, Clone, Copy, PartialEq, Eq, Structural)]
pub enum MessageDirection {
    Incoming,
    Outgoing,
}

} // verus!
