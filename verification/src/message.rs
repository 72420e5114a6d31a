//! The message whose address is matched.

use vstd::prelude::*;

verus! {

/// A decoded message, as far as routing looks at it: the address that says
/// where the message is meant to go.
#[derive(Debug, Clone, PartialEq, Eq)]
pub struct OscMessage {
    pub addr: String,
}

} // verus!
