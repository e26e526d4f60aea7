//! What a tick reports to the outside.

use vstd::prelude::*;

verus! {

/// A notable occurrence of one tick.
#[derive(Clone, Copy, Debug, PartialEq, Eq)]
pub enum Event {
    /// A tower fired: the tower's cell, the target's cell, and a tag that is
    /// always zero.
    Attack((usize, usize), (usize, usize), u64),
}

} // verus!
