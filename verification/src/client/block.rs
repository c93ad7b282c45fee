use vstd::prelude::*;

verus! {

/// A chain block as far as the listener needs it: its height and the
/// wall-clock second at which it was produced.
#[derive(Clone, Copy, Debug, PartialEq, Eq, Structural, Hash)]
pub struct Block {
    pub number: u64,
    pub timestamp: i64,
}

} // verus!
