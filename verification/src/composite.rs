//! Composite operations.

use vstd::prelude::*;

verus! {

/// An operation for compositing two surfaces together.
#[derive(Debug, Clone, Copy, PartialEq, Eq, PartialOrd, Ord, Hash)]
pub enum CompositeOperation {
    /// Clear the destination surface.
    Clear,
}

} // verus!
