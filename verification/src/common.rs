//! State shared by every shape.

use vstd::prelude::*;

verus! {

/// The colour every shape carries in its base state.
#[derive(Debug, Clone, Copy, PartialEq, Eq, Structural)]
pub enum Color {
    Red,
    Green,
    Blue,
}

} // verus!
