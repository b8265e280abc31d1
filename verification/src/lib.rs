//! Shapes that share base state: the verified part of the library.

use vstd::prelude::*;

pub mod common;
pub mod p5_data_oriented;

verus! {

} // verus!
