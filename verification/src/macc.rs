//! The side a unit belongs to.

use vstd::prelude::*;

verus! {

#[derive(Clone, Copy, PartialEq, Eq, Structural, Debug)]
pub enum Team {
    A,
    B,
}

} // verus!
