//! What kind of thing a selection click landed on.

use vstd::prelude::*;

verus! {

#[derive(Clone, Copy, PartialEq, Eq, Structural, Debug)]
pub enum ClickSignal {
    Hex,
    Macc,
}

} // verus!
