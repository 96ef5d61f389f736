//! Terrain kind of a cell, assigned once when the grid is built.

use vstd::prelude::*;
use crate::rng::rng_below;

verus! {

#[derive(Clone, Copy, PartialEq, Eq, Structural, Debug)]
pub enum Terrain {
    Land,
    Water,
}

impl Terrain {
    /// A fair draw between the two kinds.
    pub fn from_random(rng: &mut rand::rngs::StdRng) -> Terrain {
        if rng_below(rng, 2) == 0 {
            Terrain::Land
        } else {
            Terrain::Water
        }
    }

    /// The kind's display name.
    pub fn to_text(&self) -> (r: String)
        ensures
            self is Land ==> r@ == "Land"@,
            self is Water ==> r@ == "Water"@,
    {
        let s = match self {
            Terrain::Land => "Land",
            Terrain::Water => "Water",
        };
        let r = s.to_string();
        proof {
            vstd::string::to_string_from_display_ensures_for_str(s, r);
        }
        r
    }
}

} // verus!
