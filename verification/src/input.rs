//! Whether clicks on game entities are currently acted upon (they are
//! ignored, for instance, while a panel is open over the map).

use vstd::prelude::*;

verus! {

#[derive(Clone, Copy, PartialEq, Eq, Structural, Debug)]
pub struct GameEntitiesClickable(pub bool);

impl Default for GameEntitiesClickable {
    /// Clicks start out enabled.
    fn default() -> (r: Self)
        ensures
            r.0 == true,
    {
        GameEntitiesClickable(true)
    }
}

} // verus!
