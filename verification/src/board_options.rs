//! The configuration a caller hands the board engine: grid dimensions and how
//! many bombs to place.

use vstd::prelude::*;

verus! {

/// Board configuration: the grid is `width` by `height` cells and carries
/// `bomb_count` bombs.
#[derive(Clone, Copy)]
pub struct BoardOptions {
    pub width: usize,
    pub height: usize,
    pub bomb_count: usize,
}

impl Default for BoardOptions {
    /// The reference configuration: a 15 by 15 grid with 30 bombs.
    fn default() -> (r: Self)
        ensures
            r.width == 15,
            r.height == 15,
            r.bomb_count == 30,
    {
        BoardOptions { width: 15, height: 15, bomb_count: 30 }
    }
}

} // verus!
