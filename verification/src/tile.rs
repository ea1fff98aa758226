//! One grid cell: a bomb, a bomb-adjacent cell carrying its neighbor count,
//! or an empty cell with no bombs around it.

use vstd::prelude::*;

verus! {

/// The content of one cell of the board.
///
/// A cell is `BombNeighbor(n)` exactly when it is not a bomb and has `n > 0`
/// bombs among its up-to-eight grid neighbors; it is `Empty` exactly when it
/// is not a bomb and has none.
#[derive(Clone, Copy, Debug, PartialEq, Eq, Structural)]
pub enum Tile {
    Bomb,
    BombNeighbor(usize),
    Empty,
}

/// The single glyph a tile renders to: `*` for a bomb, the decimal digit of
/// the neighbor count, and a space for an empty cell.
pub open spec fn glyph_of(t: Tile) -> Seq<char> {
    match t {
        Tile::Bomb => seq!['*'],
        Tile::BombNeighbor(n) => seq![crate::decimal::digit_char(n as int)],
        Tile::Empty => seq![' '],
    }
}

impl Tile {
    pub open spec fn spec_is_bomb(&self) -> bool {
        *self is Bomb
    }

    /// A neighbor count only ever lies in `1..=8`: a cell has at most eight
    /// neighbors, and a count of zero is represented by `Empty`.
    pub open spec fn count_in_range(&self) -> bool {
        match *self {
            Tile::BombNeighbor(n) => 1 <= n <= 8,
            _ => true,
        }
    }

    #[verifier::when_used_as_spec(spec_is_bomb)]
    pub fn is_bomb(&self) -> (r: bool)
        ensures
            r == self.spec_is_bomb(),
    {
        match self {
            Tile::Bomb => true,
            _ => false,
        }
    }

    /// The tile's one-glyph diagnostic rendering as a string.
    pub fn to_char(&self) -> (r: String)
        requires
            self.count_in_range(),
        ensures
            r@ == glyph_of(*self),
    {
        proof {
            reveal_strlit("*");
            reveal_strlit(" ");
        }
        match self {
            Tile::Bomb => "*".to_owned(),
            Tile::BombNeighbor(n) => crate::decimal::digit_str(*n).to_owned(),
            Tile::Empty => " ".to_owned(),
        }
    }
}

} // verus!
