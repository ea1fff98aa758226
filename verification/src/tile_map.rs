//! The board itself: a fixed grid of tiles with randomized bomb placement,
//! neighbor counting, point and neighborhood queries, and a checker for the
//! board's representation invariant.

use vstd::prelude::*;
use crate::coordinates::Coordinates;
use crate::counting::count_bombs;
use crate::counting::lemma_count_bombs_bounds;
use crate::counting::lemma_count_bombs_full;
use crate::counting::lemma_count_bombs_pointwise;
use crate::counting::lemma_count_bombs_take_all;
use crate::counting::lemma_count_bombs_take_step;
use crate::counting::lemma_count_bombs_update;
use crate::counting::lemma_count_bombs_zero;
use crate::tile::Tile;
use crate::tile::glyph_of;
use rand::Rng;
use vstd::string::StringExecFns;

verus! {

/// Why a board query was refused.
#[derive(Clone, Copy, Debug, PartialEq, Eq, Structural)]
pub enum BoardError {
    /// The queried coordinate lies outside the grid.
    OutOfBounds,
}

/// One if the position lies inside a `w` by `h` grid, zero otherwise.
pub open spec fn in_grid_tally(w: int, h: int, x: int, y: int) -> int {
    if 0 <= x < w && 0 <= y < h {
        1
    } else {
        0
    }
}

/// How many of the eight neighbor candidates of `(cx, cy)` lie inside a `w`
/// by `h` grid: the candidates are the three-by-three block centered on the
/// position, without the position itself.
pub open spec fn neighbor_candidates(w: int, h: int, cx: int, cy: int) -> int {
    in_grid_tally(w, h, cx - 1, cy - 1) + in_grid_tally(w, h, cx, cy - 1) + in_grid_tally(
        w,
        h,
        cx + 1,
        cy - 1,
    ) + in_grid_tally(w, h, cx - 1, cy) + in_grid_tally(w, h, cx + 1, cy) + in_grid_tally(
        w,
        h,
        cx - 1,
        cy + 1,
    ) + in_grid_tally(w, h, cx, cy + 1) + in_grid_tally(w, h, cx + 1, cy + 1)
}

/// A row-major index stays below the grid area.
pub(crate) proof fn lemma_row_major_bound(x: int, y: int, w: int, h: int)
    requires
        0 <= x < w,
        0 <= y < h,
    ensures
        0 <= y * w + x < w * h,
{
    assert(y * w + x < w * h) by (nonlinear_arith)
        requires
            0 <= x < w,
            0 <= y < h,
    ;
}

/// Distinct in-bounds positions have distinct row-major indices.
pub(crate) proof fn lemma_row_major_injective(x1: int, y1: int, x2: int, y2: int, w: int)
    requires
        0 <= x1 < w,
        0 <= x2 < w,
        0 <= y1,
        0 <= y2,
        y1 * w + x1 == y2 * w + x2,
    ensures
        x1 == x2,
        y1 == y2,
{
    assert(x1 == x2 && y1 == y2) by (nonlinear_arith)
        requires
            0 <= x1 < w,
            0 <= x2 < w,
            0 <= y1,
            0 <= y2,
            y1 * w + x1 == y2 * w + x2,
    ;
}

/// The row-major index of a coordinate on a grid `w` cells wide.
pub open spec fn row_index(c: Coordinates, w: int) -> int {
    c.y * w + c.x
}

/// The board: `width * height` tiles in row-major order, together with the
/// number of bombs among them.
pub struct TileMap {
    bomb_count: usize,
    height: usize,
    width: usize,
    tiles: Vec<Tile>,
}

impl TileMap {
    /// The grid is held in one vector, so its area fits in `usize`.
    proof fn lemma_area_fits(&self)
        requires
            self.grid_wf(),
        ensures
            self.spec_width() * self.spec_height() <= usize::MAX,
    {
        vstd::std_specs::vec::axiom_spec_len(&self.tiles);
    }

    pub closed spec fn spec_width(&self) -> usize {
        self.width
    }

    pub closed spec fn spec_height(&self) -> usize {
        self.height
    }

    pub closed spec fn spec_bomb_count(&self) -> usize {
        self.bomb_count
    }

    /// The grid contents in row-major order.
    pub closed spec fn grid(&self) -> Seq<Tile> {
        self.tiles@
    }

    /// The structural invariant every board keeps: positive dimensions, a
    /// grid of exactly `width * height` tiles, and neighbor counts within
    /// `1..=8`.
    pub open spec fn grid_wf(&self) -> bool {
        &&& 0 < self.spec_width()
        &&& 0 < self.spec_height()
        &&& self.grid().len() == self.spec_width() * self.spec_height()
        &&& forall|i: int|
            0 <= i < self.grid().len() ==> (#[trigger] self.grid()[i]).count_in_range()
    }

    /// Whether a coordinate lies on the grid.
    pub open spec fn in_bounds(&self, c: Coordinates) -> bool {
        c.x < self.spec_width() && c.y < self.spec_height()
    }

    /// The row-major index of a coordinate.
    pub open spec fn index_of(&self, c: Coordinates) -> int {
        row_index(c, self.spec_width() as int)
    }

    /// The tile at position `(x, y)` of the grid.
    pub open spec fn tile_at_pos(&self, x: int, y: int) -> Tile {
        self.grid()[y * self.spec_width() + x]
    }

    /// Whether the position is on the grid and holds a bomb.
    pub open spec fn is_bomb_at(&self, x: int, y: int) -> bool {
        &&& 0 <= x < self.spec_width()
        &&& 0 <= y < self.spec_height()
        &&& self.grid()[y * self.spec_width() + x] is Bomb
    }

    /// How many bombs sit in the up-to-eight neighborhood of `(x, y)`: the
    /// three-by-three block centered there, without the position itself,
    /// clipped to the grid.
    pub open spec fn adj_mines(&self, x: int, y: int) -> int {
        bool_tally(self.is_bomb_at(x - 1, y - 1)) + bool_tally(self.is_bomb_at(x, y - 1))
            + bool_tally(self.is_bomb_at(x + 1, y - 1)) + bool_tally(self.is_bomb_at(x - 1, y))
            + bool_tally(self.is_bomb_at(x + 1, y)) + bool_tally(self.is_bomb_at(x - 1, y + 1))
            + bool_tally(self.is_bomb_at(x, y + 1)) + bool_tally(self.is_bomb_at(x + 1, y + 1))
    }

    /// The cell at `(x, y)` is labeled consistently with the bombs around
    /// it: a non-bomb cell is `BombNeighbor(n)` exactly when `n > 0` bombs
    /// sit next to it, and `Empty` exactly when none do.
    pub open spec fn cell_ok(&self, x: int, y: int) -> bool {
        match self.grid()[y * self.spec_width() + x] {
            Tile::Bomb => true,
            Tile::BombNeighbor(n) => n == self.adj_mines(x, y) && n > 0,
            Tile::Empty => self.adj_mines(x, y) == 0,
        }
    }

    /// Every cell of the grid is labeled consistently.
    pub open spec fn counts_ok(&self) -> bool {
        forall|x: int, y: int|
            0 <= x < self.spec_width() && 0 <= y < self.spec_height() ==> #[trigger] self.cell_ok(
                x,
                y,
            )
    }

    /// The board's full representation invariant: the structural invariant,
    /// a stored bomb count that matches the grid, and consistent neighbor
    /// labels everywhere.
    pub open spec fn wf(&self) -> bool {
        &&& self.grid_wf()
        &&& count_bombs(self.grid()) == self.spec_bomb_count()
        &&& self.counts_ok()
    }

    /// A board in its initial state: no bombs placed yet.
    pub open spec fn unpopulated(&self) -> bool {
        &&& self.spec_bomb_count() == 0
        &&& forall|i: int| 0 <= i < self.grid().len() ==> #[trigger] self.grid()[i] is Empty
    }

    #[verifier::when_used_as_spec(spec_width)]
    pub fn width(&self) -> (r: usize)
        ensures
            r == self.spec_width(),
    {
        self.width
    }

    #[verifier::when_used_as_spec(spec_height)]
    pub fn height(&self) -> (r: usize)
        ensures
            r == self.spec_height(),
    {
        self.height
    }

    #[verifier::when_used_as_spec(spec_bomb_count)]
    pub fn bomb_count(&self) -> (r: usize)
        ensures
            r == self.spec_bomb_count(),
    {
        self.bomb_count
    }

    /// The tile at an in-bounds coordinate.
    pub fn tile(&self, coordinates: &Coordinates) -> (r: &Tile)
        requires
            self.grid_wf(),
            self.in_bounds(*coordinates),
        ensures
            *r == self.grid()[self.index_of(*coordinates)],
    {
        proof {
            self.lemma_area_fits();
            lemma_row_major_bound(
                coordinates.x as int,
                coordinates.y as int,
                self.spec_width() as int,
                self.spec_height() as int,
            );
        }
        &self.tiles[coordinates.y * self.width + coordinates.x]
    }

    /// The tile at a coordinate, or an error for a coordinate off the grid.
    pub fn tile_at(&self, coordinates: &Coordinates) -> (r: Result<Tile, BoardError>)
        requires
            self.grid_wf(),
        ensures
            self.in_bounds(*coordinates) ==> r == Ok::<Tile, BoardError>(
                self.grid()[self.index_of(*coordinates)],
            ),
            !self.in_bounds(*coordinates) ==> r == Err::<Tile, BoardError>(BoardError::OutOfBounds),
    {
        if coordinates.x < self.width && coordinates.y < self.height {
            Ok(*self.tile(coordinates))
        } else {
            Err(BoardError::OutOfBounds)
        }
    }

    /// Replaces the tile at an in-bounds coordinate.
    fn set_tile(&mut self, coordinates: &Coordinates, tile: Tile)
        requires
            old(self).grid_wf(),
            old(self).in_bounds(*coordinates),
            tile.count_in_range(),
        ensures
            final(self).grid() == old(self).grid().update(old(self).index_of(*coordinates), tile),
            final(self).spec_width() == old(self).spec_width(),
            final(self).spec_height() == old(self).spec_height(),
            final(self).spec_bomb_count() == old(self).spec_bomb_count(),
            final(self).grid_wf(),
    {
        proof {
            self.lemma_area_fits();
            lemma_row_major_bound(
                coordinates.x as int,
                coordinates.y as int,
                self.spec_width() as int,
                self.spec_height() as int,
            );
        }
        let i = coordinates.y * self.width + coordinates.x;
        self.tiles.set(i, tile);
    }

    /// A fresh board with the given dimensions, no bombs, and every cell
    /// `Empty`.
    pub fn empty(width: usize, height: usize) -> (r: TileMap)
        requires
            0 < width,
            0 < height,
            width * height <= usize::MAX,
        ensures
            r.spec_width() == width,
            r.spec_height() == height,
            r.spec_bomb_count() == 0,
            r.unpopulated(),
            r.wf(),
    {
        let total = width * height;
        let mut tiles: Vec<Tile> = Vec::new();
        let mut i: usize = 0;
        while i < total
            invariant
                i <= total,
                tiles@.len() == i,
                forall|j: int| 0 <= j < i ==> #[trigger] tiles@[j] is Empty,
            decreases total - i,
        {
            tiles.push(Tile::Empty);
            i = i + 1;
        }
        let this = TileMap { bomb_count: 0, height, width, tiles };
        proof {
            lemma_count_bombs_zero(this.grid());
            assert forall|x: int, y: int|
                0 <= x < this.spec_width() && 0 <= y < this.spec_height() implies #[trigger] this
                .cell_ok(x, y) by {
                lemma_row_major_bound(x, y, this.spec_width() as int, this.spec_height() as int);
                lemma_no_bombs_adj_zero(&this, x, y);
            }
        }
        this
    }

    /// Whether the position is on the grid and free of a bomb.
    pub open spec fn safe_at(&self, x: int, y: int) -> bool {
        &&& 0 <= x < self.spec_width()
        &&& 0 <= y < self.spec_height()
        &&& !(self.grid()[y * self.spec_width() + x] is Bomb)
    }

    /// The position as a one-element sequence if it is safe, else nothing.
    pub open spec fn safe_singleton(&self, x: int, y: int) -> Seq<Coordinates> {
        if self.safe_at(x, y) {
            seq![Coordinates { x: x as usize, y: y as usize }]
        } else {
            Seq::empty()
        }
    }

    /// The safe positions of the three-by-three block centered on
    /// `(cx, cy)`, the center included, in row-major order.
    pub open spec fn safe_block(&self, cx: int, cy: int) -> Seq<Coordinates> {
        self.safe_singleton(cx - 1, cy - 1) + self.safe_singleton(cx, cy - 1)
            + self.safe_singleton(cx + 1, cy - 1) + self.safe_singleton(cx - 1, cy)
            + self.safe_singleton(cx, cy) + self.safe_singleton(cx + 1, cy) + self.safe_singleton(
            cx - 1,
            cy + 1,
        ) + self.safe_singleton(cx, cy + 1) + self.safe_singleton(cx + 1, cy + 1)
    }

    /// Appends the in-bounds position `(x, y)` to `found` if it is free of a
    /// bomb.
    fn push_if_safe(&self, found: &mut Vec<Coordinates>, x: usize, y: usize)
        requires
            self.grid_wf(),
            x < self.spec_width(),
            y < self.spec_height(),
        ensures
            final(found)@ == old(found)@ + self.safe_singleton(x as int, y as int),
    {
        if !self.tile(&Coordinates { x, y }).is_bomb() {
            found.push(Coordinates { x, y });
        } else {
            proof {
                assert(found@ =~= old(found)@ + self.safe_singleton(x as int, y as int));
            }
        }
    }

    /// The safe coordinates in the three-by-three block centered on an
    /// in-bounds coordinate — the coordinate itself included when it is
    /// safe — clipped to the grid, in row-major order. This is the seed set
    /// a reveal flood fill grows from.
    pub fn safe_tiles_around(&self, coordinates: &Coordinates) -> (r: Vec<Coordinates>)
        requires
            self.grid_wf(),
            self.in_bounds(*coordinates),
        ensures
            r@ == self.safe_block(coordinates.x as int, coordinates.y as int),
    {
        let x = coordinates.x;
        let y = coordinates.y;
        let mut found: Vec<Coordinates> = Vec::new();
        if y > 0 {
            if x > 0 {
                self.push_if_safe(&mut found, x - 1, y - 1);
            }
            self.push_if_safe(&mut found, x, y - 1);
            if x + 1 < self.width {
                self.push_if_safe(&mut found, x + 1, y - 1);
            }
        }
        if x > 0 {
            self.push_if_safe(&mut found, x - 1, y);
        }
        self.push_if_safe(&mut found, x, y);
        if x + 1 < self.width {
            self.push_if_safe(&mut found, x + 1, y);
        }
        if y + 1 < self.height {
            if x > 0 {
                self.push_if_safe(&mut found, x - 1, y + 1);
            }
            self.push_if_safe(&mut found, x, y + 1);
            if x + 1 < self.width {
                self.push_if_safe(&mut found, x + 1, y + 1);
            }
        }
        proof {
            assert(found@ =~= self.safe_block(x as int, y as int));
        }
        found
    }

    /// Relabels every non-bomb cell from the bombs around it: a cell with
    /// `n > 0` bombs among its neighbors becomes `BombNeighbor(n)`, and one
    /// with none stays `Empty`. The bombs themselves do not move.
    fn update_neighbors(&mut self)
        requires
            old(self).grid_wf(),
            forall|i: int|
                0 <= i < old(self).grid().len() ==> ((#[trigger] old(self).grid()[i]) is Bomb || old(
                    self,
                ).grid()[i] is Empty),
        ensures
            final(self).grid_wf(),
            final(self).spec_width() == old(self).spec_width(),
            final(self).spec_height() == old(self).spec_height(),
            final(self).spec_bomb_count() == old(self).spec_bomb_count(),
            final(self).grid().len() == old(self).grid().len(),
            forall|i: int|
                0 <= i < old(self).grid().len() ==> ((#[trigger] final(self).grid()[i] is Bomb)
                    <==> (old(self).grid()[i] is Bomb)),
            count_bombs(final(self).grid()) == count_bombs(old(self).grid()),
            final(self).counts_ok(),
    {
        let ghost w0 = self.spec_width();
        let ghost h0 = self.spec_height();
        let ghost g0 = self.grid();
        let mut x: usize = 0;
        while x < self.width
            invariant
                self.grid_wf(),
                self.spec_width() == w0,
                self.spec_height() == h0,
                self.spec_bomb_count() == old(self).spec_bomb_count(),
                self.grid().len() == g0.len(),
                x <= w0,
                forall|i: int| 0 <= i < g0.len() ==> ((#[trigger] g0[i]) is Bomb || g0[i] is Empty),
                forall|i: int|
                    0 <= i < g0.len() ==> ((#[trigger] self.grid()[i] is Bomb) <==> (
                    g0[i] is Bomb)),
                forall|a: int, b: int|
                    0 <= a < w0 && 0 <= b < h0 && a >= x ==> #[trigger] self.tile_at_pos(a, b)
                        == g0[b * w0 + a],
                forall|a: int, b: int|
                    0 <= a < w0 && 0 <= b < h0 && a < x ==> #[trigger] self.cell_ok(a, b),
            decreases w0 - x,
        {
            let mut y: usize = 0;
            while y < self.height
                invariant
                    self.grid_wf(),
                    self.spec_width() == w0,
                    self.spec_height() == h0,
                    self.spec_bomb_count() == old(self).spec_bomb_count(),
                    self.grid().len() == g0.len(),
                    x < w0,
                    y <= h0,
                    forall|i: int|
                        0 <= i < g0.len() ==> ((#[trigger] g0[i]) is Bomb || g0[i] is Empty),
                    forall|i: int|
                        0 <= i < g0.len() ==> ((#[trigger] self.grid()[i] is Bomb) <==> (
                        g0[i] is Bomb)),
                    forall|a: int, b: int|
                        0 <= a < w0 && 0 <= b < h0 && (a > x || (a == x && b >= y))
                            ==> #[trigger] self.tile_at_pos(a, b) == g0[b * w0 + a],
                    forall|a: int, b: int|
                        0 <= a < w0 && 0 <= b < h0 && (a < x || (a == x && b < y))
                            ==> #[trigger] self.cell_ok(a, b),
                decreases h0 - y,
            {
                let coordinates = Coordinates { x, y };
                proof {
                    lemma_row_major_bound(x as int, y as int, w0 as int, h0 as int);
                }
                if !self.tile(&coordinates).is_bomb() {
                    let around = self.bomb_count_around(&coordinates);
                    if around > 0 {
                        let ghost pre = *self;
                        self.set_tile(&coordinates, Tile::BombNeighbor(around));
                        proof {
                            let idx = (y as int) * w0 + x as int;
                            assert forall|i: int|
                                0 <= i < g0.len() && i != idx implies #[trigger] self.grid()[i]
                                == pre.grid()[i] by {}
                            assert forall|a: int, b: int| #[trigger] self.is_bomb_at(a, b)
                                == pre.is_bomb_at(a, b) by {
                                if 0 <= a < w0 && 0 <= b < h0 {
                                    lemma_row_major_bound(a, b, w0 as int, h0 as int);
                                    if b * w0 + a == idx {
                                        lemma_row_major_injective(
                                            a,
                                            b,
                                            x as int,
                                            y as int,
                                            w0 as int,
                                        );
                                    }
                                }
                            }
                            assert forall|i: int|
                                0 <= i < g0.len() implies ((#[trigger] self.grid()[i] is Bomb)
                                <==> (g0[i] is Bomb)) by {
                                if i != idx {
                                    assert(self.grid()[i] == pre.grid()[i]);
                                }
                            }
                            assert forall|a: int, b: int|
                                0 <= a < w0 && 0 <= b < h0 && (a > x || (a == x && b
                                    > y)) implies #[trigger] self.tile_at_pos(a, b) == g0[b * w0
                                + a] by {
                                lemma_row_major_bound(a, b, w0 as int, h0 as int);
                                if b * w0 + a == idx {
                                    lemma_row_major_injective(a, b, x as int, y as int, w0 as int);
                                }
                                assert(self.grid()[b * w0 + a] == pre.grid()[b * w0 + a]);
                                assert(pre.tile_at_pos(a, b) == g0[b * w0 + a]);
                            }
                            assert forall|a: int, b: int|
                                0 <= a < w0 && 0 <= b < h0 && (a < x || (a == x && b
                                    <= y)) implies #[trigger] self.cell_ok(a, b) by {
                                lemma_row_major_bound(a, b, w0 as int, h0 as int);
                                if a == x as int && b == y as int {
                                    assert(self.grid()[idx] == Tile::BombNeighbor(around));
                                } else {
                                    if b * w0 + a == idx {
                                        lemma_row_major_injective(
                                            a,
                                            b,
                                            x as int,
                                            y as int,
                                            w0 as int,
                                        );
                                    }
                                    assert(self.grid()[b * w0 + a] == pre.grid()[b * w0 + a]);
                                    assert(pre.cell_ok(a, b));
                                }
                            }
                        }
                    } else {
                        proof {
                            let idx = (y as int) * w0 + x as int;
                            assert(g0[idx] is Bomb || g0[idx] is Empty);
                            assert(self.tile_at_pos(x as int, y as int) == g0[idx]);
                            assert(self.cell_ok(x as int, y as int));
                        }
                    }
                } else {
                    proof {
                        assert(self.cell_ok(x as int, y as int));
                    }
                }
                y = y + 1;
            }
            x = x + 1;
        }
        proof {
            assert forall|x: int, y: int|
                0 <= x < self.spec_width() && 0 <= y
                    < self.spec_height() implies #[trigger] self.cell_ok(x, y) by {}
            lemma_count_bombs_pointwise(self.grid(), g0);
        }
    }

    /// The row-major index of the `k`-th non-bomb cell of the grid, in scan
    /// order.
    fn kth_free_index(&self, k: usize) -> (r: usize)
        requires
            self.grid_wf(),
            k < self.grid().len() - count_bombs(self.grid()),
        ensures
            r < self.grid().len(),
            !(self.grid()[r as int] is Bomb),
            k == r - count_bombs(self.grid().take(r as int)),
    {
        let len = self.tiles.len();
        let mut i: usize = 0;
        let mut seen: usize = 0;
        let mut found = false;
        let mut r: usize = 0;
        while !found
            invariant
                self.grid_wf(),
                len == self.grid().len(),
                k < len - count_bombs(self.grid()),
                !found ==> {
                    &&& i <= len
                    &&& seen <= k
                    &&& count_bombs(self.grid().take(i as int)) <= i
                    &&& seen == i - count_bombs(self.grid().take(i as int))
                },
                found ==> {
                    &&& r < len
                    &&& !(self.grid()[r as int] is Bomb)
                    &&& k == r - count_bombs(self.grid().take(r as int))
                },
            decreases len - i, (if found { 0int } else { 1int }),
        {
            proof {
                lemma_count_bombs_take_all(self.grid());
                assert(i < len);
                lemma_count_bombs_take_step(self.grid(), i as int);
                lemma_count_bombs_bounds(self.grid().take(i as int));
            }
            if !self.tiles[i].is_bomb() {
                if seen == k {
                    r = i;
                    found = true;
                } else {
                    seen = seen + 1;
                    i = i + 1;
                }
            } else {
                i = i + 1;
            }
        }
        r
    }

    /// Turns the `k`-th non-bomb cell into a bomb.
    fn place_kth_free(&mut self, k: usize)
        requires
            old(self).grid_wf(),
            k < old(self).grid().len() - count_bombs(old(self).grid()),
        ensures
            final(self).grid_wf(),
            final(self).spec_width() == old(self).spec_width(),
            final(self).spec_height() == old(self).spec_height(),
            final(self).spec_bomb_count() == old(self).spec_bomb_count(),
            final(self).grid().len() == old(self).grid().len(),
            count_bombs(final(self).grid()) == count_bombs(old(self).grid()) + 1,
            forall|i: int|
                0 <= i < old(self).grid().len() ==> (#[trigger] final(self).grid()[i] == old(
                    self,
                ).grid()[i] || final(self).grid()[i] is Bomb),
    {
        let i = self.kth_free_index(k);
        proof {
            lemma_count_bombs_update(self.grid(), i as int, Tile::Bomb);
        }
        self.tiles.set(i, Tile::Bomb);
    }

    /// Scatters `bomb_count` bombs over the empty board, each drawn
    /// uniformly among the cells still free, then records the bomb count
    /// and derives every non-bomb cell's neighbor label.
    pub fn set_bombs(&mut self, bomb_count: usize)
        requires
            old(self).grid_wf(),
            old(self).unpopulated(),
            bomb_count <= old(self).spec_width() * old(self).spec_height(),
        ensures
            final(self).grid_wf(),
            final(self).spec_width() == old(self).spec_width(),
            final(self).spec_height() == old(self).spec_height(),
            final(self).spec_bomb_count() == bomb_count,
            final(self).wf(),
    {
        let ghost w0 = self.spec_width();
        let ghost h0 = self.spec_height();
        proof {
            self.lemma_area_fits();
            assert forall|i: int| 0 <= i < self.grid().len() implies !(#[trigger] self.grid()[i]
                is Bomb) by {}
            lemma_count_bombs_zero(self.grid());
        }
        let total = self.width * self.height;
        let mut placed: usize = 0;
        while placed < bomb_count
            invariant
                self.grid_wf(),
                self.spec_width() == w0,
                self.spec_height() == h0,
                self.spec_bomb_count() == old(self).spec_bomb_count(),
                total == self.grid().len(),
                placed <= bomb_count,
                bomb_count <= total,
                count_bombs(self.grid()) == placed,
                forall|i: int|
                    0 <= i < self.grid().len() ==> ((#[trigger] self.grid()[i]) is Bomb || self
                        .grid()[i] is Empty),
            decreases bomb_count - placed,
        {
            let k = random_below(total - placed);
            let ghost pre = *self;
            self.place_kth_free(k);
            proof {
                assert forall|i: int|
                    0 <= i < self.grid().len() implies ((#[trigger] self.grid()[i]) is Bomb || self
                    .grid()[i] is Empty) by {
                    assert(self.grid()[i] == pre.grid()[i] || self.grid()[i] is Bomb);
                }
            }
            placed = placed + 1;
        }
        self.bomb_count = bomb_count;
        self.update_neighbors();
    }

    /// Places one bomb at each of the given coordinates, then records the
    /// bomb count and derives every non-bomb cell's neighbor label. The
    /// coordinates must be in bounds and pairwise distinct; afterwards a
    /// cell holds a bomb exactly when its coordinate was given.
    pub fn set_bombs_at(&mut self, bombs: &Vec<Coordinates>)
        requires
            old(self).grid_wf(),
            old(self).unpopulated(),
            forall|j: int| 0 <= j < bombs@.len() ==> old(self).in_bounds(#[trigger] bombs@[j]),
            forall|j1: int, j2: int|
                #![trigger bombs@[j1], bombs@[j2]]
                0 <= j1 < j2 < bombs@.len() ==> bombs@[j1] != bombs@[j2],
        ensures
            final(self).grid_wf(),
            final(self).spec_width() == old(self).spec_width(),
            final(self).spec_height() == old(self).spec_height(),
            final(self).spec_bomb_count() == bombs@.len(),
            final(self).wf(),
            forall|x: int, y: int|
                0 <= x < old(self).spec_width() && 0 <= y < old(self).spec_height() ==> ((
                #[trigger] final(self).is_bomb_at(x, y)) <==> bombs@.contains(
                    Coordinates { x: x as usize, y: y as usize },
                )),
    {
        let ghost w0 = self.spec_width();
        let ghost h0 = self.spec_height();
        proof {
            assert forall|i: int| 0 <= i < self.grid().len() implies !(#[trigger] self.grid()[i]
                is Bomb) by {}
            lemma_count_bombs_zero(self.grid());
        }
        let n = bombs.len();
        let mut j: usize = 0;
        while j < n
            invariant
                self.grid_wf(),
                self.spec_width() == w0,
                self.spec_height() == h0,
                self.spec_bomb_count() == old(self).spec_bomb_count(),
                self.grid().len() == w0 * h0,
                n == bombs@.len(),
                j <= n,
                forall|jj: int| 0 <= jj < n ==> (#[trigger] bombs@[jj]).x < w0 && bombs@[jj].y < h0,
                forall|j1: int, j2: int|
                    #![trigger bombs@[j1], bombs@[j2]]
                    0 <= j1 < j2 < n ==> bombs@[j1] != bombs@[j2],
                count_bombs(self.grid()) == j,
                forall|i: int|
                    0 <= i < self.grid().len() ==> ((#[trigger] self.grid()[i] is Bomb) <==> exists|
                        jj: int,
                    | 0 <= jj < j && row_index(bombs@[jj], w0 as int) == i),
                forall|i: int|
                    0 <= i < self.grid().len() ==> ((#[trigger] self.grid()[i]) is Bomb || self
                        .grid()[i] is Empty),
            decreases n - j,
        {
            let c = bombs[j];
            proof {
                lemma_row_major_bound(c.x as int, c.y as int, w0 as int, h0 as int);
                let idx = row_index(c, w0 as int);
                assert(!(self.grid()[idx] is Bomb)) by {
                    if self.grid()[idx] is Bomb {
                        let jj = choose|jj: int|
                            0 <= jj < j && row_index(bombs@[jj], w0 as int) == idx;
                        lemma_row_major_injective(
                            bombs@[jj].x as int,
                            bombs@[jj].y as int,
                            c.x as int,
                            c.y as int,
                            w0 as int,
                        );
                    }
                }
                lemma_count_bombs_update(self.grid(), idx, Tile::Bomb);
            }
            let ghost pre = *self;
            self.set_tile(&c, Tile::Bomb);
            proof {
                let idx = row_index(c, w0 as int);
                assert forall|i: int|
                    0 <= i < self.grid().len() implies ((#[trigger] self.grid()[i] is Bomb)
                    <==> exists|jj: int|
                    0 <= jj < j + 1 && row_index(bombs@[jj], w0 as int) == i) by {
                    if i == idx {
                        assert(0 <= j < j + 1 && row_index(bombs@[j as int], w0 as int) == i);
                    } else {
                        assert(self.grid()[i] == pre.grid()[i]);
                        if self.grid()[i] is Bomb {
                            let jj = choose|jj: int|
                                0 <= jj < j && row_index(bombs@[jj], w0 as int) == i;
                            assert(0 <= jj < j + 1 && row_index(bombs@[jj], w0 as int) == i);
                        }
                        if exists|jj: int|
                            0 <= jj < j + 1 && row_index(bombs@[jj], w0 as int) == i {
                            let jj = choose|jj: int|
                                0 <= jj < j + 1 && row_index(bombs@[jj], w0 as int) == i;
                            assert(jj < j);
                        }
                    }
                }
                assert forall|i: int|
                    0 <= i < self.grid().len() implies ((#[trigger] self.grid()[i]) is Bomb || self
                    .grid()[i] is Empty) by {
                    assert(self.grid()[i] == pre.grid()[i] || i == idx);
                }
            }
            j = j + 1;
        }
        self.bomb_count = n;
        let ghost pre_update = *self;
        self.update_neighbors();
        proof {
            assert forall|x: int, y: int|
                0 <= x < w0 && 0 <= y < h0 implies ((#[trigger] self.is_bomb_at(x, y))
                <==> bombs@.contains(Coordinates { x: x as usize, y: y as usize })) by {
                lemma_row_major_bound(x, y, w0 as int, h0 as int);
                let c = Coordinates { x: x as usize, y: y as usize };
                let i = (y as int) * w0 + x;
                assert(self.grid()[i] is Bomb <==> pre_update.grid()[i] is Bomb);
                if self.is_bomb_at(x, y) {
                    let jj = choose|jj: int|
                        0 <= jj < n && row_index(bombs@[jj], w0 as int) == i;
                    lemma_row_major_injective(
                        bombs@[jj].x as int,
                        bombs@[jj].y as int,
                        x,
                        y,
                        w0 as int,
                    );
                    assert(bombs@[jj] == c);
                    assert(bombs@.contains(c));
                }
                if bombs@.contains(c) {
                    let jj = choose|jj: int| 0 <= jj < n && bombs@[jj] == c;
                    assert(row_index(bombs@[jj], w0 as int) == i);
                }
            }
        }
    }

    /// Checks the board's content invariants by exhaustive scan: the stored
    /// bomb count matches the grid, and every non-bomb cell's label matches
    /// an independent recount of the bombs around it.
    pub fn check_rep(&self) -> (r: bool)
        requires
            self.grid_wf(),
        ensures
            r == self.wf(),
    {
        let len = self.tiles.len();
        let mut counted: usize = 0;
        let mut i: usize = 0;
        while i < len
            invariant
                self.grid_wf(),
                len == self.grid().len(),
                i <= len,
                counted <= i,
                counted == count_bombs(self.grid().take(i as int)),
            decreases len - i,
        {
            proof {
                lemma_count_bombs_take_step(self.grid(), i as int);
            }
            if self.tiles[i].is_bomb() {
                counted = counted + 1;
            }
            i = i + 1;
        }
        proof {
            lemma_count_bombs_take_all(self.grid());
        }
        if counted != self.bomb_count {
            return false;
        }
        let mut x: usize = 0;
        while x < self.width
            invariant
                self.grid_wf(),
                x <= self.spec_width(),
                count_bombs(self.grid()) == self.spec_bomb_count(),
                forall|a: int, b: int|
                    0 <= a < x && 0 <= b < self.spec_height() ==> #[trigger] self.cell_ok(a, b),
            decreases self.spec_width() - x,
        {
            let mut y: usize = 0;
            while y < self.height
                invariant
                    self.grid_wf(),
                    x < self.spec_width(),
                    y <= self.spec_height(),
                    count_bombs(self.grid()) == self.spec_bomb_count(),
                    forall|a: int, b: int|
                        0 <= a < x && 0 <= b < self.spec_height() ==> #[trigger] self.cell_ok(a, b),
                    forall|b: int| 0 <= b < y ==> #[trigger] self.cell_ok(x as int, b),
                decreases self.spec_height() - y,
            {
                let coordinates = Coordinates { x, y };
                let t = *self.tile(&coordinates);
                if !t.is_bomb() {
                    let around = self.bomb_count_around(&coordinates);
                    match t {
                        Tile::Empty => {
                            if around != 0 {
                                proof {
                                    assert(!self.cell_ok(x as int, y as int));
                                }
                                return false;
                            }
                        },
                        Tile::BombNeighbor(n) => {
                            if n != around {
                                proof {
                                    assert(!self.cell_ok(x as int, y as int));
                                }
                                return false;
                            }
                        },
                        Tile::Bomb => {},
                    }
                }
                proof {
                    lemma_row_major_bound(
                        x as int,
                        y as int,
                        self.spec_width() as int,
                        self.spec_height() as int,
                    );
                    assert(self.cell_ok(x as int, y as int));
                }
                y = y + 1;
            }
            x = x + 1;
        }
        true
    }

    /// The glyphs of row `y`, left of column `upto`.
    pub open spec fn row_text(&self, y: int, upto: int) -> Seq<char>
        decreases upto,
    {
        if upto <= 0 {
            Seq::empty()
        } else {
            self.row_text(y, upto - 1) + glyph_of(
                self.grid()[y * self.spec_width() + (upto - 1)],
            )
        }
    }

    /// The first `rows` rows of the board's text, each row of glyphs closed
    /// by a newline.
    pub open spec fn board_text_upto(&self, rows: int) -> Seq<char>
        decreases rows,
    {
        if rows <= 0 {
            Seq::empty()
        } else {
            self.board_text_upto(rows - 1) + self.row_text(rows - 1, self.spec_width() as int)
                + seq!['\n']
        }
    }

    /// The board's full diagnostic text: the grid's glyphs row by row, top
    /// to bottom, one line per row.
    pub open spec fn board_text(&self) -> Seq<char> {
        self.board_text_upto(self.spec_height() as int)
    }

    /// Renders the grid as newline-separated rows of glyphs, a pure
    /// function of the board's state.
    pub fn tiles_to_string(&self) -> (r: String)
        requires
            self.grid_wf(),
        ensures
            r@ == self.board_text(),
    {
        let mut s = String::new();
        let mut y: usize = 0;
        while y < self.height
            invariant
                self.grid_wf(),
                y <= self.spec_height(),
                s@ == self.board_text_upto(y as int),
            decreases self.spec_height() - y,
        {
            let mut x: usize = 0;
            while x < self.width
                invariant
                    self.grid_wf(),
                    y < self.spec_height(),
                    x <= self.spec_width(),
                    s@ == self.board_text_upto(y as int) + self.row_text(y as int, x as int),
                decreases self.spec_width() - x,
            {
                let coordinates = Coordinates { x, y };
                proof {
                    lemma_row_major_bound(
                        x as int,
                        y as int,
                        self.spec_width() as int,
                        self.spec_height() as int,
                    );
                }
                let glyph = self.tile(&coordinates).to_char();
                s.append(glyph.as_str());
                proof {
                    assert(s@ =~= self.board_text_upto(y as int) + self.row_text(
                        y as int,
                        x as int + 1,
                    ));
                }
                x = x + 1;
            }
            s.append("\n");
            proof {
                reveal_strlit("\n");
                assert(s@ =~= self.board_text_upto(y as int + 1));
            }
            y = y + 1;
        }
        s
    }

    /// Whether the in-bounds position `(x, y)` holds a bomb.
    fn bomb_at(&self, x: usize, y: usize) -> (r: bool)
        requires
            self.grid_wf(),
            x < self.spec_width(),
            y < self.spec_height(),
        ensures
            r == self.is_bomb_at(x as int, y as int),
    {
        self.tile(&Coordinates { x, y }).is_bomb()
    }

    /// How many bombs sit among the up-to-eight neighbors of an in-bounds
    /// coordinate. Neighbors are the three-by-three block centered on the
    /// coordinate, without the coordinate itself, clipped to the grid.
    pub fn bomb_count_around(&self, coordinates: &Coordinates) -> (r: usize)
        requires
            self.grid_wf(),
            self.in_bounds(*coordinates),
        ensures
            r == self.adj_mines(coordinates.x as int, coordinates.y as int),
            r <= 8,
    {
        let x = coordinates.x;
        let y = coordinates.y;
        let mut count: usize = 0;
        if y > 0 {
            if x > 0 && self.bomb_at(x - 1, y - 1) {
                count = count + 1;
            }
            if self.bomb_at(x, y - 1) {
                count = count + 1;
            }
            if x + 1 < self.width && self.bomb_at(x + 1, y - 1) {
                count = count + 1;
            }
        }
        if x > 0 && self.bomb_at(x - 1, y) {
            count = count + 1;
        }
        if x + 1 < self.width && self.bomb_at(x + 1, y) {
            count = count + 1;
        }
        if y + 1 < self.height {
            if x > 0 && self.bomb_at(x - 1, y + 1) {
                count = count + 1;
            }
            if self.bomb_at(x, y + 1) {
                count = count + 1;
            }
            if x + 1 < self.width && self.bomb_at(x + 1, y + 1) {
                count = count + 1;
            }
        }
        count
    }
}

/// Relies on `rand::Rng::gen_range` on `rand::thread_rng`: sampling the
/// range `0..n` returns a value below `n`, and panics only on an empty
/// range.
#[verifier::external_body]
fn random_below(n: usize) -> (r: usize)
    requires
        0 < n,
    ensures
        r < n,
{
    rand::thread_rng().gen_range(0..n)
}

/// One if the condition holds, zero otherwise.
pub open spec fn bool_tally(b: bool) -> int {
    if b {
        1
    } else {
        0
    }
}

/// On a grid with at least two columns and two rows, the neighbor candidates
/// a neighborhood count examines number exactly three at a corner, exactly
/// five on a non-corner edge cell, and exactly eight in the interior; and a
/// neighborhood never counts more bombs than it has candidates.
pub proof fn lemma_neighbor_candidates(m: &TileMap, cx: int, cy: int)
    requires
        m.grid_wf(),
        2 <= m.spec_width(),
        2 <= m.spec_height(),
        0 <= cx < m.spec_width(),
        0 <= cy < m.spec_height(),
    ensures
        (cx == 0 || cx == m.spec_width() - 1) && (cy == 0 || cy == m.spec_height() - 1)
            ==> neighbor_candidates(m.spec_width() as int, m.spec_height() as int, cx, cy) == 3,
        ((cx == 0 || cx == m.spec_width() - 1) != (cy == 0 || cy == m.spec_height() - 1))
            ==> neighbor_candidates(m.spec_width() as int, m.spec_height() as int, cx, cy) == 5,
        0 < cx < m.spec_width() - 1 && 0 < cy < m.spec_height() - 1 ==> neighbor_candidates(
            m.spec_width() as int,
            m.spec_height() as int,
            cx,
            cy,
        ) == 8,
        m.adj_mines(cx, cy) <= neighbor_candidates(
            m.spec_width() as int,
            m.spec_height() as int,
            cx,
            cy,
        ),
{
}

/// A board that satisfies the representation invariant and whose bomb count
/// fills the whole grid holds a bomb in every cell: no neighbor label or
/// empty cell remains.
pub proof fn lemma_full_board(m: &TileMap)
    requires
        m.wf(),
        m.spec_bomb_count() == m.spec_width() * m.spec_height(),
    ensures
        forall|x: int, y: int|
            0 <= x < m.spec_width() && 0 <= y < m.spec_height() ==> #[trigger] m.is_bomb_at(x, y),
{
    lemma_count_bombs_full(m.grid());
    assert forall|x: int, y: int|
        0 <= x < m.spec_width() && 0 <= y < m.spec_height() implies #[trigger] m.is_bomb_at(
        x,
        y,
    ) by {
        lemma_row_major_bound(x, y, m.spec_width() as int, m.spec_height() as int);
    }
}

/// On a board without bombs every neighborhood count is zero.
pub(crate) proof fn lemma_no_bombs_adj_zero(m: &TileMap, x: int, y: int)
    requires
        m.grid_wf(),
        forall|i: int| 0 <= i < m.grid().len() ==> !(#[trigger] m.grid()[i] is Bomb),
    ensures
        m.adj_mines(x, y) == 0,
{
    assert forall|a: int, b: int| !(#[trigger] m.is_bomb_at(a, b)) by {
        if 0 <= a < m.spec_width() && 0 <= b < m.spec_height() {
            lemma_row_major_bound(a, b, m.spec_width() as int, m.spec_height() as int);
        }
    }
}

} // verus!

