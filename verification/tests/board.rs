use mineboard::coordinates::Coordinates;
use mineboard::tile::Tile;
use mineboard::tile_map::BoardError;
use mineboard::tile_map::TileMap;

/// Recounts the bombs around `(x, y)` by scanning `tile_at` directly, so the
/// engine's own counter is not involved.
fn recount_around(board: &TileMap, x: usize, y: usize) -> usize {
    let mut count = 0;
    for dy in -1i64..=1 {
        for dx in -1i64..=1 {
            if dx == 0 && dy == 0 {
                continue;
            }
            let nx = x as i64 + dx;
            let ny = y as i64 + dy;
            if nx >= 0 && ny >= 0 {
                let c = Coordinates { x: nx as usize, y: ny as usize };
                if board.tile_at(&c) == Ok(Tile::Bomb) {
                    count += 1;
                }
            }
        }
    }
    count
}

#[test]
fn empty_board_passes_check_and_renders_blank() {
    let board = TileMap::empty(5, 4);
    assert!(board.check_rep());
    assert_eq!(board.width(), 5);
    assert_eq!(board.height(), 4);
    assert_eq!(board.bomb_count(), 0);
    assert_eq!(board.tiles_to_string(), "     \n     \n     \n     \n");
}

#[test]
fn render_is_stable_across_calls() {
    let mut board = TileMap::empty(6, 6);
    let blank_once = board.tiles_to_string();
    let blank_again = board.tiles_to_string();
    assert_eq!(blank_once, blank_again);
    board.set_bombs(5);
    let populated_once = board.tiles_to_string();
    let populated_again = board.tiles_to_string();
    assert_eq!(populated_once, populated_again);
}

#[test]
fn tile_at_succeeds_inside_and_fails_outside() {
    let board = TileMap::empty(3, 2);
    for y in 0..2 {
        for x in 0..3 {
            assert_eq!(board.tile_at(&Coordinates { x, y }), Ok(Tile::Empty));
        }
    }
    assert_eq!(board.tile_at(&Coordinates { x: 3, y: 0 }), Err(BoardError::OutOfBounds));
    assert_eq!(board.tile_at(&Coordinates { x: 0, y: 2 }), Err(BoardError::OutOfBounds));
    assert_eq!(board.tile_at(&Coordinates { x: 7, y: 9 }), Err(BoardError::OutOfBounds));
}

#[test]
fn forced_two_bomb_scenario() {
    let mut board = TileMap::empty(3, 3);
    let bombs = vec![Coordinates { x: 0, y: 0 }, Coordinates { x: 2, y: 2 }];
    board.set_bombs_at(&bombs);
    assert!(board.check_rep());
    assert_eq!(board.bomb_count(), 2);
    assert_eq!(board.bomb_count_around(&Coordinates { x: 1, y: 1 }), 2);
    assert_eq!(board.tile_at(&Coordinates { x: 0, y: 0 }), Ok(Tile::Bomb));
    assert_eq!(board.tile_at(&Coordinates { x: 2, y: 2 }), Ok(Tile::Bomb));
    assert_eq!(board.tile_at(&Coordinates { x: 0, y: 1 }), Ok(Tile::BombNeighbor(1)));
    assert_eq!(board.tile_at(&Coordinates { x: 1, y: 0 }), Ok(Tile::BombNeighbor(1)));
    assert_eq!(board.tile_at(&Coordinates { x: 1, y: 2 }), Ok(Tile::BombNeighbor(1)));
    assert_eq!(board.tile_at(&Coordinates { x: 2, y: 1 }), Ok(Tile::BombNeighbor(1)));
    // The center sees both bombs, so it carries the count two; the far
    // corners see neither bomb and stay empty.
    assert_eq!(board.tile_at(&Coordinates { x: 1, y: 1 }), Ok(Tile::BombNeighbor(2)));
    assert_eq!(board.tile_at(&Coordinates { x: 2, y: 0 }), Ok(Tile::Empty));
    assert_eq!(board.tile_at(&Coordinates { x: 0, y: 2 }), Ok(Tile::Empty));
    assert_eq!(board.tiles_to_string(), "*1 \n121\n 1*\n");
}

#[test]
fn random_placement_keeps_the_invariants() {
    let mut board = TileMap::empty(6, 5);
    board.set_bombs(7);
    assert!(board.check_rep());
    assert_eq!(board.bomb_count(), 7);
    let mut bombs_found = 0;
    for y in 0..5 {
        for x in 0..6 {
            match board.tile_at(&Coordinates { x, y }) {
                Ok(Tile::Bomb) => bombs_found += 1,
                Ok(Tile::BombNeighbor(n)) => {
                    assert!(n >= 1);
                    assert_eq!(n, recount_around(&board, x, y));
                }
                Ok(Tile::Empty) => assert_eq!(recount_around(&board, x, y), 0),
                Err(e) => panic!("in-bounds query failed: {:?}", e),
            }
        }
    }
    assert_eq!(bombs_found, 7);
}

#[test]
fn full_board_is_all_bombs() {
    let mut board = TileMap::empty(3, 3);
    board.set_bombs(9);
    assert!(board.check_rep());
    assert_eq!(board.bomb_count(), 9);
    for y in 0..3 {
        for x in 0..3 {
            assert_eq!(board.tile_at(&Coordinates { x, y }), Ok(Tile::Bomb));
        }
    }
    assert_eq!(board.tiles_to_string(), "***\n***\n***\n");
}

#[test]
fn full_board_by_explicit_coordinates() {
    let mut board = TileMap::empty(2, 2);
    let mut bombs = Vec::new();
    for y in 0..2 {
        for x in 0..2 {
            bombs.push(Coordinates { x, y });
        }
    }
    board.set_bombs_at(&bombs);
    assert!(board.check_rep());
    assert_eq!(board.bomb_count(), 4);
    for y in 0..2 {
        for x in 0..2 {
            assert_eq!(board.tile_at(&Coordinates { x, y }), Ok(Tile::Bomb));
        }
    }
}

#[test]
fn single_cell_board_takes_its_bomb() {
    let mut board = TileMap::empty(1, 1);
    board.set_bombs(1);
    assert_eq!(board.bomb_count(), 1);
    assert_eq!(board.tile_at(&Coordinates { x: 0, y: 0 }), Ok(Tile::Bomb));
}

#[test]
fn neighborhood_sizes_on_a_blank_board() {
    let board = TileMap::empty(4, 3);
    // The block includes the center cell, so a corner yields 4 safe tiles,
    // a non-corner edge 6, and an interior cell 9.
    assert_eq!(board.safe_tiles_around(&Coordinates { x: 0, y: 0 }).len(), 4);
    assert_eq!(board.safe_tiles_around(&Coordinates { x: 3, y: 2 }).len(), 4);
    assert_eq!(board.safe_tiles_around(&Coordinates { x: 1, y: 0 }).len(), 6);
    assert_eq!(board.safe_tiles_around(&Coordinates { x: 0, y: 1 }).len(), 6);
    assert_eq!(board.safe_tiles_around(&Coordinates { x: 1, y: 1 }).len(), 9);
}

#[test]
fn safe_tiles_skip_bombs_and_come_in_row_major_order() {
    let mut board = TileMap::empty(3, 3);
    let bombs = vec![Coordinates { x: 0, y: 0 }, Coordinates { x: 2, y: 2 }];
    board.set_bombs_at(&bombs);
    let safe = board.safe_tiles_around(&Coordinates { x: 1, y: 1 });
    assert_eq!(
        safe,
        vec![
            Coordinates { x: 1, y: 0 },
            Coordinates { x: 2, y: 0 },
            Coordinates { x: 0, y: 1 },
            Coordinates { x: 1, y: 1 },
            Coordinates { x: 2, y: 1 },
            Coordinates { x: 0, y: 2 },
            Coordinates { x: 1, y: 2 },
        ]
    );
}

#[test]
fn counts_near_corners_of_the_forced_scenario() {
    let mut board = TileMap::empty(3, 3);
    let bombs = vec![Coordinates { x: 0, y: 0 }, Coordinates { x: 2, y: 2 }];
    board.set_bombs_at(&bombs);
    // The corner bombs see no other bomb; the counter never counts the
    // queried cell itself.
    assert_eq!(board.bomb_count_around(&Coordinates { x: 0, y: 0 }), 0);
    assert_eq!(board.bomb_count_around(&Coordinates { x: 2, y: 2 }), 0);
    assert_eq!(board.bomb_count_around(&Coordinates { x: 2, y: 0 }), 0);
    assert_eq!(board.bomb_count_around(&Coordinates { x: 1, y: 0 }), 1);
}
