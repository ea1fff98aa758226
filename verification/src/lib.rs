//! A verified Minesweeper board engine: a rectangular grid of cells in which
//! a chosen number of cells are mines and every other cell records how many
//! mines sit in its eight-cell neighborhood.

pub mod board_options;
pub mod coordinates;
pub mod counting;
pub mod decimal;
pub mod tile;
pub mod tile_map;
