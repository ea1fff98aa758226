use mineboard::board_options::BoardOptions;
use mineboard::coordinates::Coordinates;
use mineboard::tile::Tile;

#[test]
fn default_options_are_the_reference_configuration() {
    let options = BoardOptions::default();
    assert_eq!(options.width, 15);
    assert_eq!(options.height, 15);
    assert_eq!(options.bomb_count, 30);
}

#[test]
fn tile_is_bomb_only_for_bombs() {
    assert!(Tile::Bomb.is_bomb());
    assert!(!Tile::BombNeighbor(3).is_bomb());
    assert!(!Tile::Empty.is_bomb());
}

#[test]
fn tile_glyphs() {
    assert_eq!(Tile::Bomb.to_char(), "*");
    assert_eq!(Tile::Empty.to_char(), " ");
    assert_eq!(Tile::BombNeighbor(1).to_char(), "1");
    assert_eq!(Tile::BombNeighbor(5).to_char(), "5");
    assert_eq!(Tile::BombNeighbor(8).to_char(), "8");
}

#[test]
fn coordinates_add_component_wise() {
    let a = Coordinates { x: 3, y: 10 };
    let b = Coordinates { x: 4, y: 1 };
    assert_eq!(a.add(b), Coordinates { x: 7, y: 11 });
}

#[test]
fn coordinates_sub_component_wise() {
    let a = Coordinates { x: 3, y: 10 };
    let b = Coordinates { x: 2, y: 10 };
    assert_eq!(a.sub(b), Coordinates { x: 1, y: 0 });
}

#[test]
fn coordinates_text_form() {
    assert_eq!(Coordinates { x: 3, y: 4 }.to_text(), "3, 4");
    assert_eq!(Coordinates { x: 120, y: 0 }.to_text(), "120, 0");
    assert_eq!(Coordinates { x: 0, y: 10050 }.to_text(), "0, 10050");
}
