use reversi::candidates::all_placable;
use reversi::region::Position;
use reversi::{available_captures, bitboard_position, bitboard_rowcol};

#[test]
fn test_bitboard_position() {
    let row = 7;
    let col = 7;
    assert_eq!(bitboard_position(row, col), 1);
}

#[test]
fn test_biboard_rowcol() {
    let position = 1 << 7;
    assert_eq!(bitboard_rowcol(position), (7, 0));
}

#[test]
fn test_position_placement() {
    let position = 137438953472;
    assert_eq!(Position::new(position).placable_mesh(), 123490778742784);
}

#[test]
fn test_all_placable() {
    let board = 33252697899776;
    assert_eq!(all_placable(board), Some(17839856411507719));
}

#[test]
fn text_all_star_mesh() {
    let ally = 68987912192;
    let foe = 34493956096;
    let mut all_star = 0;
    for mesh in available_captures(ally, foe).unwrap().keys() {
        all_star |= mesh;
    }
    assert_eq!(all_star, 4415293751296);
}
