use reversi::candidates::{all_placable, piece_positions};
use reversi::region::{
    Position, BOTTOM_EDGE, GENERAL_EDGE, LEFT_BOTTOM_MESH, LEFT_EDGE, LEFT_TOP_MESH,
    RIGHT_BOTTOM_MESH, RIGHT_EDGE, RIGHT_TOP_MESH, TOP_EDGE,
};
use reversi::square::is_single_square;
use reversi::{bitboard_position, bitboard_rowcol};

#[test]
fn position_and_rowcol_are_inverse_on_every_square() {
    for row in 0..8u8 {
        for column in 0..8u8 {
            let position = bitboard_position(row, column);
            assert_eq!(position.count_ones(), 1);
            assert_eq!(position, 1u64 << ((7 - row) * 8 + (7 - column)));
            assert_eq!(bitboard_rowcol(position), (row, column));
        }
    }
}

#[test]
fn position_of_the_corners() {
    assert_eq!(bitboard_position(0, 0), 1 << 63);
    assert_eq!(bitboard_position(0, 7), 1 << 56);
    assert_eq!(bitboard_position(7, 0), 1 << 7);
    assert_eq!(bitboard_position(7, 7), 1);
}

#[test]
fn rowcol_of_the_empty_mask_is_the_first_square() {
    assert_eq!(bitboard_rowcol(0), (0, 0));
}

#[test]
fn rowcol_of_several_bits_is_the_square_of_the_highest() {
    assert_eq!(bitboard_rowcol((1 << 7) | 1), (7, 0));
    assert_eq!(bitboard_rowcol(u64::MAX), (0, 0));
    assert_eq!(bitboard_rowcol((1 << 40) | (1 << 12) | 3), (2, 7));
}

#[test]
fn classification_follows_the_border() {
    for row in 0..8u8 {
        for column in 0..8u8 {
            let position = bitboard_position(row, column);
            let kind = Position::new(position);
            let inner = (1..=6).contains(&row) && (1..=6).contains(&column);
            match kind {
                Position::Inner6x6(p) => assert!(inner && p == position),
                Position::LeftTop => assert_eq!((row, column), (0, 0)),
                Position::RightTop => assert_eq!((row, column), (0, 7)),
                Position::LeftBottom => assert_eq!((row, column), (7, 0)),
                Position::RightBottom => assert_eq!((row, column), (7, 7)),
                Position::TopEdge(p) => assert!(row == 0 && !inner && p == position),
                Position::BottomEdge(p) => assert!(row == 7 && !inner && p == position),
                Position::LeftEdge(p) => assert!(column == 0 && !inner && p == position),
                Position::RightEdge(p) => assert!(column == 7 && !inner && p == position),
            }
        }
    }
}

#[test]
fn corners_come_before_edges() {
    assert_eq!(Position::new(1 << 63), Position::LeftTop);
    assert_eq!(Position::new(1 << 56), Position::RightTop);
    assert_eq!(Position::new(1 << 7), Position::LeftBottom);
    assert_eq!(Position::new(1), Position::RightBottom);
    assert_eq!(Position::new(1 << 62), Position::TopEdge(1 << 62));
    assert_eq!(Position::new(1 << 6), Position::BottomEdge(1 << 6));
    assert_eq!(Position::new(1 << 15), Position::LeftEdge(1 << 15));
    assert_eq!(Position::new(1 << 8), Position::RightEdge(1 << 8));
    assert_eq!(Position::new(1 << 9), Position::Inner6x6(1 << 9));
}

#[test]
fn a_mask_that_meets_no_edge_counts_as_bottom_edge() {
    assert_eq!(Position::new(0), Position::BottomEdge(0));
}

#[test]
fn edge_masks_cover_the_border() {
    assert_eq!(TOP_EDGE, 0xFF00_0000_0000_0000);
    assert_eq!(BOTTOM_EDGE, 0xFF);
    assert_eq!(LEFT_EDGE, 0x8080_8080_8080_8080);
    assert_eq!(RIGHT_EDGE, 0x0101_0101_0101_0101);
    assert_eq!(GENERAL_EDGE, !(TOP_EDGE | BOTTOM_EDGE | LEFT_EDGE | RIGHT_EDGE));
}

#[test]
fn mesh_of_each_corner_is_its_three_neighbours() {
    assert_eq!(Position::new(bitboard_position(0, 0)).placable_mesh(), 4665729213955833856);
    assert_eq!(Position::new(bitboard_position(0, 7)).placable_mesh(), 144959613005987840);
    assert_eq!(Position::new(bitboard_position(7, 0)).placable_mesh(), 49216);
    assert_eq!(Position::new(bitboard_position(7, 7)).placable_mesh(), 770);
    assert_eq!(LEFT_TOP_MESH, 4665729213955833856);
    assert_eq!(RIGHT_TOP_MESH, 144959613005987840);
    assert_eq!(LEFT_BOTTOM_MESH, 49216);
    assert_eq!(RIGHT_BOTTOM_MESH, 770);
}

#[test]
fn mesh_of_edge_and_inner_squares() {
    assert_eq!(Position::new(bitboard_position(0, 3)).placable_mesh(), 2898066360212914176);
    assert_eq!(Position::new(bitboard_position(7, 3)).placable_mesh(), 14376);
    assert_eq!(Position::new(bitboard_position(3, 0)).placable_mesh(), 211384331665408);
    assert_eq!(Position::new(bitboard_position(3, 7)).placable_mesh(), 3307175149568);
    assert_eq!(Position::new(bitboard_position(6, 6)).placable_mesh(), 460039);
    assert_eq!(Position::new(bitboard_position(1, 1)).placable_mesh(), 16186183351374184448);
}

#[test]
fn mesh_never_wraps_round_the_board() {
    for row in 0..8i32 {
        for column in 0..8i32 {
            let position = bitboard_position(row as u8, column as u8);
            let mesh = Position::new(position).placable_mesh();
            let mut expected = 0u64;
            for r in 0..8i32 {
                for c in 0..8i32 {
                    let near = (r - row).abs() <= 1 && (c - column).abs() <= 1;
                    if near && (r, c) != (row, column) {
                        expected |= bitboard_position(r as u8, c as u8);
                    }
                }
            }
            assert_eq!(mesh, expected);
            assert_eq!(mesh & position, 0);
        }
    }
}

#[test]
fn pieces_of_the_empty_board() {
    assert_eq!(piece_positions(0), None);
}

#[test]
fn pieces_come_lowest_bit_first() {
    assert_eq!(piece_positions(1), Some(vec![1]));
    assert_eq!(piece_positions(1 << 63), Some(vec![1 << 63]));
    assert_eq!(piece_positions(0b1011), Some(vec![1, 2, 8]));
    assert_eq!(
        piece_positions(34493956096 | 68987912192),
        Some(vec![1 << 27, 1 << 28, 1 << 35, 1 << 36])
    );
}

#[test]
fn pieces_of_the_full_board() {
    let all = piece_positions(u64::MAX).unwrap();
    assert_eq!(all.len(), 64);
    for (i, position) in all.iter().enumerate() {
        assert_eq!(*position, 1u64 << i);
    }
}

#[test]
fn candidates_of_the_empty_and_the_full_board() {
    assert_eq!(all_placable(0), None);
    assert_eq!(all_placable(u64::MAX), None);
}

#[test]
fn candidates_round_one_piece() {
    assert_eq!(all_placable(137438953472), Some(123490778742784));
    assert_eq!(all_placable(1), Some(770));
    assert_eq!(all_placable(1 << 63), Some(4665729213955833856));
}

#[test]
fn candidates_leave_out_occupied_squares() {
    let board = 34493956096 | 68987912192;
    let found = all_placable(board).unwrap();
    assert_eq!(found & board, 0);
    let mut expected = 0u64;
    for row in 2..=5u8 {
        for column in 2..=5u8 {
            expected |= bitboard_position(row, column);
        }
    }
    assert_eq!(found, expected & !board);
}

#[test]
fn single_squares_are_told_from_other_masks() {
    for i in 0..64 {
        assert!(is_single_square(1u64 << i));
    }
    assert!(!is_single_square(0));
    assert!(!is_single_square(3));
    assert!(!is_single_square((1 << 63) | 1));
    assert!(!is_single_square(u64::MAX));
}
