use std::collections::HashMap;

use reversi::captures::star_mesh;
use reversi::direction::{directional_mesh, Direction};
use reversi::{available_captures, bitboard_position};

const WHITE: u64 = 34493956096;
const BLACK: u64 = 68987912192;

const ALL: [Direction; 8] = [
    Direction::East,
    Direction::West,
    Direction::North,
    Direction::South,
    Direction::NorthEast,
    Direction::SouthEast,
    Direction::NorthWest,
    Direction::SouthWest,
];

fn step(d: Direction) -> (i32, i32) {
    match d {
        Direction::East => (0, 1),
        Direction::West => (0, -1),
        Direction::North => (-1, 0),
        Direction::South => (1, 0),
        Direction::NorthEast => (-1, 1),
        Direction::SouthEast => (1, 1),
        Direction::NorthWest => (-1, -1),
        Direction::SouthWest => (1, -1),
    }
}

fn on_board(row: i32, column: i32) -> bool {
    (0..8).contains(&row) && (0..8).contains(&column)
}

fn holds(board: u64, row: i32, column: i32) -> bool {
    on_board(row, column) && board & bitboard_position(row as u8, column as u8) != 0
}

// The rule of the game, square by square, to hold the library against.
fn run_by_rule(ally: u64, foe: u64, d: Direction, row: i32, column: i32) -> Option<u64> {
    let (dr, dc) = step(d);
    let mut mesh = 0u64;
    let mut k = 1;
    loop {
        let (r, c) = (row + k * dr, column + k * dc);
        if holds(foe, r, c) {
            mesh |= bitboard_position(r as u8, c as u8);
            k += 1;
        } else if holds(ally, r, c) {
            return Some(mesh);
        } else {
            return None;
        }
    }
}

fn moves_by_rule(ally: u64, foe: u64) -> HashMap<u64, u64> {
    let mut moves = HashMap::new();
    for row in 0..8 {
        for column in 0..8 {
            if holds(ally | foe, row, column) {
                continue;
            }
            let mut flips = 0u64;
            for d in ALL {
                flips |= run_by_rule(ally, foe, d, row, column).unwrap_or(0);
            }
            if flips != 0 {
                moves.insert(bitboard_position(row as u8, column as u8), flips);
            }
        }
    }
    moves
}

fn next_random(state: &mut u64) -> u64 {
    *state ^= *state << 13;
    *state ^= *state >> 7;
    *state ^= *state << 17;
    *state
}

#[test]
fn shift_moves_one_square_each_way() {
    let from = bitboard_position(3, 3);
    assert_eq!(Direction::East.shift(from, 1), bitboard_position(3, 4));
    assert_eq!(Direction::West.shift(from, 1), bitboard_position(3, 2));
    assert_eq!(Direction::North.shift(from, 1), bitboard_position(2, 3));
    assert_eq!(Direction::South.shift(from, 1), bitboard_position(4, 3));
    assert_eq!(Direction::NorthEast.shift(from, 1), bitboard_position(2, 4));
    assert_eq!(Direction::SouthEast.shift(from, 1), bitboard_position(4, 4));
    assert_eq!(Direction::NorthWest.shift(from, 1), bitboard_position(2, 2));
    assert_eq!(Direction::SouthWest.shift(from, 1), bitboard_position(4, 2));
}

#[test]
fn shift_by_several_steps() {
    assert_eq!(Direction::East.shift(bitboard_position(5, 0), 7), bitboard_position(5, 7));
    assert_eq!(Direction::South.shift(bitboard_position(0, 2), 7), bitboard_position(7, 2));
    assert_eq!(Direction::SouthEast.shift(bitboard_position(0, 0), 7), 1);
    assert_eq!(Direction::NorthWest.shift(1, 7), 1 << 63);
    assert_eq!(Direction::NorthEast.shift(bitboard_position(7, 0), 7), bitboard_position(0, 7));
    assert_eq!(Direction::SouthWest.shift(bitboard_position(0, 7), 7), bitboard_position(7, 0));
    assert_eq!(Direction::West.shift(bitboard_position(2, 6), 0), bitboard_position(2, 6));
}

#[test]
fn shift_moves_every_piece_and_drops_what_leaves_the_mask() {
    assert_eq!(Direction::East.shift(0xFF, 1), 0x7F);
    assert_eq!(Direction::West.shift(0xFF, 1), 0x1FE);
    assert_eq!(Direction::North.shift(u64::MAX, 1), 0xFFFF_FFFF_FFFF_FF00);
    assert_eq!(Direction::South.shift(u64::MAX, 7), 0xFF);
    assert_eq!(Direction::North.shift(1 << 63, 1), 0);
    assert_eq!(Direction::South.shift(1, 1), 0);
    assert_eq!(Direction::NorthWest.shift(1 << 63, 1), 0);
    assert_eq!(Direction::SouthEast.shift(1, 1), 0);
}

#[test]
fn shift_agrees_with_the_steps_on_the_whole_board() {
    for row in 0..8 {
        for column in 0..8 {
            for d in ALL {
                let (dr, dc) = step(d);
                for n in 0..8 {
                    let (r, c) = (row + n * dr, column + n * dc);
                    if on_board(r, c) {
                        assert_eq!(
                            d.shift(bitboard_position(row as u8, column as u8), n as u64),
                            bitboard_position(r as u8, c as u8)
                        );
                    }
                }
            }
        }
    }
}

#[test]
fn border_is_where_the_next_step_leaves_the_board() {
    for row in 0..8 {
        for column in 0..8 {
            for d in ALL {
                let (dr, dc) = step(d);
                assert_eq!(
                    d.is_border(bitboard_position(row as u8, column as u8)),
                    !on_board(row + dr, column + dc)
                );
            }
        }
    }
}

#[test]
fn bracket_of_one_piece() {
    let candidate = bitboard_position(3, 5);
    assert_eq!(
        directional_mesh(candidate, BLACK, WHITE, Direction::West),
        Some(bitboard_position(3, 4))
    );
}

#[test]
fn bracket_of_a_long_run() {
    // row 2: ally at column 0, foe at columns 1 to 6, candidate at column 7
    let ally = bitboard_position(2, 0);
    let mut foe = 0;
    for column in 1..7 {
        foe |= bitboard_position(2, column);
    }
    assert_eq!(directional_mesh(bitboard_position(2, 7), ally, foe, Direction::West), Some(foe));
    // without the piece that closes the run, the run ends on an empty square
    assert_eq!(directional_mesh(bitboard_position(2, 7), 0, foe, Direction::West), None);
}

#[test]
fn bracket_with_nothing_between_is_empty_not_absent() {
    let candidate = bitboard_position(4, 4);
    let ally = bitboard_position(4, 5);
    assert_eq!(directional_mesh(candidate, ally, 0, Direction::East), Some(0));
    assert_eq!(directional_mesh(candidate, ally, 0, Direction::West), None);
}

#[test]
fn run_that_reaches_the_border_is_no_bracket() {
    let candidate = bitboard_position(0, 5);
    let foe = bitboard_position(0, 6) | bitboard_position(0, 7);
    let ally = bitboard_position(1, 0);
    assert_eq!(directional_mesh(candidate, ally, foe, Direction::East), None);
}

#[test]
fn run_that_ends_on_an_empty_square_is_no_bracket() {
    let candidate = bitboard_position(6, 1);
    let foe = bitboard_position(5, 2) | bitboard_position(4, 3);
    let ally = bitboard_position(2, 5);
    assert_eq!(directional_mesh(candidate, ally, foe, Direction::NorthEast), None);
    let ally = bitboard_position(3, 4);
    assert_eq!(directional_mesh(candidate, ally, foe, Direction::NorthEast), Some(foe));
}

#[test]
fn a_square_held_by_both_sides_counts_for_the_foe() {
    let candidate = bitboard_position(1, 1);
    let both = bitboard_position(1, 2);
    let ally = both | bitboard_position(1, 3);
    assert_eq!(directional_mesh(candidate, ally, both, Direction::East), Some(both));
}

#[test]
fn bracket_agrees_with_the_rule_in_every_direction() {
    let mut state = 0x9E37_79B9_7F4A_7C15u64;
    for _ in 0..200 {
        let ally = next_random(&mut state) & next_random(&mut state);
        let foe = next_random(&mut state) & !ally;
        for row in 0..8 {
            for column in 0..8 {
                for d in ALL {
                    let (dr, dc) = step(d);
                    if !on_board(row + dr, column + dc) {
                        continue;
                    }
                    let candidate = bitboard_position(row as u8, column as u8);
                    assert_eq!(
                        directional_mesh(candidate, ally, foe, d),
                        run_by_rule(ally, foe, d, row, column)
                    );
                }
            }
        }
    }
}

#[test]
fn star_of_an_opening_move() {
    assert_eq!(star_mesh(bitboard_position(2, 5), BLACK, WHITE), bitboard_position(3, 4));
    assert_eq!(star_mesh(bitboard_position(3, 5), BLACK, WHITE), bitboard_position(3, 4));
    assert_eq!(star_mesh(bitboard_position(0, 0), BLACK, WHITE), 0);
}

#[test]
fn star_gathers_all_directions() {
    // the candidate in the middle, a foe on each side of it, an ally behind each foe
    let candidate = bitboard_position(3, 3);
    let mut foe = 0;
    let mut ally = 0;
    for d in ALL {
        let (dr, dc) = step(d);
        foe |= bitboard_position((3 + dr) as u8, (3 + dc) as u8);
        ally |= bitboard_position((3 + 2 * dr) as u8, (3 + 2 * dc) as u8);
    }
    assert_eq!(star_mesh(candidate, ally, foe), foe);
    assert_eq!(star_mesh(candidate, foe, ally), 0);
}

#[test]
fn moves_of_black_at_the_opening() {
    let moves = available_captures(BLACK, WHITE).unwrap();
    let mut expected = HashMap::new();
    expected.insert(4398046511104u64, 34359738368u64);
    expected.insert(17179869184, 34359738368);
    expected.insert(67108864, 134217728);
    expected.insert(262144, 134217728);
    assert_eq!(moves, expected);
}

#[test]
fn moves_of_white_at_the_opening() {
    let moves = available_captures(WHITE, BLACK).unwrap();
    let mut expected = HashMap::new();
    expected.insert(35184372088832u64, 68719476736u64);
    expected.insert(137438953472, 68719476736);
    expected.insert(536870912, 268435456);
    expected.insert(2097152, 268435456);
    assert_eq!(moves, expected);
}

#[test]
fn union_of_the_flips_at_the_opening() {
    let mut flips = 0;
    for mesh in available_captures(BLACK, WHITE).unwrap().values() {
        flips |= mesh;
    }
    assert_eq!(flips, WHITE);
}

#[test]
fn no_moves_on_an_empty_board() {
    assert_eq!(available_captures(0, 0), None);
}

#[test]
fn no_moves_without_a_foe_to_turn_over() {
    assert_eq!(available_captures(bitboard_position(3, 3), 0), None);
    assert_eq!(available_captures(0, bitboard_position(3, 3)), None);
    // candidates exist, but an ally next door closes no run
    assert_eq!(available_captures(bitboard_position(3, 3) | bitboard_position(3, 5), 0), None);
}

#[test]
fn no_moves_on_a_full_board() {
    assert_eq!(available_captures(0xFFFF_FFFF_0000_0000, 0x0000_0000_FFFF_FFFF), None);
}

#[test]
fn moves_never_land_on_a_piece_and_turn_over_only_foes() {
    let mut state = 0x2545_F491_4F6C_DD1Du64;
    for _ in 0..300 {
        let ally = next_random(&mut state) & next_random(&mut state);
        let foe = next_random(&mut state) & next_random(&mut state) & !ally;
        if let Some(moves) = available_captures(ally, foe) {
            assert!(!moves.is_empty());
            for (position, flips) in moves.iter() {
                assert_eq!(position.count_ones(), 1);
                assert_eq!(position & (ally | foe), 0);
                assert_ne!(*flips, 0);
                assert_eq!(flips & !foe, 0);
            }
        }
    }
}

#[test]
fn moves_agree_with_the_rule() {
    let mut state = 0xD1B5_4A32_D192_ED03u64;
    for round in 0..300 {
        let mut ally = next_random(&mut state);
        let mut foe = next_random(&mut state);
        if round % 2 == 0 {
            ally &= next_random(&mut state);
            foe &= next_random(&mut state);
        }
        foe &= !ally;
        let expected = moves_by_rule(ally, foe);
        match available_captures(ally, foe) {
            Some(moves) => assert_eq!(moves, expected),
            None => assert!(expected.is_empty()),
        }
    }
}

#[test]
fn same_position_same_moves() {
    let mut state = 0x0123_4567_89AB_CDEFu64;
    for _ in 0..100 {
        let ally = next_random(&mut state) & next_random(&mut state);
        let foe = next_random(&mut state) & next_random(&mut state) & !ally;
        assert_eq!(available_captures(ally, foe), available_captures(ally, foe));
    }
    assert_eq!(available_captures(BLACK, WHITE), available_captures(BLACK, WHITE));
}

#[test]
fn the_two_sides_have_different_moves() {
    assert_ne!(available_captures(BLACK, WHITE), available_captures(WHITE, BLACK));
    let mut state = 0xFEDC_BA98_7654_3210u64;
    for _ in 0..300 {
        let ally = next_random(&mut state) & next_random(&mut state);
        let foe = next_random(&mut state) & next_random(&mut state) & !ally;
        let ours = available_captures(ally, foe);
        let theirs = available_captures(foe, ally);
        if ours.is_some() || theirs.is_some() {
            assert_ne!(ours, theirs);
        }
    }
}
