//! A board on which pieces are set down freely, to try positions out.

use std::collections::HashMap;
use vstd::prelude::*;
use crate::bits::{lemma_bits_meet, lemma_or_meets, lemma_stay_apart};
use crate::captures::{available_captures, capture_map, has_legal_move};
use crate::gui::{
    magenta, BoardConfig, Move, PieceConfig, Player, Rgb, BLACK_START, WHITE_START,
};
use crate::square::{bit_index, occupied, on_board, square_bit};

verus! {

/// The player at this board, who moves by pointing at a square.
pub struct Client {}

impl Player for Client {
    fn play_move(&mut self, _config: &PieceConfig) -> (played: Move)
        ensures
            played == Move::Board,
    {
        return Move::Board;
    }

    fn enemy_move(&mut self, _current_move: u64)
        ensures
            *final(self) == *old(self),
    {
    }
}

/// The keys that the board listens to.
#[derive(Clone, Copy, Debug, PartialEq, Eq)]
pub enum Key {
    /// White is to move.
    W,
    /// Black is to move.
    B,
    /// Drop the marks.
    D,
    /// Set the pieces up as at the beginning of a game.
    R,
    /// Mark the squares open to the side to move.
    S,
    /// Report the pieces.
    Return,
    /// Any other key.
    Other,
}

/// The squares below bit `n` whose one-bit mask is a key of `moves`.
pub open spec fn squares_below(moves: Map<u64, u64>, n: int) -> u64
    decreases n,
{
    if n <= 0 {
        0
    } else if moves.contains_key(1u64 << ((n - 1) as u64)) {
        squares_below(moves, n - 1) | (1u64 << ((n - 1) as u64))
    } else {
        squares_below(moves, n - 1)
    }
}

/// The squares whose one-bit mask is a key of `moves`.
pub open spec fn squares_of(moves: Map<u64, u64>) -> u64 {
    squares_below(moves, 64)
}

/// A square is in `squares_below(moves, n)` exactly when its bit lies below bit
/// `n` and its mask is a key of `moves`.
proof fn lemma_squares_below(moves: Map<u64, u64>, n: int, row: int, col: int)
    requires
        0 <= n <= 64,
        on_board(row, col),
    ensures
        occupied(squares_below(moves, n), row, col) <==> (bit_index(row, col) < n
            && moves.contains_key(square_bit(row, col))),
    decreases n,
{
    let p = square_bit(row, col);
    if n <= 0 {
        lemma_or_meets(0, 0, p);
    } else {
        lemma_squares_below(moves, n - 1, row, col);
        lemma_bits_meet((n - 1) as u64, bit_index(row, col) as u64);
        lemma_or_meets(squares_below(moves, n - 1), 1u64 << ((n - 1) as u64), p);
    }
}

/// A square is in `squares_of(moves)` exactly when its mask is a key of `moves`.
pub proof fn lemma_squares_of(moves: Map<u64, u64>, row: int, col: int)
    ensures
        occupied(squares_of(moves), row, col) <==> (on_board(row, col) && moves.contains_key(
            square_bit(row, col),
        )),
{
    if on_board(row, col) {
        lemma_squares_below(moves, 64, row, col);
    }
}

/// The squares that `moves` has a move to, as one mask.
pub fn move_squares(moves: &HashMap<u64, u64>) -> (mesh: u64)
    ensures
        mesh == squares_of(moves@),
{
    let mut mesh: u64 = 0;
    let mut i: u64 = 0;
    while i < 64
        invariant
            i <= 64,
            mesh == squares_below(moves@, i as int),
        decreases 64 - i,
    {
        let position: u64 = 1u64 << i;
        if moves.contains_key(&position) {
            mesh |= position;
        }
        i += 1;
    }
    mesh
}

/// What the key `key` makes of the pieces `pieces` and the marks `mesh`.
pub open spec fn handled(key: Key, pieces: PieceConfig, mesh: Map<u64, Rgb>) -> (
    PieceConfig,
    Map<u64, Rgb>,
) {
    match key {
        Key::W => (PieceConfig { blacks_play: false, ..pieces }, mesh),
        Key::B => (PieceConfig { blacks_play: true, ..pieces }, mesh),
        Key::D => (pieces, Map::empty()),
        Key::R => (
            PieceConfig { white_pieces: WHITE_START, black_pieces: BLACK_START, ..pieces },
            Map::empty(),
        ),
        Key::S => if has_legal_move(pieces.sides().0, pieces.sides().1) {
            (
                pieces,
                mesh.insert(
                    squares_of(capture_map(pieces.sides().0, pieces.sides().1)),
                    Rgb { red: 255, green: 0, blue: 255 },
                ),
            )
        } else {
            (pieces, mesh)
        },
        Key::Return | Key::Other => (pieces, mesh),
    }
}

/// The board after the key `key` was pressed: `W` and `B` say who is to move,
/// `D` drops the marks, `R` sets up the opening position and drops the marks, and
/// `S` marks the squares open to the side to move. Other keys change nothing.
pub fn handler(key: Key, config: &BoardConfig) -> (next: BoardConfig)
    ensures
        (next.piece_config, next.mesh@) == handled(key, config.piece_config, config.mesh@),
{
    let mut next = BoardConfig { piece_config: config.piece_config, mesh: config.mesh.clone() };
    match key {
        Key::W => {
            next.piece_config.blacks_play = false;
        },
        Key::B => {
            next.piece_config.blacks_play = true;
        },
        Key::D => {
            next.mesh = HashMap::new();
        },
        Key::R => {
            next.piece_config.white_pieces = WHITE_START;
            next.piece_config.black_pieces = BLACK_START;
            next.mesh = HashMap::new();
        },
        Key::S => {
            let (ally, foe) = next.piece_config.ally_foe();
            if let Some(captures) = available_captures(ally, foe) {
                let mesh = move_squares(&captures);
                next.mesh.insert(mesh, magenta());
            }
        },
        _ => (),
    }
    next
}

/// The position with a piece of the side to move set down on the squares of
/// `position`. Nothing is turned over, and the same side stays to move.
pub open spec fn placed(config: PieceConfig, position: u64) -> PieceConfig {
    if config.blacks_play {
        PieceConfig {
            white_pieces: config.white_pieces & !position,
            black_pieces: config.black_pieces | position,
            blacks_play: config.blacks_play,
        }
    } else {
        PieceConfig {
            white_pieces: config.white_pieces | position,
            black_pieces: config.black_pieces & !position,
            blacks_play: config.blacks_play,
        }
    }
}

/// Setting pieces down leaves no square to both sides, if none was held by both before.
pub proof fn lemma_placed_keeps_apart(config: PieceConfig, position: u64)
    requires
        config.apart(),
    ensures
        placed(config, position).apart(),
{
    lemma_stay_apart(config.white_pieces, config.black_pieces, position);
    lemma_stay_apart(config.black_pieces, config.white_pieces, position);
}

/// Sets a piece of the side to move down on `position`, in place of what was there.
pub fn capture(config: &PieceConfig, position: u64) -> (next: PieceConfig)
    ensures
        next == placed(*config, position),
        config.apart() ==> next.apart(),
{
    proof {
        if config.apart() {
            lemma_placed_keeps_apart(*config, position);
        }
    }
    let mut config = config.clone();
    if config.blacks_play {
        config.white_pieces &= !position;
        config.black_pieces |= position;
    } else {
        config.black_pieces &= !position;
        config.white_pieces |= position;
    }
    config
}

} // verus!
