//! The state of a game and what the players and the board exchange.

use std::collections::HashMap;
use vstd::prelude::*;
use crate::square::{bitboard_position, square_bit};

verus! {

/// What a player hands back when asked for a move.
#[derive(Clone, Copy, Debug, PartialEq, Eq)]
pub enum Move {
    /// The move itself, as the mask of its square.
    Position(u64),
    /// The move will come from the board: the player points at a square.
    Board,
}

/// The squares that white holds when a game begins.
pub const WHITE_START: u64 = 34493956096;

/// The squares that black holds when a game begins.
pub const BLACK_START: u64 = 68987912192;

/// The pieces of both sides and the side to move.
#[derive(Clone, Copy, Debug, PartialEq, Eq, Structural)]
pub struct PieceConfig {
    pub white_pieces: u64,
    pub black_pieces: u64,
    pub blacks_play: bool,
}

impl PieceConfig {
    /// The pieces of the side to move, then those of the other side.
    pub fn ally_foe(&self) -> (sides: (u64, u64))
        ensures
            sides == self.sides(),
    {
        if self.blacks_play {
            return (self.black_pieces, self.white_pieces);
        }
        return (self.white_pieces, self.black_pieces);
    }

    /// No square holds a piece of each side.
    pub open spec fn apart(self) -> bool {
        self.white_pieces & self.black_pieces == 0
    }

    /// The pieces of the side to move, then those of the other side.
    pub open spec fn sides(self) -> (u64, u64) {
        if self.blacks_play {
            (self.black_pieces, self.white_pieces)
        } else {
            (self.white_pieces, self.black_pieces)
        }
    }
}

/// A colour by its red, green and blue parts.
#[derive(Clone, Copy, Debug, PartialEq, Eq)]
pub struct Rgb {
    pub red: u8,
    pub green: u8,
    pub blue: u8,
}

/// The colour in which the squares open to the side to move are shown.
pub fn magenta() -> (colour: Rgb)
    ensures
        colour == (Rgb { red: 255, green: 0, blue: 255 }),
{
    Rgb { red: 255, green: 0, blue: 255 }
}

/// What the board shows: the pieces, and sets of squares marked in a colour.
#[derive(Clone)]
pub struct BoardConfig {
    pub piece_config: PieceConfig,
    pub mesh: HashMap<u64, Rgb>,
}

impl BoardConfig {
    /// The board of `piece_config` with no square marked.
    pub fn new(piece_config: PieceConfig) -> (config: BoardConfig)
        ensures
            config.piece_config == piece_config,
            config.mesh@ == Map::<u64, Rgb>::empty(),
    {
        BoardConfig { piece_config, mesh: HashMap::new() }
    }
}

/// One side of the game, as the board sees it.
pub trait Player {
    /// Asks the player for the next move in `config`.
    fn play_move(&mut self, config: &PieceConfig) -> Move;

    /// Tells the player the move that the other side has made.
    fn enemy_move(&mut self, current_move: u64);
}

/// Where the pointer is when the board looks at it.
#[derive(Clone, Copy, Debug, PartialEq, Eq)]
pub enum Pointer {
    /// The button is up.
    Idle,
    /// The button is down over the square in this row and column.
    Pressed(u8, u8),
}

/// What the board does next with the answer of the player to move.
#[derive(Clone, Copy, Debug, PartialEq, Eq)]
pub enum Step {
    /// Nothing happens in this round.
    Wait,
    /// The square was pointed at on the board: it is played if it is a valid move.
    Propose(u64),
    /// The move came from the player itself and is played as it is.
    Play(u64),
}

/// Decides what the board does with the answer `played` of the player to move,
/// given where the pointer is.
pub fn next_step(played: Move, pointer: Pointer) -> (step: Step)
    requires
        pointer matches Pointer::Pressed(row, column) ==> row <= 7 && column <= 7,
    ensures
        step == match played {
            Move::Position(position) => Step::Play(position),
            Move::Board => match pointer {
                Pointer::Idle => Step::Wait,
                Pointer::Pressed(row, column) => Step::Propose(
                    square_bit(row as int, column as int),
                ),
            },
        },
{
    match played {
        Move::Position(position) => Step::Play(position),
        Move::Board => match pointer {
            Pointer::Idle => Step::Wait,
            Pointer::Pressed(row, column) => Step::Propose(bitboard_position(row, column)),
        },
    }
}

} // verus!
