//! The rules that a game between two players goes by: which moves are valid,
//! and what a move does to the pieces.

use vstd::prelude::*;
use crate::bits::lemma_stay_apart;
use crate::captures::{available_captures, flips_at, is_legal_move};
use crate::gui::{Move, PieceConfig, Player};

verus! {

/// The player at this board, who moves by pointing at a square.
pub struct Ally {}

impl Player for Ally {
    fn play_move(&mut self, _config: &PieceConfig) -> (played: Move)
        ensures
            played == Move::Board,
    {
        Move::Board
    }

    fn enemy_move(&mut self, _current_move: u64)
        ensures
            *final(self) == *old(self),
    {
    }
}

/// The position after the side to move has played on `position`: the new piece
/// and the pieces it turns over belong to the mover, and the other side is to move.
pub open spec fn captured(config: PieceConfig, position: u64) -> PieceConfig {
    let mesh = flips_at(config.sides().0, config.sides().1, position) | position;
    if config.blacks_play {
        PieceConfig {
            white_pieces: config.white_pieces & !mesh,
            black_pieces: config.black_pieces | mesh,
            blacks_play: false,
        }
    } else {
        PieceConfig {
            white_pieces: config.white_pieces | mesh,
            black_pieces: config.black_pieces & !mesh,
            blacks_play: true,
        }
    }
}

/// Whether the side to move may play on `position`.
pub fn valid(config: &PieceConfig, position: u64) -> (ok: bool)
    ensures
        ok == is_legal_move(config.sides().0, config.sides().1, position),
{
    let (ally, foe) = config.ally_foe();
    match available_captures(ally, foe) {
        Some(moves) => moves.contains_key(&position),
        None => false,
    }
}

/// Plays the valid move `position` for the side to move.
pub fn capture(config: &PieceConfig, position: u64) -> (next: PieceConfig)
    requires
        is_legal_move(config.sides().0, config.sides().1, position),
    ensures
        next == captured(*config, position),
        config.apart() ==> next.apart(),
{
    proof {
        if config.apart() {
            lemma_capture_keeps_apart(*config, position);
        }
    }
    let mut config = config.clone();
    let (ally, foe) = config.ally_foe();
    let moves = available_captures(ally, foe).unwrap();
    let mesh = *moves.get(&position).unwrap() | position;
    if config.blacks_play {
        config.white_pieces &= !mesh;
        config.black_pieces |= mesh;
    } else {
        config.black_pieces &= !mesh;
        config.white_pieces |= mesh;
    }
    config.blacks_play = !config.blacks_play;
    config
}

/// A move leaves no square to both sides, if none was held by both before.
pub proof fn lemma_capture_keeps_apart(config: PieceConfig, position: u64)
    requires
        config.apart(),
    ensures
        captured(config, position).apart(),
{
    let mesh = flips_at(config.sides().0, config.sides().1, position) | position;
    lemma_stay_apart(config.white_pieces, config.black_pieces, mesh);
    lemma_stay_apart(config.black_pieces, config.white_pieces, mesh);
}

} // verus!
