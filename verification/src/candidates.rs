//! The occupied squares of a mask, one by one, and the empty squares next to them.

use vstd::prelude::*;
use crate::bits::{
    lemma_and_not_meets, lemma_low_clear, lemma_meets_nonzero, lemma_or_meets, low_clear,
};
use crate::region::{adjacent, lemma_neighbours_adjacent, neighbours, Position};
use crate::square::{
    bit_index, is_square, lemma_bit_is_square, lemma_rowcol_of_square, occupied, on_board, rowcol,
    square_bit,
};

verus! {

/// The one-bit masks of the bits of `board` below bit `n`, least significant first.
pub open spec fn pieces_below(board: u64, n: int) -> Seq<u64>
    decreases n,
{
    if n <= 0 {
        Seq::empty()
    } else if board & (1u64 << ((n - 1) as u64)) != 0 {
        pieces_below(board, n - 1).push(1u64 << ((n - 1) as u64))
    } else {
        pieces_below(board, n - 1)
    }
}

/// The occupied squares of `board` as one-bit masks, least significant bit first.
pub open spec fn pieces(board: u64) -> Seq<u64> {
    pieces_below(board, 64)
}

/// Each entry of `pieces_below(board, n)` is the bit of an occupied square, and the
/// bit of each square occupied in `board` below bit `n` is an entry.
pub proof fn lemma_pieces_below(board: u64, n: int)
    requires
        0 <= n <= 64,
    ensures
        forall|k: int|
            0 <= k < pieces_below(board, n).len() ==> {
                let p = #[trigger] pieces_below(board, n)[k];
                &&& is_square(p)
                &&& occupied(board, rowcol(p).0, rowcol(p).1)
                &&& bit_index(rowcol(p).0, rowcol(p).1) < n
            },
        forall|row: int, col: int|
            occupied(board, row, col) && bit_index(row, col) < n ==> pieces_below(
                board,
                n,
            ).contains(#[trigger] square_bit(row, col)),
        pieces_below(board, n).len() <= n,
    decreases n,
{
    if n > 0 {
        lemma_pieces_below(board, n - 1);
        lemma_bit_is_square(n - 1);
        let prev = pieces_below(board, n - 1);
        let cur = pieces_below(board, n);
        let bit = 1u64 << ((n - 1) as u64);
        assert forall|row: int, col: int|
            occupied(board, row, col) && bit_index(row, col) < n implies cur.contains(
            #[trigger] square_bit(row, col),
        ) by {
            if bit_index(row, col) < n - 1 {
                let k = choose|k: int| 0 <= k < prev.len() && prev[k] == square_bit(row, col);
                assert(cur[k] == square_bit(row, col));
            } else {
                assert(cur[cur.len() - 1] == bit);
            }
        }
    }
}

/// The entries of `pieces(board)` are exactly the bits of the squares occupied in `board`.
pub proof fn lemma_pieces(board: u64)
    ensures
        forall|k: int|
            0 <= k < pieces(board).len() ==> {
                let p = #[trigger] pieces(board)[k];
                &&& is_square(p)
                &&& occupied(board, rowcol(p).0, rowcol(p).1)
            },
        forall|row: int, col: int|
            occupied(board, row, col) ==> pieces(board).contains(#[trigger] square_bit(row, col)),
        pieces(board).len() <= 64,
{
    lemma_pieces_below(board, 64);
}

/// The occupied squares of `board`, each as a one-bit mask, least significant bit
/// first; nothing for the empty board.
pub fn piece_positions(board: u64) -> (positions: Option<Vec<u64>>)
    ensures
        match positions {
            Some(v) => v@ == pieces(board) && v@.len() > 0 && board != 0,
            None => board == 0 && pieces(board).len() == 0,
        },
{
    let mut positions: Vec<u64> = Vec::new();
    let mut i: u64 = 0;
    proof {
        lemma_low_clear(board, 0);
    }
    while i < 64
        invariant
            i <= 64,
            positions@ == pieces_below(board, i as int),
            positions@.len() == 0 ==> low_clear(board, i),
            positions@.len() > 0 ==> board != 0,
        decreases 64 - i,
    {
        let position: u64 = 1u64 << i;
        if board & position != 0 {
            proof {
                lemma_meets_nonzero(board, position);
            }
            positions.push(position);
        } else {
            proof {
                if positions@.len() == 0 {
                    lemma_low_clear(board, i);
                }
            }
        }
        i += 1;
    }
    if positions.is_empty() {
        return None;
    }
    Some(positions)
}

/// The mesh around the square of `p`.
pub open spec fn neighbours_of(p: u64) -> u64 {
    neighbours(rowcol(p).0, rowcol(p).1)
}

/// The squares around the squares listed in `positions`, less the squares occupied in `board`.
pub open spec fn frontier_of(positions: Seq<u64>, board: u64) -> u64
    decreases positions.len(),
{
    if positions.len() == 0 {
        0
    } else {
        frontier_of(positions.drop_last(), board) | (neighbours_of(positions.last()) & !board)
    }
}

/// The empty squares next to an occupied square of `board`.
pub open spec fn candidates(board: u64) -> u64 {
    frontier_of(pieces(board), board)
}

/// One of the squares around `(row, col)` is occupied in `board`.
pub open spec fn touches(board: u64, row: int, col: int) -> bool {
    ||| occupied(board, row - 1, col - 1)
    ||| occupied(board, row - 1, col)
    ||| occupied(board, row - 1, col + 1)
    ||| occupied(board, row, col - 1)
    ||| occupied(board, row, col + 1)
    ||| occupied(board, row + 1, col - 1)
    ||| occupied(board, row + 1, col)
    ||| occupied(board, row + 1, col + 1)
}

/// The square of entry `k` of `positions` is next to `(row, col)`.
spec fn near(positions: Seq<u64>, k: int, row: int, col: int) -> bool {
    adjacent(row, col, rowcol(positions[k]).0, rowcol(positions[k]).1)
}

/// A square is in the frontier of a list exactly when it is empty and next to the
/// square of an entry of the list.
proof fn lemma_frontier(positions: Seq<u64>, board: u64, row: int, col: int)
    requires
        on_board(row, col),
    ensures
        occupied(frontier_of(positions, board), row, col) <==> (!occupied(board, row, col)
            && exists|k: int| 0 <= k < positions.len() && near(positions, k, row, col)),
    decreases positions.len(),
{
    let p = square_bit(row, col);
    if positions.len() == 0 {
        lemma_or_meets(0, 0, p);
    } else {
        let front = positions.drop_last();
        let last = positions.last();
        lemma_frontier(front, board, row, col);
        lemma_or_meets(frontier_of(front, board), neighbours_of(last) & !board, p);
        lemma_and_not_meets(neighbours_of(last), board, bit_index(row, col) as u64);
        lemma_neighbours_adjacent(rowcol(last).0, rowcol(last).1, row, col);
        if exists|k: int| 0 <= k < front.len() && near(front, k, row, col) {
            let k = choose|k: int| 0 <= k < front.len() && near(front, k, row, col);
            assert(near(positions, k, row, col));
        }
        if exists|k: int| 0 <= k < positions.len() && near(positions, k, row, col) {
            let k = choose|k: int| 0 <= k < positions.len() && near(positions, k, row, col);
            if k < front.len() {
                assert(near(front, k, row, col));
            }
        }
        if near(positions, positions.len() - 1, row, col) {
        }
    }
}

/// A square is a candidate exactly when it is on the board, empty, and next to an
/// occupied square.
pub proof fn lemma_candidates(board: u64, row: int, col: int)
    ensures
        occupied(candidates(board), row, col) <==> (on_board(row, col) && !occupied(board, row, col)
            && touches(board, row, col)),
{
    if on_board(row, col) {
        let positions = pieces(board);
        lemma_frontier(positions, board, row, col);
        lemma_pieces(board);
        if exists|k: int| 0 <= k < positions.len() && near(positions, k, row, col) {
            let k = choose|k: int| 0 <= k < positions.len() && near(positions, k, row, col);
            let p = positions[k];
            assert(occupied(board, rowcol(p).0, rowcol(p).1));
            assert(touches(board, row, col));
        }
        if touches(board, row, col) {
            let (r, c) = if occupied(board, row - 1, col - 1) {
                (row - 1, col - 1)
            } else if occupied(board, row - 1, col) {
                (row - 1, col)
            } else if occupied(board, row - 1, col + 1) {
                (row - 1, col + 1)
            } else if occupied(board, row, col - 1) {
                (row, col - 1)
            } else if occupied(board, row, col + 1) {
                (row, col + 1)
            } else if occupied(board, row + 1, col - 1) {
                (row + 1, col - 1)
            } else if occupied(board, row + 1, col) {
                (row + 1, col)
            } else {
                (row + 1, col + 1)
            };
            assert(occupied(board, r, c));
            assert(positions.contains(square_bit(r, c)));
            let k = choose|k: int| 0 <= k < positions.len() && positions[k] == square_bit(r, c);
            lemma_rowcol_of_square(r, c);
            assert(near(positions, k, row, col));
        }
    }
}

/// The empty squares next to an occupied square of `board`, or nothing where there
/// is no such square.
pub fn all_placable(board: u64) -> (moves: Option<u64>)
    ensures
        match moves {
            Some(mask) => mask == candidates(board) && mask != 0,
            None => candidates(board) == 0,
        },
{
    let mut possible_moves: u64 = 0;
    let positions = match piece_positions(board) {
        Some(positions) => positions,
        None => {
            return None;
        },
    };
    proof {
        lemma_pieces(board);
    }
    let mut k: usize = 0;
    while k < positions.len()
        invariant
            k <= positions.len(),
            positions@ == pieces(board),
            possible_moves == frontier_of(positions@.take(k as int), board),
            forall|j: int|
                0 <= j < positions@.len() ==> {
                    let p = #[trigger] positions@[j];
                    is_square(p) && occupied(board, rowcol(p).0, rowcol(p).1)
                },
        decreases positions.len() - k,
    {
        let position = positions[k];
        assert(positions@.take(k + 1).drop_last() == positions@.take(k as int));
        assert(board & position != 0);
        if board & position != 0 {
            let mesh = Position::new(position).placable_mesh();
            possible_moves |= mesh & !board;
        }
        k += 1;
    }
    assert(positions@.take(k as int) == positions@);
    if possible_moves == 0 {
        return None;
    }
    Some(possible_moves)
}

} // verus!
