//! Squares and their bits: the mapping between `(row, column)` and a one-bit mask.

use vstd::prelude::*;
use crate::bits::lemma_bits_meet;

verus! {

/// `(row, col)` names a square of the board.
pub open spec fn on_board(row: int, col: int) -> bool {
    0 <= row < 8 && 0 <= col < 8
}

/// The position of the bit that stands for the square `(row, col)`.
pub open spec fn bit_index(row: int, col: int) -> int {
    (7 - row) * 8 + (7 - col)
}

/// The mask with exactly the bit of the square `(row, col)` set.
pub open spec fn square_bit(row: int, col: int) -> u64 {
    1u64 << (bit_index(row, col) as u64)
}

/// The square `(row, col)` is on the board and occupied in `board`.
pub open spec fn occupied(board: u64, row: int, col: int) -> bool {
    on_board(row, col) && board & square_bit(row, col) != 0
}

/// The square of the first set bit of `position` at or after scan index `i`, where
/// scan index 0 is the most significant bit; `(0, 0)` when there is none.
pub open spec fn scan_from(position: u64, i: int) -> (int, int)
    decreases 64 - i,
{
    if i < 0 || i >= 64 {
        (0, 0)
    } else if position & (1u64 << ((63 - i) as u64)) != 0 {
        (i / 8, i % 8)
    } else {
        scan_from(position, i + 1)
    }
}

/// The square of the most significant set bit of `position`; `(0, 0)` for the empty mask.
pub open spec fn rowcol(position: u64) -> (int, int) {
    scan_from(position, 0)
}

/// `position` is the mask of exactly one square.
pub open spec fn is_square(position: u64) -> bool {
    position == square_bit(rowcol(position).0, rowcol(position).1)
}

/// Whatever the mask, the scan ends on a square of the board.
pub proof fn lemma_scan_on_board(position: u64, i: int)
    ensures
        on_board(scan_from(position, i).0, scan_from(position, i).1),
    decreases 64 - i,
{
    if 0 <= i < 64 && position & (1u64 << ((63 - i) as u64)) == 0 {
        lemma_scan_on_board(position, i + 1);
    }
}

/// `rowcol` always names a square of the board.
pub proof fn lemma_rowcol_on_board(position: u64)
    ensures
        on_board(rowcol(position).0, rowcol(position).1),
{
    lemma_scan_on_board(position, 0);
}

/// A scan that starts at or before the square of a one-square mask ends on it.
proof fn lemma_scan_finds(row: int, col: int, i: int)
    requires
        on_board(row, col),
        0 <= i <= 8 * row + col,
    ensures
        scan_from(square_bit(row, col), i) == (row, col),
    decreases 8 * row + col - i,
{
    let b = bit_index(row, col) as u64;
    lemma_bits_meet(b, (63 - i) as u64);
    if i < 8 * row + col {
        lemma_scan_finds(row, col, i + 1);
    }
}

/// Reading back the square of a one-square mask gives the square it was made from.
pub proof fn lemma_rowcol_of_square(row: int, col: int)
    requires
        on_board(row, col),
    ensures
        rowcol(square_bit(row, col)) == (row, col),
        is_square(square_bit(row, col)),
{
    lemma_scan_finds(row, col, 0);
}

/// A scan that starts at or before an occupied square ends on an occupied square
/// no later than that one.
proof fn lemma_scan_first(position: u64, row: int, col: int, i: int)
    requires
        occupied(position, row, col),
        0 <= i <= 8 * row + col,
    ensures
        occupied(position, scan_from(position, i).0, scan_from(position, i).1),
        i <= 8 * scan_from(position, i).0 + scan_from(position, i).1 <= 8 * row + col,
    decreases 8 * row + col - i,
{
    if position & (1u64 << ((63 - i) as u64)) == 0 {
        lemma_scan_first(position, row, col, i + 1);
    }
}

/// Of the occupied squares of a mask, `rowcol` names the one that comes first when
/// the board is read row by row from the top, each row from the left.
pub proof fn lemma_rowcol_first(position: u64, row: int, col: int)
    requires
        occupied(position, row, col),
    ensures
        occupied(position, rowcol(position).0, rowcol(position).1),
        8 * rowcol(position).0 + rowcol(position).1 <= 8 * row + col,
{
    lemma_scan_first(position, row, col, 0);
}

/// Two squares of the board have a bit in common exactly when they are one square.
pub proof fn lemma_squares_meet(r1: int, c1: int, r2: int, c2: int)
    requires
        on_board(r1, c1),
        on_board(r2, c2),
    ensures
        (square_bit(r1, c1) & square_bit(r2, c2) != 0) <==> (r1 == r2 && c1 == c2),
        occupied(square_bit(r1, c1), r2, c2) <==> (r1 == r2 && c1 == c2),
        square_bit(r1, c1) != 0,
{
    lemma_bits_meet(bit_index(r1, c1) as u64, bit_index(r2, c2) as u64);
}

/// Bit `i` of a mask is the bit of the square `(7 - i / 8, 7 - i % 8)`.
pub proof fn lemma_bit_is_square(i: int)
    requires
        0 <= i < 64,
    ensures
        on_board(7 - i / 8, 7 - i % 8),
        1u64 << (i as u64) == square_bit(7 - i / 8, 7 - i % 8),
        is_square(1u64 << (i as u64)),
        rowcol(1u64 << (i as u64)) == (7 - i / 8, 7 - i % 8),
{
    lemma_rowcol_of_square(7 - i / 8, 7 - i % 8);
}

/// The one-bit mask of the square in row `row` and column `column`.
pub fn bitboard_position(row: u8, column: u8) -> (bitboard: u64)
    requires
        row <= 7,
        column <= 7,
    ensures
        bitboard == square_bit(row as int, column as int),
        is_square(bitboard),
        rowcol(bitboard) == (row as int, column as int),
{
    proof {
        lemma_rowcol_of_square(row as int, column as int);
    }
    let shift: u64 = (((7 - row) * 8) + (7 - column)) as u64;
    1u64 << shift
}

/// The square of `position` as `(row, column)`. Where `position` holds more than
/// one square, this is the first of them in reading order; for the empty mask it
/// is `(0, 0)`.
pub fn bitboard_rowcol(position: u64) -> (rc: (u8, u8))
    ensures
        (rc.0 as int, rc.1 as int) == rowcol(position),
        rc.0 <= 7,
        rc.1 <= 7,
        is_square(position) ==> position == square_bit(rc.0 as int, rc.1 as int),
{
    let mut i: u8 = 0;
    while i < 64
        invariant
            i <= 64,
            scan_from(position, i as int) == rowcol(position),
        decreases 64 - i,
    {
        let pointer: u64 = 1u64 << ((63 - i) as u64);
        if position & pointer != 0 {
            return (i / 8, i % 8);
        }
        i += 1;
    }
    (0, 0)
}

/// Whether `position` is the mask of exactly one square.
pub fn is_single_square(position: u64) -> (single: bool)
    ensures
        single == is_square(position),
{
    let (row, column) = bitboard_rowcol(position);
    position == bitboard_position(row, column)
}

} // verus!
