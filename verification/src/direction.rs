//! The eight directions of the board and the search along one of them for a run
//! of opposing pieces closed by a piece of the side to move.

use vstd::prelude::*;
use crate::bits::lemma_or_meets;
use crate::square::{
    bit_index, bitboard_rowcol, is_square, lemma_rowcol_of_square, lemma_rowcol_on_board,
    lemma_squares_meet, occupied, on_board, rowcol, square_bit,
};

verus! {

/// A direction of travel on the board. North is towards row 0, east towards column 7.
#[derive(Clone, Copy, Debug, PartialEq, Eq)]
pub enum Direction {
    East,
    West,
    North,
    South,
    NorthEast,
    SouthEast,
    NorthWest,
    SouthWest,
}

/// What each of the eight shifts does to bit `b`, as long as the bit stays in the mask.
proof fn lemma_shift_bit(b: u64, n: u64)
    by (bit_vector)
    requires
        b < 64,
        n <= 7,
    ensures
        n <= b ==> (1u64 << b) >> n == 1u64 << ((b - n) as u64),
        b + n < 64 ==> (1u64 << b) << n == 1u64 << ((b + n) as u64),
        b + n * 8 < 64 ==> (1u64 << b) << ((n * 8) as u64) == 1u64 << ((b + n * 8) as u64),
        n * 8 <= b ==> (1u64 << b) >> ((n * 8) as u64) == 1u64 << ((b - n * 8) as u64),
        b + n * 8 < 64 ==> ((1u64 << b) << ((n * 8) as u64)) >> n == 1u64 << ((b + n * 7) as u64),
        n * 9 <= b ==> ((1u64 << b) >> ((n * 8) as u64)) >> n == 1u64 << ((b - n * 9) as u64),
        b + n * 9 < 64 ==> ((1u64 << b) << ((n * 8) as u64)) << n == 1u64 << ((b + n * 9) as u64),
        n * 8 <= b ==> ((1u64 << b) >> ((n * 8) as u64)) << n == 1u64 << ((b - n * 7) as u64),
{
}

impl Direction {
    /// The row reached from `row` after `n` steps.
    pub open spec fn ray_row(self, row: int, n: int) -> int {
        match self {
            Direction::North | Direction::NorthEast | Direction::NorthWest => row - n,
            Direction::South | Direction::SouthEast | Direction::SouthWest => row + n,
            Direction::East | Direction::West => row,
        }
    }

    /// The column reached from `col` after `n` steps.
    pub open spec fn ray_col(self, col: int, n: int) -> int {
        match self {
            Direction::East | Direction::NorthEast | Direction::SouthEast => col + n,
            Direction::West | Direction::NorthWest | Direction::SouthWest => col - n,
            Direction::North | Direction::South => col,
        }
    }

    /// One more step from `(row, col)` would leave the board.
    pub open spec fn at_border(self, row: int, col: int) -> bool {
        !on_board(self.ray_row(row, 1), self.ray_col(col, 1))
    }

    /// What `shift` does to the bits of any mask.
    pub open spec fn shifted(self, position: u64, n: u64) -> u64 {
        match self {
            Direction::East => position >> n,
            Direction::West => position << n,
            Direction::North => position << ((n * 8) as u64),
            Direction::South => position >> ((n * 8) as u64),
            Direction::NorthEast => (position << ((n * 8) as u64)) >> n,
            Direction::SouthEast => (position >> ((n * 8) as u64)) >> n,
            Direction::NorthWest => (position << ((n * 8) as u64)) << n,
            Direction::SouthWest => (position >> ((n * 8) as u64)) << n,
        }
    }

    /// Shifting the bit of a square `n` steps gives the bit of the square `n` steps
    /// away, as long as that square is on the board.
    pub proof fn lemma_shift_moves(self, row: int, col: int, n: u64)
        requires
            on_board(row, col),
            n <= 7,
            on_board(self.ray_row(row, n as int), self.ray_col(col, n as int)),
        ensures
            self.shifted(square_bit(row, col), n) == square_bit(
                self.ray_row(row, n as int),
                self.ray_col(col, n as int),
            ),
    {
        lemma_shift_bit(bit_index(row, col) as u64, n);
    }

    /// Moves every piece of `position` by `n` steps; pieces that leave the mask at
    /// either end are lost.
    pub fn shift(self, position: u64, n: u64) -> (moved: u64)
        requires
            n <= 7,
        ensures
            moved == self.shifted(position, n),
            is_square(position) && on_board(
                self.ray_row(rowcol(position).0, n as int),
                self.ray_col(rowcol(position).1, n as int),
            ) ==> moved == square_bit(
                self.ray_row(rowcol(position).0, n as int),
                self.ray_col(rowcol(position).1, n as int),
            ),
    {
        proof {
            lemma_rowcol_on_board(position);
            if is_square(position) && on_board(
                self.ray_row(rowcol(position).0, n as int),
                self.ray_col(rowcol(position).1, n as int),
            ) {
                self.lemma_shift_moves(rowcol(position).0, rowcol(position).1, n);
            }
        }
        match self {
            Direction::East => position >> n,
            Direction::West => position << n,
            Direction::North => position << (n * 8),
            Direction::South => position >> (n * 8),
            Direction::NorthEast => (position << (n * 8)) >> n,
            Direction::SouthEast => (position >> (n * 8)) >> n,
            Direction::NorthWest => (position << (n * 8)) << n,
            Direction::SouthWest => (position >> (n * 8)) << n,
        }
    }

    /// Whether the square of `position` lies on the border that this direction runs into.
    pub fn is_border(self, position: u64) -> (last: bool)
        ensures
            last == self.at_border(rowcol(position).0, rowcol(position).1),
    {
        let (row, column) = bitboard_rowcol(position);
        match self {
            Direction::East => column == 7,
            Direction::West => column == 0,
            Direction::North => row == 0,
            Direction::South => row == 7,
            Direction::NorthEast => row == 0 || column == 7,
            Direction::SouthEast => row == 7 || column == 7,
            Direction::NorthWest => row == 0 || column == 0,
            Direction::SouthWest => row == 7 || column == 0,
        }
    }
}

/// The square `k` steps from `(row, col)` in direction `d` is on the board and
/// occupied in `board`.
pub open spec fn stone(board: u64, d: Direction, row: int, col: int, k: int) -> bool {
    occupied(board, d.ray_row(row, k), d.ray_col(col, k))
}

/// Going from `(row, col)` in direction `d`, the first `len - 1` squares hold
/// pieces of `foe`, and the square after them holds a piece of `ally` and none of `foe`.
pub open spec fn is_bracket(
    ally: u64,
    foe: u64,
    d: Direction,
    row: int,
    col: int,
    len: int,
) -> bool {
    &&& len >= 1
    &&& forall|k: int| 1 <= k < len ==> #[trigger] stone(foe, d, row, col, k)
    &&& !stone(foe, d, row, col, len)
    &&& stone(ally, d, row, col, len)
}

/// The squares at steps 1 to `len - 1` from `(row, col)` in direction `d`.
pub open spec fn run_mask(d: Direction, row: int, col: int, len: int) -> u64
    decreases len,
{
    if len <= 1 {
        0
    } else {
        run_mask(d, row, col, len - 1) | square_bit(
            d.ray_row(row, len - 1),
            d.ray_col(col, len - 1),
        )
    }
}

/// The run of `foe` pieces that a piece of `ally` placed on `(row, col)` would close
/// in direction `d`, where there is one. The run is empty where the first square in
/// that direction already holds a piece of `ally`.
pub open spec fn bracket(ally: u64, foe: u64, d: Direction, row: int, col: int) -> Option<u64> {
    if exists|len: int| is_bracket(ally, foe, d, row, col, len) {
        Some(run_mask(d, row, col, choose|len: int| is_bracket(ally, foe, d, row, col, len)))
    } else {
        None
    }
}

/// The square `(r, c)` is one of the squares at steps 1 to `len - 1` from
/// `(row, col)` in direction `d`.
pub open spec fn on_ray(d: Direction, row: int, col: int, len: int, r: int, c: int) -> bool {
    exists|k: int| 1 <= k < len && r == #[trigger] d.ray_row(row, k) && c == d.ray_col(col, k)
}

/// Where the squares at steps 1 to `len - 1` are on the board, the mask of the run
/// holds exactly those squares.
pub proof fn lemma_run_mask(d: Direction, row: int, col: int, len: int, r: int, c: int)
    requires
        forall|k: int|
            1 <= k < len ==> on_board(#[trigger] d.ray_row(row, k), d.ray_col(col, k)),
    ensures
        occupied(run_mask(d, row, col, len), r, c) <==> (on_board(r, c) && on_ray(
            d,
            row,
            col,
            len,
            r,
            c,
        )),
    decreases len,
{
    if on_board(r, c) {
        let p = square_bit(r, c);
        if len <= 1 {
            lemma_or_meets(0, 0, p);
        } else {
            let rk = d.ray_row(row, len - 1);
            let ck = d.ray_col(col, len - 1);
            lemma_run_mask(d, row, col, len - 1, r, c);
            lemma_or_meets(run_mask(d, row, col, len - 1), square_bit(rk, ck), p);
            lemma_squares_meet(rk, ck, r, c);
            if on_ray(d, row, col, len - 1, r, c) {
                let k = choose|k: int|
                    1 <= k < len - 1 && r == #[trigger] d.ray_row(row, k) && c == d.ray_col(col, k);
                assert(1 <= k < len && r == d.ray_row(row, k) && c == d.ray_col(col, k));
            }
            if on_ray(d, row, col, len, r, c) {
                let k = choose|k: int|
                    1 <= k < len && r == #[trigger] d.ray_row(row, k) && c == d.ray_col(col, k);
                if k < len - 1 {
                    assert(1 <= k < len - 1 && r == d.ray_row(row, k) && c == d.ray_col(col, k));
                }
            }
        }
    }
}

/// A direction has at most one bracket from a square.
pub proof fn lemma_bracket_unique(
    ally: u64,
    foe: u64,
    d: Direction,
    row: int,
    col: int,
    len1: int,
    len2: int,
)
    requires
        is_bracket(ally, foe, d, row, col, len1),
        is_bracket(ally, foe, d, row, col, len2),
    ensures
        len1 == len2,
{
    if len1 < len2 {
        assert(stone(foe, d, row, col, len1));
    }
    if len2 < len1 {
        assert(stone(foe, d, row, col, len2));
    }
}

/// Searches from the square of `position` in direction `d` for a run of `foe`
/// pieces closed by a piece of `ally`. The first step must stay on the board.
pub fn directional_mesh(position: u64, ally: u64, foe: u64, d: Direction) -> (found: Option<u64>)
    requires
        is_square(position),
        !d.at_border(rowcol(position).0, rowcol(position).1),
    ensures
        found == bracket(ally, foe, d, rowcol(position).0, rowcol(position).1),
{
    let ghost row = rowcol(position).0;
    let ghost col = rowcol(position).1;
    proof {
        lemma_rowcol_on_board(position);
    }
    let mut count: u64 = 1;
    let mut mesh: u64 = 0;
    loop
        invariant
            is_square(position),
            row == rowcol(position).0,
            col == rowcol(position).1,
            on_board(row, col),
            1 <= count <= 7,
            on_board(d.ray_row(row, count as int), d.ray_col(col, count as int)),
            forall|k: int| 1 <= k < count ==> #[trigger] stone(foe, d, row, col, k),
            mesh == run_mask(d, row, col, count as int),
        decreases 8 - count,
    {
        let shifted = d.shift(position, count);
        if foe & shifted != 0 {
            mesh |= shifted;
        } else if ally & shifted != 0 {
            proof {
                assert(is_bracket(ally, foe, d, row, col, count as int));
                let len = choose|len: int| is_bracket(ally, foe, d, row, col, len);
                lemma_bracket_unique(ally, foe, d, row, col, count as int, len);
            }
            return Some(mesh);
        } else {
            proof {
                assert forall|len: int| !is_bracket(ally, foe, d, row, col, len) by {
                    if is_bracket(ally, foe, d, row, col, len) {
                        if len < count {
                            assert(stone(foe, d, row, col, len));
                        } else if len > count {
                            assert(stone(foe, d, row, col, count as int));
                        }
                    }
                }
            }
            return None;
        }
        proof {
            lemma_rowcol_of_square(
                d.ray_row(row, count as int),
                d.ray_col(col, count as int),
            );
            assert(stone(foe, d, row, col, count as int));
        }
        if d.is_border(shifted) {
            proof {
                assert forall|len: int| !is_bracket(ally, foe, d, row, col, len) by {
                    if is_bracket(ally, foe, d, row, col, len) {
                        if len <= count {
                            assert(stone(foe, d, row, col, len));
                        } else {
                            assert(stone(ally, d, row, col, len));
                        }
                    }
                }
            }
            return None;
        }
        count += 1;
    }
}

} // verus!
