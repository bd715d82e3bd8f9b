//! Where a square lies relative to the border, and the squares around it.

use vstd::prelude::*;
use crate::bits::lemma_or_meets;
use crate::square::{
    bit_index, bitboard_rowcol, is_square, lemma_rowcol_on_board, lemma_squares_meet, occupied,
    on_board, rowcol, square_bit,
};

verus! {

/// The inner 6x6 squares, which touch no border.
pub const GENERAL_EDGE: u64 = 35604928818740736;

/// Row 0.
pub const TOP_EDGE: u64 = 18374686479671623680;

/// Row 7.
pub const BOTTOM_EDGE: u64 = 255;

/// Column 7.
pub const RIGHT_EDGE: u64 = 72340172838076673;

/// Column 0.
pub const LEFT_EDGE: u64 = 9259542123273814144;

/// The three squares around the corner `(0, 7)`.
pub const RIGHT_TOP_MESH: u64 = 144959613005987840;

/// The three squares around the corner `(0, 0)`.
pub const LEFT_TOP_MESH: u64 = 4665729213955833856;

/// The three squares around the corner `(7, 7)`.
pub const RIGHT_BOTTOM_MESH: u64 = 770;

/// The three squares around the corner `(7, 0)`.
pub const LEFT_BOTTOM_MESH: u64 = 49216;

/// The five squares around `(6, 7)`; shifted left by whole rows for the rest of column 7.
pub const RIGHT_MESH: u64 = 197123;

/// The five squares around `(6, 0)`; shifted left by whole rows for the rest of column 0.
pub const LEFT_MESH: u64 = 12599488;

/// The five squares around `(0, 6)`; shifted left by columns for the rest of row 0.
pub const TOP_MESH: u64 = 362258295026614272;

/// The five squares around `(7, 6)`; shifted left by columns for the rest of row 7.
pub const BOTTOM_MESH: u64 = 1797;

/// The eight squares around `(6, 6)`; shifted left for the other inner squares.
pub const GENERAL_MESH: u64 = 460039;

/// The bit of the square `(row + dr, col + dc)` where that is on the board, else nothing.
pub open spec fn neighbour_bit(row: int, col: int, dr: int, dc: int) -> u64 {
    if on_board(row + dr, col + dc) {
        square_bit(row + dr, col + dc)
    } else {
        0
    }
}

/// The squares of the board that touch `(row, col)` by a side or a corner.
pub open spec fn neighbours(row: int, col: int) -> u64 {
    neighbour_bit(row, col, -1, -1) | neighbour_bit(row, col, -1, 0) | neighbour_bit(
        row,
        col,
        -1,
        1,
    ) | neighbour_bit(row, col, 0, -1) | neighbour_bit(row, col, 0, 1) | neighbour_bit(
        row,
        col,
        1,
        -1,
    ) | neighbour_bit(row, col, 1, 0) | neighbour_bit(row, col, 1, 1)
}

/// Two different squares that touch by a side or a corner.
pub open spec fn adjacent(r1: int, c1: int, r2: int, c2: int) -> bool {
    &&& -1 <= r1 - r2 <= 1
    &&& -1 <= c1 - c2 <= 1
    &&& !(r1 == r2 && c1 == c2)
}

/// One of the eight neighbours is the square `(r, c)` exactly when the steps lead there.
proof fn lemma_neighbour_bit_has(row: int, col: int, dr: int, dc: int, r: int, c: int)
    requires
        on_board(r, c),
    ensures
        (neighbour_bit(row, col, dr, dc) & square_bit(r, c) != 0) <==> (r == row + dr && c == col
            + dc),
{
    if on_board(row + dr, col + dc) {
        lemma_squares_meet(row + dr, col + dc, r, c);
    } else {
        lemma_or_meets(0, 0, square_bit(r, c));
    }
}

/// The mesh around a square holds exactly the squares of the board next to it: no
/// bit of it lies across a border from the square, whether the square is inside,
/// on an edge or in a corner.
pub proof fn lemma_neighbours_adjacent(row: int, col: int, r: int, c: int)
    ensures
        occupied(neighbours(row, col), r, c) <==> (on_board(r, c) && adjacent(r, c, row, col)),
{
    if on_board(r, c) {
        let p = square_bit(r, c);
        let n1 = neighbour_bit(row, col, -1, -1);
        let n2 = neighbour_bit(row, col, -1, 0);
        let n3 = neighbour_bit(row, col, -1, 1);
        let n4 = neighbour_bit(row, col, 0, -1);
        let n5 = neighbour_bit(row, col, 0, 1);
        let n6 = neighbour_bit(row, col, 1, -1);
        let n7 = neighbour_bit(row, col, 1, 0);
        let n8 = neighbour_bit(row, col, 1, 1);
        lemma_neighbour_bit_has(row, col, -1, -1, r, c);
        lemma_neighbour_bit_has(row, col, -1, 0, r, c);
        lemma_neighbour_bit_has(row, col, -1, 1, r, c);
        lemma_neighbour_bit_has(row, col, 0, -1, r, c);
        lemma_neighbour_bit_has(row, col, 0, 1, r, c);
        lemma_neighbour_bit_has(row, col, 1, -1, r, c);
        lemma_neighbour_bit_has(row, col, 1, 0, r, c);
        lemma_neighbour_bit_has(row, col, 1, 1, r, c);
        lemma_or_meets(n1, n2, p);
        lemma_or_meets(n1 | n2, n3, p);
        lemma_or_meets(n1 | n2 | n3, n4, p);
        lemma_or_meets(n1 | n2 | n3 | n4, n5, p);
        lemma_or_meets(n1 | n2 | n3 | n4 | n5, n6, p);
        lemma_or_meets(n1 | n2 | n3 | n4 | n5 | n6, n7, p);
        lemma_or_meets(n1 | n2 | n3 | n4 | n5 | n6 | n7, n8, p);
    }
}

/// A square by its place on the board: inside, on one edge, or in a corner.
/// The first five kinds carry the square's mask; a corner is known by its kind.
#[derive(Clone, Copy, Debug, PartialEq, Eq)]
pub enum Position {
    Inner6x6(u64),
    LeftEdge(u64),
    RightEdge(u64),
    TopEdge(u64),
    BottomEdge(u64),
    LeftTop,
    RightTop,
    LeftBottom,
    RightBottom,
}

/// What the edge masks say of `position`: the inner region first, then the corners,
/// then the single edges; a mask that meets none of them counts as bottom edge.
pub open spec fn by_masks(position: u64) -> Position {
    let right = position & RIGHT_EDGE != 0;
    let left = position & LEFT_EDGE != 0;
    let top = position & TOP_EDGE != 0;
    let bottom = position & BOTTOM_EDGE != 0;
    if position & GENERAL_EDGE != 0 {
        Position::Inner6x6(position)
    } else if right && top {
        Position::RightTop
    } else if left && top {
        Position::LeftTop
    } else if right && bottom {
        Position::RightBottom
    } else if left && bottom {
        Position::LeftBottom
    } else if top {
        Position::TopEdge(position)
    } else if left {
        Position::LeftEdge(position)
    } else if right {
        Position::RightEdge(position)
    } else {
        Position::BottomEdge(position)
    }
}

/// What each edge mask says of bit `b`: the rows are the bytes, the columns the
/// bits within a byte.
proof fn lemma_edge_tests(b: u64)
    by (bit_vector)
    requires
        b < 64,
    ensures
        ((1u64 << b) & TOP_EDGE != 0) <==> b >= 56,
        ((1u64 << b) & BOTTOM_EDGE != 0) <==> b < 8,
        ((1u64 << b) & RIGHT_EDGE != 0) <==> b % 8 == 0,
        ((1u64 << b) & LEFT_EDGE != 0) <==> b % 8 == 7,
        ((1u64 << b) & GENERAL_EDGE != 0) <==> (8 <= b < 56 && 1 <= b % 8 <= 6),
{
}

/// The inner mesh, shifted into place, is the eight bits round bit `b`.
proof fn lemma_mesh_inner(b: u64)
    by (bit_vector)
    requires
        9 <= b <= 54,
    ensures
        GENERAL_MESH << ((b - 9) as u64) == (1u64 << ((b + 9) as u64)) | (1u64 << ((b + 8) as u64))
            | (1u64 << ((b + 7) as u64)) | (1u64 << ((b + 1) as u64)) | (1u64 << ((b - 1) as u64))
            | (1u64 << ((b - 7) as u64)) | (1u64 << ((b - 8) as u64)) | (1u64 << ((b - 9) as u64)),
{
}

/// The left mesh, shifted into place, is the five bits round bit `b` of column 0.
proof fn lemma_mesh_left(b: u64)
    by (bit_vector)
    requires
        15 <= b <= 55,
    ensures
        LEFT_MESH << ((b - 15) as u64) == 0u64 | (1u64 << ((b + 8) as u64)) | (1u64 << ((b
            + 7) as u64)) | 0u64 | (1u64 << ((b - 1) as u64)) | 0u64 | (1u64 << ((b - 8) as u64))
            | (1u64 << ((b - 9) as u64)),
{
}

/// The right mesh, shifted into place, is the five bits round bit `b` of column 7.
proof fn lemma_mesh_right(b: u64)
    by (bit_vector)
    requires
        8 <= b <= 48,
    ensures
        RIGHT_MESH << ((b - 8) as u64) == (1u64 << ((b + 9) as u64)) | (1u64 << ((b + 8) as u64))
            | 0u64 | (1u64 << ((b + 1) as u64)) | 0u64 | (1u64 << ((b - 7) as u64)) | (1u64 << ((b
            - 8) as u64)) | 0u64,
{
}

/// The top mesh, shifted into place, is the five bits round bit `b` of row 0.
proof fn lemma_mesh_top(b: u64)
    by (bit_vector)
    requires
        57 <= b <= 62,
    ensures
        TOP_MESH << ((b - 57) as u64) == 0u64 | 0u64 | 0u64 | (1u64 << ((b + 1) as u64)) | (1u64
            << ((b - 1) as u64)) | (1u64 << ((b - 7) as u64)) | (1u64 << ((b - 8) as u64)) | (1u64
            << ((b - 9) as u64)),
{
}

/// The bottom mesh, shifted into place, is the five bits round bit `b` of row 7.
proof fn lemma_mesh_bottom(b: u64)
    by (bit_vector)
    requires
        1 <= b <= 6,
    ensures
        BOTTOM_MESH << ((b - 1) as u64) == (1u64 << ((b + 9) as u64)) | (1u64 << ((b + 8) as u64))
            | (1u64 << ((b + 7) as u64)) | (1u64 << ((b + 1) as u64)) | (1u64 << ((b - 1) as u64))
            | 0u64 | 0u64 | 0u64,
{
}

/// Each corner mesh is the three bits round its corner.
proof fn lemma_mesh_corners()
    by (bit_vector)
    ensures
        LEFT_TOP_MESH == 0u64 | 0u64 | 0u64 | 0u64 | (1u64 << 62u64) | 0u64 | (1u64 << 55u64) | (
        1u64 << 54u64),
        RIGHT_TOP_MESH == 0u64 | 0u64 | 0u64 | (1u64 << 57u64) | 0u64 | (1u64 << 49u64) | (1u64
            << 48u64) | 0u64,
        LEFT_BOTTOM_MESH == 0u64 | (1u64 << 15u64) | (1u64 << 14u64) | 0u64 | (1u64 << 6u64) | 0u64
            | 0u64 | 0u64,
        RIGHT_BOTTOM_MESH == (1u64 << 9u64) | (1u64 << 8u64) | 0u64 | (1u64 << 1u64) | 0u64 | 0u64
            | 0u64 | 0u64,
{
}

impl Position {
    /// The square that was classified.
    pub open spec fn square(self) -> (int, int) {
        match self {
            Position::Inner6x6(p) => rowcol(p),
            Position::LeftEdge(p) => rowcol(p),
            Position::RightEdge(p) => rowcol(p),
            Position::TopEdge(p) => rowcol(p),
            Position::BottomEdge(p) => rowcol(p),
            Position::LeftTop => (0, 0),
            Position::RightTop => (0, 7),
            Position::LeftBottom => (7, 0),
            Position::RightBottom => (7, 7),
        }
    }

    /// The kind agrees with the square it carries: the mask is that of one square,
    /// and the square lies where the kind says.
    pub open spec fn wf(self) -> bool {
        match self {
            Position::Inner6x6(p) => is_square(p) && 1 <= rowcol(p).0 <= 6 && 1 <= rowcol(p).1
                <= 6,
            Position::LeftEdge(p) => is_square(p) && 1 <= rowcol(p).0 <= 6 && rowcol(p).1 == 0,
            Position::RightEdge(p) => is_square(p) && 1 <= rowcol(p).0 <= 6 && rowcol(p).1 == 7,
            Position::TopEdge(p) => is_square(p) && rowcol(p).0 == 0 && 1 <= rowcol(p).1 <= 6,
            Position::BottomEdge(p) => is_square(p) && rowcol(p).0 == 7 && 1 <= rowcol(p).1 <= 6,
            _ => true,
        }
    }

    /// Classifies `position` by the edge masks.
    pub fn new(position: u64) -> (kind: Position)
        ensures
            kind == by_masks(position),
            is_square(position) ==> kind.wf() && kind.square() == rowcol(position),
    {
        proof {
            lemma_rowcol_on_board(position);
            if is_square(position) {
                lemma_edge_tests(bit_index(rowcol(position).0, rowcol(position).1) as u64);
            }
        }
        let is_inner_6x6 = position & GENERAL_EDGE != 0;
        let is_edge_right = position & RIGHT_EDGE != 0;
        let is_edge_left = position & LEFT_EDGE != 0;
        let is_edge_top = position & TOP_EDGE != 0;
        let is_edge_bottom = position & BOTTOM_EDGE != 0;
        let is_lefttop = is_edge_left && is_edge_top;
        let is_righttop = is_edge_right && is_edge_top;
        let is_leftbottom = is_edge_left && is_edge_bottom;
        let is_rightbottom = is_edge_right && is_edge_bottom;

        if is_inner_6x6 {
            Position::Inner6x6(position)
        } else if is_righttop {
            Position::RightTop
        } else if is_lefttop {
            Position::LeftTop
        } else if is_rightbottom {
            Position::RightBottom
        } else if is_leftbottom {
            Position::LeftBottom
        } else if is_edge_top {
            Position::TopEdge(position)
        } else if is_edge_left {
            Position::LeftEdge(position)
        } else if is_edge_right {
            Position::RightEdge(position)
        } else {
            Position::BottomEdge(position)
        }
    }

    /// The squares around the classified square, clipped to the board.
    pub fn placable_mesh(&self) -> (mesh: u64)
        requires
            self.wf(),
        ensures
            mesh == neighbours(self.square().0, self.square().1),
    {
        let ghost b = bit_index(self.square().0, self.square().1) as u64;
        match self {
            Self::Inner6x6(position) => {
                let (row, column) = bitboard_rowcol(*position);
                proof {
                    lemma_mesh_inner(b);
                }
                GENERAL_MESH << ((8 * (6 - row) + (6 - column)) as u64)
            },
            Self::LeftEdge(position) => {
                let (row, _) = bitboard_rowcol(*position);
                proof {
                    lemma_mesh_left(b);
                }
                LEFT_MESH << ((8 * (6 - row)) as u64)
            },
            Self::RightEdge(position) => {
                let (row, _) = bitboard_rowcol(*position);
                proof {
                    lemma_mesh_right(b);
                }
                RIGHT_MESH << ((8 * (6 - row)) as u64)
            },
            Self::TopEdge(position) => {
                let (_, column) = bitboard_rowcol(*position);
                proof {
                    lemma_mesh_top(b);
                }
                TOP_MESH << ((6 - column) as u64)
            },
            Self::BottomEdge(position) => {
                let (_, column) = bitboard_rowcol(*position);
                proof {
                    lemma_mesh_bottom(b);
                }
                BOTTOM_MESH << ((6 - column) as u64)
            },
            Self::LeftTop => {
                proof {
                    lemma_mesh_corners();
                }
                LEFT_TOP_MESH
            },
            Self::RightTop => {
                proof {
                    lemma_mesh_corners();
                }
                RIGHT_TOP_MESH
            },
            Self::LeftBottom => {
                proof {
                    lemma_mesh_corners();
                }
                LEFT_BOTTOM_MESH
            },
            Self::RightBottom => {
                proof {
                    lemma_mesh_corners();
                }
                RIGHT_BOTTOM_MESH
            },
        }
    }
}

} // verus!
