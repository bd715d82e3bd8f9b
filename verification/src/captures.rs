//! The legal moves of the side to move, each with the pieces it would turn over.

use std::collections::HashMap;
use vstd::prelude::*;
use crate::bits::{lemma_or_meets, lemma_within, within};
use crate::candidates::{
    all_placable, candidates, lemma_candidates, lemma_pieces, piece_positions, pieces, touches,
};
use crate::direction::{
    bracket, directional_mesh, is_bracket, lemma_bracket_unique, lemma_run_mask, on_ray, run_mask,
    stone, Direction,
};
use crate::square::{
    bit_index, bitboard_rowcol, is_square, lemma_rowcol_on_board, occupied, on_board, rowcol,
    square_bit,
};

verus! {

/// The pieces of `foe` that a piece of `ally` placed on `(row, col)` would turn over
/// in direction `d`.
pub open spec fn gain(ally: u64, foe: u64, d: Direction, row: int, col: int) -> u64 {
    match bracket(ally, foe, d, row, col) {
        Some(mesh) => mesh,
        None => 0,
    }
}

/// The pieces of `foe` that a piece of `ally` placed on `(row, col)` would turn over.
pub open spec fn flips(ally: u64, foe: u64, row: int, col: int) -> u64 {
    gain(ally, foe, Direction::East, row, col) | gain(ally, foe, Direction::West, row, col) | gain(
        ally,
        foe,
        Direction::North,
        row,
        col,
    ) | gain(ally, foe, Direction::South, row, col) | gain(
        ally,
        foe,
        Direction::NorthEast,
        row,
        col,
    ) | gain(ally, foe, Direction::SouthEast, row, col) | gain(
        ally,
        foe,
        Direction::NorthWest,
        row,
        col,
    ) | gain(ally, foe, Direction::SouthWest, row, col)
}

/// The pieces that a move to the square of `position` would turn over.
pub open spec fn flips_at(ally: u64, foe: u64, position: u64) -> u64 {
    flips(ally, foe, rowcol(position).0, rowcol(position).1)
}

/// `position` is one empty square, and a piece of `ally` placed there turns over
/// at least one piece of `foe`.
pub open spec fn is_legal_move(ally: u64, foe: u64, position: u64) -> bool {
    &&& is_square(position)
    &&& (ally | foe) & position == 0
    &&& flips_at(ally, foe, position) != 0
}

/// The side to move has a legal move.
pub open spec fn has_legal_move(ally: u64, foe: u64) -> bool {
    exists|position: u64| is_legal_move(ally, foe, position)
}

/// Every legal move of `ally`, with the pieces of `foe` that it turns over.
pub open spec fn capture_map(ally: u64, foe: u64) -> Map<u64, u64> {
    Map::new(
        |position: u64| is_legal_move(ally, foe, position),
        |position: u64| flips_at(ally, foe, position),
    )
}

/// What a computation of the legal moves may hand back: the whole map where there
/// is a legal move, and nothing where there is none.
pub open spec fn captures_outcome(ally: u64, foe: u64, moves: Option<Map<u64, u64>>) -> bool {
    match moves {
        Some(map) => has_legal_move(ally, foe) && map == capture_map(ally, foe),
        None => !has_legal_move(ally, foe),
    }
}

/// `position` is among the first `k` entries of `positions`.
spec fn listed(positions: Seq<u64>, k: int, position: u64) -> bool {
    exists|j: int| 0 <= j < k && j < positions.len() && #[trigger] positions[j] == position
}

/// From a square on the border that a direction runs into, that direction has no bracket.
pub proof fn lemma_no_bracket_at_border(ally: u64, foe: u64, d: Direction, row: int, col: int)
    requires
        on_board(row, col),
        d.at_border(row, col),
    ensures
        bracket(ally, foe, d, row, col) == None::<u64>,
        gain(ally, foe, d, row, col) == 0,
{
    assert forall|len: int| !is_bracket(ally, foe, d, row, col, len) by {
        if is_bracket(ally, foe, d, row, col, len) {
            assert(stone(ally, d, row, col, len));
        }
    }
}

/// The pieces that a move turns over in one direction are pieces of `foe`, and
/// where there are any, the first square in that direction holds one.
pub proof fn lemma_gain(ally: u64, foe: u64, d: Direction, row: int, col: int)
    ensures
        within(gain(ally, foe, d, row, col), foe),
        gain(ally, foe, d, row, col) != 0 ==> stone(foe, d, row, col, 1),
{
    lemma_within(0, foe, 0, 0);
    if exists|len: int| is_bracket(ally, foe, d, row, col, len) {
        let len = choose|len: int| is_bracket(ally, foe, d, row, col, len);
        lemma_run_within(foe, d, row, col, len, len);
        if len >= 2 {
            assert(stone(foe, d, row, col, 1));
        }
    }
}

/// The squares of a run of `foe` pieces are within `foe`.
proof fn lemma_run_within(foe: u64, d: Direction, row: int, col: int, len: int, upto: int)
    requires
        forall|k: int| 1 <= k < len ==> #[trigger] stone(foe, d, row, col, k),
        upto <= len,
    ensures
        within(run_mask(d, row, col, upto), foe),
    decreases upto,
{
    lemma_within(0, foe, 0, 0);
    if upto > 1 {
        lemma_run_within(foe, d, row, col, len, upto - 1);
        assert(stone(foe, d, row, col, upto - 1));
        let r = d.ray_row(row, upto - 1);
        let c = d.ray_col(col, upto - 1);
        lemma_within(run_mask(d, row, col, upto - 1), foe, 0, bit_index(r, c) as u64);
    }
}

/// The pieces that a move turns over are pieces of `foe`.
pub proof fn lemma_flips_within(ally: u64, foe: u64, row: int, col: int)
    ensures
        within(flips(ally, foe, row, col), foe),
{
    let e = gain(ally, foe, Direction::East, row, col);
    let w = gain(ally, foe, Direction::West, row, col);
    let n = gain(ally, foe, Direction::North, row, col);
    let s = gain(ally, foe, Direction::South, row, col);
    let ne = gain(ally, foe, Direction::NorthEast, row, col);
    let se = gain(ally, foe, Direction::SouthEast, row, col);
    let nw = gain(ally, foe, Direction::NorthWest, row, col);
    let sw = gain(ally, foe, Direction::SouthWest, row, col);
    lemma_gain(ally, foe, Direction::East, row, col);
    lemma_gain(ally, foe, Direction::West, row, col);
    lemma_gain(ally, foe, Direction::North, row, col);
    lemma_gain(ally, foe, Direction::South, row, col);
    lemma_gain(ally, foe, Direction::NorthEast, row, col);
    lemma_gain(ally, foe, Direction::SouthEast, row, col);
    lemma_gain(ally, foe, Direction::NorthWest, row, col);
    lemma_gain(ally, foe, Direction::SouthWest, row, col);
    lemma_within(e, foe, w, 0);
    lemma_within(e | w, foe, n, 0);
    lemma_within(e | w | n, foe, s, 0);
    lemma_within(e | w | n | s, foe, ne, 0);
    lemma_within(e | w | n | s | ne, foe, se, 0);
    lemma_within(e | w | n | s | ne | se, foe, nw, 0);
    lemma_within(e | w | n | s | ne | se | nw, foe, sw, 0);
}

/// The square `(r, c)` lies between `(row, col)` and the piece of `ally` that closes
/// a run of `foe` pieces from there in direction `d`.
pub open spec fn on_run(
    ally: u64,
    foe: u64,
    d: Direction,
    row: int,
    col: int,
    r: int,
    c: int,
) -> bool {
    exists|len: int| #[trigger]
        is_bracket(ally, foe, d, row, col, len) && on_ray(d, row, col, len, r, c)
}

/// What a move gains in one direction is exactly the squares of the run that it
/// closes in that direction.
pub proof fn lemma_gain_squares(
    ally: u64,
    foe: u64,
    d: Direction,
    row: int,
    col: int,
    r: int,
    c: int,
)
    ensures
        occupied(gain(ally, foe, d, row, col), r, c) <==> on_run(ally, foe, d, row, col, r, c),
{
    if exists|len: int| is_bracket(ally, foe, d, row, col, len) {
        let len = choose|len: int| is_bracket(ally, foe, d, row, col, len);
        assert forall|k: int| 1 <= k < len implies on_board(
            #[trigger] d.ray_row(row, k),
            d.ray_col(col, k),
        ) by {
            assert(stone(foe, d, row, col, k));
        }
        lemma_run_mask(d, row, col, len, r, c);
        if on_run(ally, foe, d, row, col, r, c) {
            let other = choose|other: int| #[trigger]
                is_bracket(ally, foe, d, row, col, other) && on_ray(d, row, col, other, r, c);
            lemma_bracket_unique(ally, foe, d, row, col, len, other);
            let k = choose|k: int|
                1 <= k < len && r == #[trigger] d.ray_row(row, k) && c == d.ray_col(col, k);
            assert(stone(foe, d, row, col, k));
        }
    } else {
        if on_board(r, c) {
            lemma_or_meets(0, 0, square_bit(r, c));
        }
    }
}

/// The pieces that a move turns over are exactly the pieces on the runs that it
/// closes, in whichever of the eight directions.
pub proof fn lemma_flips_squares(ally: u64, foe: u64, row: int, col: int, r: int, c: int)
    ensures
        occupied(flips(ally, foe, row, col), r, c) <==> exists|d: Direction|
            on_run(ally, foe, d, row, col, r, c),
{
    let e = gain(ally, foe, Direction::East, row, col);
    let w = gain(ally, foe, Direction::West, row, col);
    let n = gain(ally, foe, Direction::North, row, col);
    let s = gain(ally, foe, Direction::South, row, col);
    let ne = gain(ally, foe, Direction::NorthEast, row, col);
    let se = gain(ally, foe, Direction::SouthEast, row, col);
    let nw = gain(ally, foe, Direction::NorthWest, row, col);
    let sw = gain(ally, foe, Direction::SouthWest, row, col);
    assert forall|d: Direction|
        occupied(gain(ally, foe, d, row, col), r, c) <==> #[trigger] on_run(
            ally,
            foe,
            d,
            row,
            col,
            r,
            c,
        ) by {
        lemma_gain_squares(ally, foe, d, row, col, r, c);
    }
    if on_board(r, c) {
        let p = square_bit(r, c);
        lemma_or_meets(e, w, p);
        lemma_or_meets(e | w, n, p);
        lemma_or_meets(e | w | n, s, p);
        lemma_or_meets(e | w | n | s, ne, p);
        lemma_or_meets(e | w | n | s | ne, se, p);
        lemma_or_meets(e | w | n | s | ne | se, nw, p);
        lemma_or_meets(e | w | n | s | ne | se | nw, sw, p);
        if occupied(flips(ally, foe, row, col), r, c) {
            let d = if occupied(e, r, c) {
                Direction::East
            } else if occupied(w, r, c) {
                Direction::West
            } else if occupied(n, r, c) {
                Direction::North
            } else if occupied(s, r, c) {
                Direction::South
            } else if occupied(ne, r, c) {
                Direction::NorthEast
            } else if occupied(se, r, c) {
                Direction::SouthEast
            } else if occupied(nw, r, c) {
                Direction::NorthWest
            } else {
                Direction::SouthWest
            };
            assert(on_run(ally, foe, d, row, col, r, c));
        }
    }
}

/// A legal move lands on a candidate square.
pub proof fn lemma_legal_is_candidate(ally: u64, foe: u64, position: u64)
    requires
        is_legal_move(ally, foe, position),
    ensures
        occupied(candidates(ally | foe), rowcol(position).0, rowcol(position).1),
{
    let row = rowcol(position).0;
    let col = rowcol(position).1;
    lemma_rowcol_on_board(position);
    let e = gain(ally, foe, Direction::East, row, col);
    let w = gain(ally, foe, Direction::West, row, col);
    let n = gain(ally, foe, Direction::North, row, col);
    let s = gain(ally, foe, Direction::South, row, col);
    let ne = gain(ally, foe, Direction::NorthEast, row, col);
    let se = gain(ally, foe, Direction::SouthEast, row, col);
    let nw = gain(ally, foe, Direction::NorthWest, row, col);
    let sw = gain(ally, foe, Direction::SouthWest, row, col);
    lemma_or_meets(e, w, 0);
    lemma_or_meets(e | w, n, 0);
    lemma_or_meets(e | w | n, s, 0);
    lemma_or_meets(e | w | n | s, ne, 0);
    lemma_or_meets(e | w | n | s | ne, se, 0);
    lemma_or_meets(e | w | n | s | ne | se, nw, 0);
    lemma_or_meets(e | w | n | s | ne | se | nw, sw, 0);
    let d = if e != 0 {
        Direction::East
    } else if w != 0 {
        Direction::West
    } else if n != 0 {
        Direction::North
    } else if s != 0 {
        Direction::South
    } else if ne != 0 {
        Direction::NorthEast
    } else if se != 0 {
        Direction::SouthEast
    } else if nw != 0 {
        Direction::NorthWest
    } else {
        Direction::SouthWest
    };
    assert(gain(ally, foe, d, row, col) != 0);
    lemma_gain(ally, foe, d, row, col);
    let r1 = d.ray_row(row, 1);
    let c1 = d.ray_col(col, 1);
    assert(occupied(foe, r1, c1));
    lemma_or_meets(ally, foe, square_bit(r1, c1));
    assert(occupied(ally | foe, r1, c1));
    assert(touches(ally | foe, row, col));
    lemma_candidates(ally | foe, row, col);
}

/// The pieces of `foe` that a piece of `ally` placed on the square of `position`
/// would turn over, all eight directions taken together.
pub fn star_mesh(position: u64, ally: u64, foe: u64) -> (all_star: u64)
    requires
        is_square(position),
    ensures
        all_star == flips_at(ally, foe, position),
{
    let mut all_star: u64 = 0;
    let (row, col) = bitboard_rowcol(position);
    let ghost r = row as int;
    let ghost c = col as int;
    proof {
        lemma_no_bracket_at_border_all(ally, foe, r, c);
    }

    // East
    if col < 7 {
        if let Some(mesh) = directional_mesh(position, ally, foe, Direction::East) {
            all_star |= mesh;
        }
    }
    proof {
        lemma_or_meets(gain(ally, foe, Direction::East, r, c), 0, 0);
    }
    assert(all_star == gain(ally, foe, Direction::East, r, c));
    let ghost so_far = all_star;

    // West
    if col > 0 {
        if let Some(mesh) = directional_mesh(position, ally, foe, Direction::West) {
            all_star |= mesh;
        }
    }
    proof {
        lemma_or_meets(so_far, 0, 0);
    }
    assert(all_star == so_far | gain(ally, foe, Direction::West, r, c));
    let ghost so_far = all_star;

    // North
    if row > 0 {
        if let Some(mesh) = directional_mesh(position, ally, foe, Direction::North) {
            all_star |= mesh;
        }
    }
    proof {
        lemma_or_meets(so_far, 0, 0);
    }
    assert(all_star == so_far | gain(ally, foe, Direction::North, r, c));
    let ghost so_far = all_star;

    // South
    if row < 7 {
        if let Some(mesh) = directional_mesh(position, ally, foe, Direction::South) {
            all_star |= mesh;
        }
    }
    proof {
        lemma_or_meets(so_far, 0, 0);
    }
    assert(all_star == so_far | gain(ally, foe, Direction::South, r, c));
    let ghost so_far = all_star;

    // NorthEast
    if row > 0 && col < 7 {
        if let Some(mesh) = directional_mesh(position, ally, foe, Direction::NorthEast) {
            all_star |= mesh;
        }
    }
    proof {
        lemma_or_meets(so_far, 0, 0);
    }
    assert(all_star == so_far | gain(ally, foe, Direction::NorthEast, r, c));
    let ghost so_far = all_star;

    // SouthEast
    if row < 7 && col < 7 {
        if let Some(mesh) = directional_mesh(position, ally, foe, Direction::SouthEast) {
            all_star |= mesh;
        }
    }
    proof {
        lemma_or_meets(so_far, 0, 0);
    }
    assert(all_star == so_far | gain(ally, foe, Direction::SouthEast, r, c));
    let ghost so_far = all_star;

    // NorthWest
    if row > 0 && col > 0 {
        if let Some(mesh) = directional_mesh(position, ally, foe, Direction::NorthWest) {
            all_star |= mesh;
        }
    }
    proof {
        lemma_or_meets(so_far, 0, 0);
    }
    assert(all_star == so_far | gain(ally, foe, Direction::NorthWest, r, c));
    let ghost so_far = all_star;

    // SouthWest
    if row < 7 && col > 0 {
        if let Some(mesh) = directional_mesh(position, ally, foe, Direction::SouthWest) {
            all_star |= mesh;
        }
    }
    proof {
        lemma_or_meets(so_far, 0, 0);
    }
    assert(all_star == so_far | gain(ally, foe, Direction::SouthWest, r, c));

    all_star
}

/// Whatever the direction, there is nothing to gain across the border.
proof fn lemma_no_bracket_at_border_all(ally: u64, foe: u64, row: int, col: int)
    requires
        on_board(row, col),
    ensures
        forall|d: Direction| #[trigger]
            d.at_border(row, col) ==> gain(ally, foe, d, row, col) == 0,
{
    assert forall|d: Direction| #[trigger] d.at_border(row, col) implies gain(
        ally,
        foe,
        d,
        row,
        col,
    ) == 0 by {
        lemma_no_bracket_at_border(ally, foe, d, row, col);
    }
}

/// The legal moves of `ally` against `foe`: each empty square where a piece of `ally`
/// would turn over at least one piece of `foe`, with the mask of the pieces turned
/// over. Nothing where there is no legal move.
pub fn available_captures(ally: u64, foe: u64) -> (moves: Option<HashMap<u64, u64>>)
    ensures
        captures_outcome(
            ally,
            foe,
            match moves {
                Some(map) => Some(map@),
                None => None,
            },
        ),
{
    proof {
        assert forall|p: u64| is_legal_move(ally, foe, p) implies occupied(
            candidates(ally | foe),
            rowcol(p).0,
            rowcol(p).1,
        ) by {
            lemma_legal_is_candidate(ally, foe, p);
        }
        lemma_or_meets(0, 0, 0);
    }
    let pseudo_legal = match all_placable(ally | foe) {
        Some(mask) => mask,
        None => {
            proof {
                assert forall|p: u64| !is_legal_move(ally, foe, p) by {
                    lemma_or_meets(0, 0, square_bit(rowcol(p).0, rowcol(p).1));
                }
            }
            return None;
        },
    };
    let mut legal_moves: HashMap<u64, u64> = HashMap::new();
    let positions = match piece_positions(pseudo_legal) {
        Some(positions) => positions,
        None => {
            return None;
        },
    };
    proof {
        lemma_pieces(pseudo_legal);
        assert forall|j: int| 0 <= j < positions@.len() implies is_square(
            #[trigger] positions@[j],
        ) && occupied(pseudo_legal, rowcol(positions@[j]).0, rowcol(positions@[j]).1) by {
            let p = pieces(pseudo_legal)[j];
        }
    }

    let mut k: usize = 0;
    while k < positions.len()
        invariant
            k <= positions.len(),
            positions@ == pieces(pseudo_legal),
            forall|j: int|
                0 <= j < positions@.len() ==> is_square(#[trigger] positions@[j]) && occupied(
                    pseudo_legal,
                    rowcol(positions@[j]).0,
                    rowcol(positions@[j]).1,
                ),
            forall|p: u64| #[trigger]
                legal_moves@.contains_key(p) <==> (flips_at(ally, foe, p) != 0 && listed(
                    positions@,
                    k as int,
                    p,
                )),
            forall|p: u64| #[trigger]
                legal_moves@.contains_key(p) ==> legal_moves@[p] == flips_at(ally, foe, p),
        decreases positions.len() - k,
    {
        let position = positions[k];
        let all_star = star_mesh(position, ally, foe);
        let ghost before = legal_moves@;
        if all_star != 0 {
            legal_moves.insert(position, all_star);
        }
        proof {
            assert forall|p: u64| #[trigger]
                legal_moves@.contains_key(p) <==> (flips_at(ally, foe, p) != 0 && listed(
                    positions@,
                    k + 1,
                    p,
                )) by {
                assert(before.contains_key(p) <==> (flips_at(ally, foe, p) != 0 && listed(
                    positions@,
                    k as int,
                    p,
                )));
                if listed(positions@, k as int, p) {
                    let j = choose|j: int| 0 <= j < k && j < positions@.len() && positions@[j] == p;
                    assert(positions@[j] == p);
                }
                if listed(positions@, k + 1, p) {
                    let j = choose|j: int|
                        0 <= j < k + 1 && j < positions@.len() && positions@[j] == p;
                    if j < k {
                        assert(positions@[j] == p);
                    }
                }
                if p == position {
                    assert(positions@[k as int] == p);
                }
            }
        }
        k += 1;
    }

    proof {
        let found = legal_moves@;
        let all = capture_map(ally, foe);
        assert forall|p: u64| found.contains_key(p) <==> all.contains_key(p) by {
            let row = rowcol(p).0;
            let col = rowcol(p).1;
            lemma_candidates(ally | foe, row, col);
            if found.contains_key(p) {
                assert(listed(positions@, k as int, p));
                let j = choose|j: int| 0 <= j < k && j < positions@.len() && positions@[j] == p;
                assert(is_square(positions@[j]));
                assert(occupied(pseudo_legal, rowcol(positions@[j]).0, rowcol(positions@[j]).1));
                assert(is_legal_move(ally, foe, p));
            }
            if is_legal_move(ally, foe, p) {
                assert(occupied(pseudo_legal, row, col));
                assert(positions@.contains(square_bit(row, col)));
                let j = choose|j: int| 0 <= j < positions@.len() && positions@[j] == p;
                assert(positions@[j] == p);
                assert(listed(positions@, k as int, p));
            }
        }
        assert(found =~= all);
        if !legal_moves@.is_empty() {
            let p = choose|p: u64| found.contains_key(p);
            assert(is_legal_move(ally, foe, p));
        } else {
            assert forall|p: u64| !is_legal_move(ally, foe, p) by {
                assert(!found.contains_key(p));
            }
        }
    }
    if legal_moves.is_empty() {
        return None;
    }
    Some(legal_moves)
}

/// The legal moves depend on the position alone: two computations for the same
/// `ally` and `foe` hand back the same thing.
pub proof fn lemma_captures_deterministic(
    ally: u64,
    foe: u64,
    first: Option<Map<u64, u64>>,
    second: Option<Map<u64, u64>>,
)
    requires
        captures_outcome(ally, foe, first),
        captures_outcome(ally, foe, second),
    ensures
        first == second,
{
}

/// The moves of the two sides differ. With no square held by both sides, no move
/// turns over the same pieces for one side as for the other; so unless neither
/// side has a legal move, what is computed for one side is not what is computed
/// for the other.
pub proof fn lemma_sides_differ(
    ally: u64,
    foe: u64,
    ours: Option<Map<u64, u64>>,
    theirs: Option<Map<u64, u64>>,
)
    requires
        ally & foe == 0,
        captures_outcome(ally, foe, ours),
        captures_outcome(foe, ally, theirs),
        ours is Some || theirs is Some,
    ensures
        ours != theirs,
{
    if ours is Some && theirs is Some {
        let position = choose|position: u64| is_legal_move(ally, foe, position);
        let row = rowcol(position).0;
        let col = rowcol(position).1;
        lemma_flips_within(ally, foe, row, col);
        lemma_flips_within(foe, ally, row, col);
        if ours == theirs {
            assert(capture_map(ally, foe).contains_key(position));
            assert(capture_map(foe, ally).contains_key(position));
            assert(capture_map(ally, foe)[position] == capture_map(foe, ally)[position]);
            lemma_within(flips(ally, foe, row, col), foe, ally, 0);
        }
    }
}

} // verus!
