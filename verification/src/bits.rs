//! Facts about the bits of a 64-bit mask, proved by bit-blasting and stated so
//! that the rest of the library can reason about masks square by square.

use vstd::prelude::*;

verus! {

/// Two one-bit masks share a bit exactly when they are the same bit.
pub proof fn lemma_bits_meet(a: u64, b: u64)
    by (bit_vector)
    requires
        a < 64,
        b < 64,
    ensures
        ((1u64 << a) & (1u64 << b) != 0) <==> a == b,
        (1u64 << a) != 0,
{
}

/// A union meets a mask exactly when one of its parts does; the empty mask meets nothing.
pub proof fn lemma_or_meets(a: u64, b: u64, p: u64)
    by (bit_vector)
    ensures
        ((a | b) & p != 0) <==> (a & p != 0 || b & p != 0),
        0u64 & p == 0,
        a | 0u64 == a,
        0u64 | a == a,
        (a | b != 0) <==> (a != 0 || b != 0),
{
}

/// What is left of `a` outside `b` meets a mask exactly where `a` does and `b` does not,
/// as long as the mask is a single bit.
pub proof fn lemma_and_not_meets(a: u64, b: u64, i: u64)
    by (bit_vector)
    requires
        i < 64,
    ensures
        ((a & !b) & (1u64 << i) != 0) <==> (a & (1u64 << i) != 0 && b & (1u64 << i) == 0),
{
}

/// Every bit of `a` is a bit of `b`.
pub open spec fn within(a: u64, b: u64) -> bool {
    a & !b == 0
}

/// The empty mask is within every mask; a mask within `b` stays within `b` when
/// a bit of `b` or another mask within `b` is added to it; and a mask within each
/// of two masks that share no bit is empty.
pub proof fn lemma_within(a: u64, b: u64, c: u64, i: u64)
    by (bit_vector)
    requires
        i < 64,
    ensures
        within(0, b),
        within(a, b) && b & (1u64 << i) != 0 ==> within(a | (1u64 << i), b),
        within(a, b) && within(c, b) ==> within(a | c, b),
        within(a, b) && within(a, c) && c & b == 0 ==> a == 0,
{
}

/// Bits that pass from one mask to another leave the two without a common bit, if
/// they had none before.
pub proof fn lemma_stay_apart(mover: u64, other: u64, mesh: u64)
    by (bit_vector)
    requires
        mover & other == 0 || other & mover == 0,
    ensures
        (mover | mesh) & (other & !mesh) == 0,
        (other & !mesh) & (mover | mesh) == 0,
{
}

/// No bit of `board` lies below bit `i`.
pub open spec fn low_clear(board: u64, i: u64) -> bool {
    if i >= 64 {
        board == 0
    } else {
        (board >> i) << i == board
    }
}

/// Every mask is clear below bit 0, and a mask that is clear below bit `i` and
/// lacks bit `i` is clear below bit `i + 1`.
pub proof fn lemma_low_clear(board: u64, i: u64)
    by (bit_vector)
    ensures
        low_clear(board, 0),
        i < 64 && low_clear(board, i) && board & (1u64 << i) == 0 ==> low_clear(
            board,
            (i + 1) as u64,
        ),
{
}

/// A mask that meets another is not empty.
pub proof fn lemma_meets_nonzero(board: u64, p: u64)
    by (bit_vector)
    requires
        board & p != 0,
    ensures
        board != 0,
        p != 0,
{
}

} // verus!
