//! What travels between the players and the server: the words that settle who
//! plays which colour, and the moves, eight bytes each, least significant first.

use vstd::prelude::*;
use vstd::string::StringExecFns;

verus! {

/// The number that the bytes of `frame` from byte `i` on spell, the least
/// significant byte first.
pub open spec fn le_value_from(frame: Seq<u8>, i: int) -> int
    decreases frame.len() - i,
{
    if i < 0 || i >= frame.len() {
        0
    } else {
        frame[i] as int + 256 * le_value_from(frame, i + 1)
    }
}

/// The number that the bytes of `frame` spell, the least significant byte first.
pub open spec fn le_value(frame: Seq<u8>) -> int {
    le_value_from(frame, 0)
}

/// The move that the frame `frame` carries: its bytes read as a number. A frame
/// of zeros carries no move.
pub open spec fn decoded(frame: Seq<u8>) -> Option<u64> {
    if le_value(frame) == 0 {
        None
    } else {
        Some(le_value(frame) as u64)
    }
}

/// Reads the move out of the frame `frame`.
pub fn decode_move(frame: &[u8; 8]) -> (position: Option<u64>)
    ensures
        position == decoded(frame@),
{
    proof {
        reveal_with_fuel(le_value_from, 9);
    }
    let v7: u64 = frame[7] as u64;
    let v6: u64 = v7 * 256 + frame[6] as u64;
    let v5: u64 = v6 * 256 + frame[5] as u64;
    let v4: u64 = v5 * 256 + frame[4] as u64;
    let v3: u64 = v4 * 256 + frame[3] as u64;
    let v2: u64 = v3 * 256 + frame[2] as u64;
    let v1: u64 = v2 * 256 + frame[1] as u64;
    let position: u64 = v1 * 256 + frame[0] as u64;
    if position != 0 {
        Some(position)
    } else {
        None
    }
}

/// The frame that carries the move `position`.
pub fn encode_move(position: u64) -> (frame: [u8; 8])
    ensures
        le_value(frame@) == position,
        position != 0 ==> decoded(frame@) == Some(position),
{
    let b0: u8 = (position % 256) as u8;
    let r1: u64 = position / 256;
    let b1: u8 = (r1 % 256) as u8;
    let r2: u64 = r1 / 256;
    let b2: u8 = (r2 % 256) as u8;
    let r3: u64 = r2 / 256;
    let b3: u8 = (r3 % 256) as u8;
    let r4: u64 = r3 / 256;
    let b4: u8 = (r4 % 256) as u8;
    let r5: u64 = r4 / 256;
    let b5: u8 = (r5 % 256) as u8;
    let r6: u64 = r5 / 256;
    let b6: u8 = (r6 % 256) as u8;
    let r7: u64 = r6 / 256;
    let b7: u8 = r7 as u8;
    let frame: [u8; 8] = [b0, b1, b2, b3, b4, b5, b6, b7];
    proof {
        reveal_with_fuel(le_value_from, 9);
    }
    frame
}

/// Who sits where once the first player has answered the server's question.
#[derive(Clone, Copy, Debug, PartialEq, Eq, Structural)]
pub struct Seating {
    /// The first player has black, and the challenger white; else the other way round.
    pub first_is_black: bool,
    /// The first move is awaited from the challenger, not from the first player.
    pub challenger_opens: bool,
}

/// The message `message` is the word `word`.
pub fn says(message: &String, word: &str) -> (same: bool)
    ensures
        same == (message@ == word@),
{
    *message == String::from_str(word)
}

/// The name of a colour, as it is sent.
pub fn colour_name(black: bool) -> (name: &'static str)
    ensures
        name@ == (if black {
            "black"@
        } else {
            "white"@
        }),
{
    if black {
        "black"
    } else {
        "white"
    }
}

/// Seats the two players by the first player's answer `response`: the first
/// player has black only if the answer is `black`, and the challenger moves
/// first only if the answer is `white`.
pub fn seating(response: &String) -> (seats: Seating)
    ensures
        seats.first_is_black == (response@ == "black"@),
        seats.challenger_opens == (response@ == "white"@),
{
    Seating { first_is_black: says(response, "black"), challenger_opens: says(response, "white") }
}

} // verus!
