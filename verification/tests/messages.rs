use reversi::wire::{colour_name, decode_move, encode_move, says, seating, Seating};

#[test]
fn a_move_is_eight_bytes_lowest_first() {
    assert_eq!(encode_move(1), [1, 0, 0, 0, 0, 0, 0, 0]);
    assert_eq!(encode_move(1 << 63), [0, 0, 0, 0, 0, 0, 0, 128]);
    assert_eq!(encode_move(17179869184), [0, 0, 0, 0, 4, 0, 0, 0]);
    assert_eq!(encode_move(0x0102_0304_0506_0708), [8, 7, 6, 5, 4, 3, 2, 1]);
    assert_eq!(encode_move(u64::MAX), [255; 8]);
}

#[test]
fn a_frame_of_zeros_carries_no_move() {
    assert_eq!(decode_move(&[0; 8]), None);
    assert_eq!(encode_move(0), [0; 8]);
}

#[test]
fn a_frame_carries_its_number() {
    assert_eq!(decode_move(&[1, 0, 0, 0, 0, 0, 0, 0]), Some(1));
    assert_eq!(decode_move(&[0, 1, 0, 0, 0, 0, 0, 0]), Some(256));
    assert_eq!(decode_move(&[0, 0, 0, 0, 0, 0, 0, 128]), Some(1 << 63));
    assert_eq!(decode_move(&[8, 7, 6, 5, 4, 3, 2, 1]), Some(0x0102_0304_0506_0708));
    assert_eq!(decode_move(&[255; 8]), Some(u64::MAX));
}

#[test]
fn a_move_that_is_sent_arrives() {
    for i in 0..64 {
        let position = 1u64 << i;
        assert_eq!(encode_move(position), position.to_le_bytes());
        assert_eq!(decode_move(&encode_move(position)), Some(position));
    }
    let mut state = 0x9E37_79B9_7F4A_7C15u64;
    for _ in 0..1000 {
        state ^= state << 13;
        state ^= state >> 7;
        state ^= state << 17;
        assert_eq!(encode_move(state), state.to_le_bytes());
        assert_eq!(decode_move(&state.to_le_bytes()), Some(state));
    }
}

#[test]
fn words_are_compared_whole() {
    assert!(says(&String::from("pick"), "pick"));
    assert!(!says(&String::from("pick "), "pick"));
    assert!(!says(&String::from("Pick"), "pick"));
    assert!(!says(&String::new(), "pick"));
    assert!(says(&String::new(), ""));
}

#[test]
fn names_of_the_colours() {
    assert_eq!(colour_name(true), "black");
    assert_eq!(colour_name(false), "white");
}

#[test]
fn seats_by_the_first_answer() {
    assert_eq!(
        seating(&String::from("black")),
        Seating { first_is_black: true, challenger_opens: false }
    );
    assert_eq!(
        seating(&String::from("white")),
        Seating { first_is_black: false, challenger_opens: true }
    );
}

#[test]
fn any_other_answer_gives_the_first_player_white_and_the_first_move() {
    assert_eq!(
        seating(&String::from("red")),
        Seating { first_is_black: false, challenger_opens: false }
    );
    assert_eq!(
        seating(&String::new()),
        Seating { first_is_black: false, challenger_opens: false }
    );
}
