use reversi::cli::{decimal_text, Args};

#[test]
fn address_and_port() {
    let args = Args { address: String::from("127.0.0.1"), port: 3000, white_piece: false };
    assert_eq!(args.addr(), "127.0.0.1:3000");
}

#[test]
fn address_with_the_smallest_and_the_largest_port() {
    let args = Args { address: String::from("localhost"), port: 0, white_piece: true };
    assert_eq!(args.addr(), "localhost:0");
    let args = Args { address: String::from("::1"), port: 65535, white_piece: true };
    assert_eq!(args.addr(), "::1:65535");
    let args = Args { address: String::new(), port: 8, white_piece: true };
    assert_eq!(args.addr(), ":8");
}

#[test]
fn black_unless_white_was_asked_for() {
    let args = Args { address: String::new(), port: 1, white_piece: false };
    assert!(args.wants_black());
    let args = Args { address: String::new(), port: 1, white_piece: true };
    assert!(!args.wants_black());
}

#[test]
fn options_left_out() {
    let args = Args::default();
    assert_eq!(args.address, "127.0.0.1");
    assert_eq!(args.port, 3000);
    assert!(!args.white_piece);
    assert!(args.wants_black());
    assert_eq!(args.addr(), "127.0.0.1:3000");
}

#[test]
fn decimal_of_every_port() {
    for n in 0..=u16::MAX {
        assert_eq!(decimal_text(n), format!("{}", n));
    }
}

#[test]
fn decimal_has_no_leading_zeros() {
    assert_eq!(decimal_text(0), "0");
    assert_eq!(decimal_text(7), "7");
    assert_eq!(decimal_text(10), "10");
    assert_eq!(decimal_text(101), "101");
    assert_eq!(decimal_text(9000), "9000");
    assert_eq!(decimal_text(10000), "10000");
}
