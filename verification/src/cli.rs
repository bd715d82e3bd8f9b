//! The options of the client and of the server.

use vstd::prelude::*;
use vstd::string::StringExecFns;

verus! {

/// Where the server is, and which colour the player would like.
#[derive(Clone, Debug)]
pub struct Args {
    /// The address of the host of the server.
    pub address: String,
    /// The server's port.
    pub port: u16,
    /// The player would like white.
    pub white_piece: bool,
}

/// The character of the digit `d`.
pub open spec fn digit(d: int) -> char {
    if d == 0 {
        '0'
    } else if d == 1 {
        '1'
    } else if d == 2 {
        '2'
    } else if d == 3 {
        '3'
    } else if d == 4 {
        '4'
    } else if d == 5 {
        '5'
    } else if d == 6 {
        '6'
    } else if d == 7 {
        '7'
    } else if d == 8 {
        '8'
    } else {
        '9'
    }
}

/// The decimal digits of `n`, most significant first, without leading zeros.
pub open spec fn decimal(n: int) -> Seq<char>
    decreases n,
{
    if n < 10 {
        seq![digit(n)]
    } else {
        decimal(n / 10).push(digit(n % 10))
    }
}

fn digit_text(d: u16) -> (text: &'static str)
    requires
        d < 10,
    ensures
        text@ == seq![digit(d as int)],
{
    proof {
        reveal_strlit("0");
        reveal_strlit("1");
        reveal_strlit("2");
        reveal_strlit("3");
        reveal_strlit("4");
        reveal_strlit("5");
        reveal_strlit("6");
        reveal_strlit("7");
        reveal_strlit("8");
        reveal_strlit("9");
    }
    let text = if d == 0 {
        "0"
    } else if d == 1 {
        "1"
    } else if d == 2 {
        "2"
    } else if d == 3 {
        "3"
    } else if d == 4 {
        "4"
    } else if d == 5 {
        "5"
    } else if d == 6 {
        "6"
    } else if d == 7 {
        "7"
    } else if d == 8 {
        "8"
    } else {
        "9"
    };
    assert(text@ =~= seq![digit(d as int)]);
    text
}

/// `n` written in decimal.
pub fn decimal_text(n: u16) -> (text: String)
    ensures
        text@ == decimal(n as int),
    decreases n,
{
    if n < 10 {
        String::from_str(digit_text(n))
    } else {
        let mut text = decimal_text(n / 10);
        text.append(digit_text(n % 10));
        assert(text@ =~= decimal(n as int));
        text
    }
}

impl Args {
    /// The address of the server as `host:port`.
    pub fn addr(&self) -> (text: String)
        ensures
            text@ == self.address@ + seq![':'] + decimal(self.port as int),
    {
        proof {
            reveal_strlit(":");
        }
        let mut text = self.address.clone();
        text.append(":");
        let port = decimal_text(self.port);
        text.append(port.as_str());
        assert(":"@ =~= seq![':']);
        text
    }

    /// The player would like black, which is so unless white was asked for.
    pub fn wants_black(&self) -> (black: bool)
        ensures
            black == !self.white_piece,
    {
        !self.white_piece
    }
}

impl Default for Args {
    /// The server on this machine at port 3000, and black for the player.
    fn default() -> (args: Args)
        ensures
            args.address@ == "127.0.0.1"@,
            args.port == 3000,
            !args.white_piece,
    {
        Args { address: String::from_str("127.0.0.1"), port: 3000, white_piece: false }
    }
}

} // verus!
