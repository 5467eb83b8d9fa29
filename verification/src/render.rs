//! Rendering of the output strings of a color record: decimal channel
//! triplets, uppercase hex codes, and the VT escape sequences, each pinned
//! to a spec-level character sequence.

use vstd::prelude::*;

verus! {

/// The character for digit value `d` in 0..16: decimal digits, then
/// uppercase hex letters.
pub open spec fn digit_char(d: int) -> char {
    if d == 0 {
        '0'
    } else if d == 1 {
        '1'
    } else if d == 2 {
        '2'
    } else if d == 3 {
        '3'
    } else if d == 4 {
        '4'
    } else if d == 5 {
        '5'
    } else if d == 6 {
        '6'
    } else if d == 7 {
        '7'
    } else if d == 8 {
        '8'
    } else if d == 9 {
        '9'
    } else if d == 10 {
        'A'
    } else if d == 11 {
        'B'
    } else if d == 12 {
        'C'
    } else if d == 13 {
        'D'
    } else if d == 14 {
        'E'
    } else {
        'F'
    }
}

/// The decimal rendering of `n` in 0..1000: no sign, no padding, no
/// leading zeros (a single `0` for zero).
pub open spec fn dec_digits(n: int) -> Seq<char> {
    if n < 10 {
        seq![digit_char(n)]
    } else if n < 100 {
        seq![digit_char(n / 10), digit_char(n % 10)]
    } else {
        seq![digit_char(n / 100), digit_char((n / 10) % 10), digit_char(n % 10)]
    }
}

/// The two-digit uppercase hex rendering of a byte value.
pub open spec fn hex2(n: int) -> Seq<char> {
    seq![digit_char(n / 16), digit_char(n % 16)]
}

/// The plain triplet string: decimal `r`, `;`, decimal `g`, `;`, decimal `b`.
pub open spec fn plain_of(r: u8, g: u8, b: u8) -> Seq<char> {
    dec_digits(r as int) + seq![';'] + dec_digits(g as int) + seq![';'] + dec_digits(b as int)
}

/// The plain triplet string enclosed in one double quote on each side.
pub open spec fn enclosed_of(r: u8, g: u8, b: u8) -> Seq<char> {
    seq!['"'] + plain_of(r, g, b) + seq!['"']
}

/// The hex code string: `#` followed by each channel as two uppercase hex
/// digits, in R, G, B order.
pub open spec fn hex_of(r: u8, g: u8, b: u8) -> Seq<char> {
    seq!['#'] + hex2(r as int) + hex2(g as int) + hex2(b as int)
}

/// The VT sequence selecting the truecolor foreground: ESC `[38;2;`, the
/// plain triplet, `m`.
pub open spec fn fg_of(r: u8, g: u8, b: u8) -> Seq<char> {
    seq!['\u{1b}', '[', '3', '8', ';', '2', ';'] + plain_of(r, g, b) + seq!['m']
}

/// The VT sequence selecting the truecolor background: ESC `[48;2;`, the
/// plain triplet, `m`.
pub open spec fn bg_of(r: u8, g: u8, b: u8) -> Seq<char> {
    seq!['\u{1b}', '[', '4', '8', ';', '2', ';'] + plain_of(r, g, b) + seq!['m']
}

/// The one-character string for digit value `d`.
fn digit_str(d: u8) -> (s: &'static str)
    requires
        d < 16,
    ensures
        s@ == seq![digit_char(d as int)],
{
    match d {
        0 => {
            proof {
                reveal_strlit("0");
                assert("0"@ =~= seq![digit_char(0)]);
            }
            "0"
        },
        1 => {
            proof {
                reveal_strlit("1");
                assert("1"@ =~= seq![digit_char(1)]);
            }
            "1"
        },
        2 => {
            proof {
                reveal_strlit("2");
                assert("2"@ =~= seq![digit_char(2)]);
            }
            "2"
        },
        3 => {
            proof {
                reveal_strlit("3");
                assert("3"@ =~= seq![digit_char(3)]);
            }
            "3"
        },
        4 => {
            proof {
                reveal_strlit("4");
                assert("4"@ =~= seq![digit_char(4)]);
            }
            "4"
        },
        5 => {
            proof {
                reveal_strlit("5");
                assert("5"@ =~= seq![digit_char(5)]);
            }
            "5"
        },
        6 => {
            proof {
                reveal_strlit("6");
                assert("6"@ =~= seq![digit_char(6)]);
            }
            "6"
        },
        7 => {
            proof {
                reveal_strlit("7");
                assert("7"@ =~= seq![digit_char(7)]);
            }
            "7"
        },
        8 => {
            proof {
                reveal_strlit("8");
                assert("8"@ =~= seq![digit_char(8)]);
            }
            "8"
        },
        9 => {
            proof {
                reveal_strlit("9");
                assert("9"@ =~= seq![digit_char(9)]);
            }
            "9"
        },
        10 => {
            proof {
                reveal_strlit("A");
                assert("A"@ =~= seq![digit_char(10)]);
            }
            "A"
        },
        11 => {
            proof {
                reveal_strlit("B");
                assert("B"@ =~= seq![digit_char(11)]);
            }
            "B"
        },
        12 => {
            proof {
                reveal_strlit("C");
                assert("C"@ =~= seq![digit_char(12)]);
            }
            "C"
        },
        13 => {
            proof {
                reveal_strlit("D");
                assert("D"@ =~= seq![digit_char(13)]);
            }
            "D"
        },
        14 => {
            proof {
                reveal_strlit("E");
                assert("E"@ =~= seq![digit_char(14)]);
            }
            "E"
        },
        _ => {
            proof {
                reveal_strlit("F");
                assert("F"@ =~= seq![digit_char(15)]);
            }
            "F"
        },
    }
}

/// Renders a byte value in decimal, without padding or leading zeros.
pub fn dec_u8_str(n: u8) -> (s: String)
    ensures
        s@ == dec_digits(n as int),
{
    let mut s = String::new();
    if n >= 100 {
        s.append(digit_str(n / 100));
    }
    if n >= 10 {
        s.append(digit_str((n / 10) % 10));
    }
    s.append(digit_str(n % 10));
    proof {
        assert(s@ =~= dec_digits(n as int));
    }
    s
}

/// Renders a byte value as exactly two uppercase hex digits.
pub fn hex2_str(n: u8) -> (s: String)
    ensures
        s@ == hex2(n as int),
{
    let mut s = String::new();
    s.append(digit_str(n / 16));
    s.append(digit_str(n % 16));
    proof {
        assert(s@ =~= hex2(n as int));
    }
    s
}

/// Renders the plain `R;G;B` decimal triplet of the three channels.
pub fn plain_str(r: u8, g: u8, b: u8) -> (s: String)
    ensures
        s@ == plain_of(r, g, b),
{
    let mut s = dec_u8_str(r);
    proof {
        reveal_strlit(";");
        assert(";"@ =~= seq![';']);
    }
    s.append(";");
    let gs = dec_u8_str(g);
    s.append(gs.as_str());
    s.append(";");
    let bs = dec_u8_str(b);
    s.append(bs.as_str());
    proof {
        assert(s@ =~= plain_of(r, g, b));
    }
    s
}

/// Renders the `#RRGGBB` hex code of the three channels.
pub fn hex_str(r: u8, g: u8, b: u8) -> (s: String)
    ensures
        s@ == hex_of(r, g, b),
{
    proof {
        reveal_strlit("#");
        assert("#"@ =~= seq!['#']);
    }
    let mut s = String::from_str("#");
    let rs = hex2_str(r);
    s.append(rs.as_str());
    let gs = hex2_str(g);
    s.append(gs.as_str());
    let bs = hex2_str(b);
    s.append(bs.as_str());
    proof {
        assert(s@ =~= hex_of(r, g, b));
    }
    s
}

/// Renders the plain triplet enclosed in double quotes.
pub fn enclosed_str(r: u8, g: u8, b: u8) -> (s: String)
    ensures
        s@ == enclosed_of(r, g, b),
{
    proof {
        reveal_strlit("\"");
        assert("\""@ =~= seq!['"']);
    }
    let mut s = String::from_str("\"");
    let p = plain_str(r, g, b);
    s.append(p.as_str());
    s.append("\"");
    proof {
        assert(s@ =~= enclosed_of(r, g, b));
    }
    s
}

/// Renders the VT foreground escape sequence for the three channels.
pub fn fg_str(r: u8, g: u8, b: u8) -> (s: String)
    ensures
        s@ == fg_of(r, g, b),
{
    proof {
        reveal_strlit("\u{1b}[38;2;");
        assert("\u{1b}[38;2;"@ =~= seq!['\u{1b}', '[', '3', '8', ';', '2', ';']);
        reveal_strlit("m");
        assert("m"@ =~= seq!['m']);
    }
    let mut s = String::from_str("\u{1b}[38;2;");
    let p = plain_str(r, g, b);
    s.append(p.as_str());
    s.append("m");
    proof {
        assert(s@ =~= fg_of(r, g, b));
    }
    s
}

/// Renders the VT background escape sequence for the three channels.
pub fn bg_str(r: u8, g: u8, b: u8) -> (s: String)
    ensures
        s@ == bg_of(r, g, b),
{
    proof {
        reveal_strlit("\u{1b}[48;2;");
        assert("\u{1b}[48;2;"@ =~= seq!['\u{1b}', '[', '4', '8', ';', '2', ';']);
        reveal_strlit("m");
        assert("m"@ =~= seq!['m']);
    }
    let mut s = String::from_str("\u{1b}[48;2;");
    let p = plain_str(r, g, b);
    s.append(p.as_str());
    s.append("m");
    proof {
        assert(s@ =~= bg_of(r, g, b));
    }
    s
}

} // verus!
