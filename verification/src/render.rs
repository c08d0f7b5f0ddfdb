//! Decimal rendering of integers, shared by the textual renderers.

use vstd::prelude::*;

verus! {

/// The decimal digit character for `d` (0 to 9).
pub open spec fn digit_char(d: nat) -> char {
    if d == 0 {
        '0'
    } else if d == 1 {
        '1'
    } else if d == 2 {
        '2'
    } else if d == 3 {
        '3'
    } else if d == 4 {
        '4'
    } else if d == 5 {
        '5'
    } else if d == 6 {
        '6'
    } else if d == 7 {
        '7'
    } else if d == 8 {
        '8'
    } else {
        '9'
    }
}

/// The decimal digits of `n`, most significant first.
pub open spec fn dec_digits(n: nat) -> Seq<char>
    decreases n,
{
    if n < 10 {
        seq![digit_char(n)]
    } else {
        dec_digits(n / 10).push(digit_char(n % 10))
    }
}

/// The decimal rendering of a signed value: a minus sign for negative
/// values, then the digits of the magnitude.
pub open spec fn i64_dec(v: int) -> Seq<char> {
    if v < 0 {
        seq!['-'] + dec_digits((-v) as nat)
    } else {
        dec_digits(v as nat)
    }
}

/// The one-character string for a decimal digit.
fn digit_str(d: u64) -> (s: &'static str)
    requires
        d < 10,
    ensures
        s@ == seq![digit_char(d as nat)],
{
    match d {
        0 => {
            proof {
                reveal_strlit("0");
                assert("0"@ =~= seq![digit_char(0)]);
            }
            "0"
        },
        1 => {
            proof {
                reveal_strlit("1");
                assert("1"@ =~= seq![digit_char(1)]);
            }
            "1"
        },
        2 => {
            proof {
                reveal_strlit("2");
                assert("2"@ =~= seq![digit_char(2)]);
            }
            "2"
        },
        3 => {
            proof {
                reveal_strlit("3");
                assert("3"@ =~= seq![digit_char(3)]);
            }
            "3"
        },
        4 => {
            proof {
                reveal_strlit("4");
                assert("4"@ =~= seq![digit_char(4)]);
            }
            "4"
        },
        5 => {
            proof {
                reveal_strlit("5");
                assert("5"@ =~= seq![digit_char(5)]);
            }
            "5"
        },
        6 => {
            proof {
                reveal_strlit("6");
                assert("6"@ =~= seq![digit_char(6)]);
            }
            "6"
        },
        7 => {
            proof {
                reveal_strlit("7");
                assert("7"@ =~= seq![digit_char(7)]);
            }
            "7"
        },
        8 => {
            proof {
                reveal_strlit("8");
                assert("8"@ =~= seq![digit_char(8)]);
            }
            "8"
        },
        _ => {
            proof {
                reveal_strlit("9");
                assert("9"@ =~= seq![digit_char(9)]);
            }
            "9"
        },
    }
}

/// Renders an unsigned value in decimal.
pub fn u64_to_dec(n: u64) -> (s: String)
    ensures
        s@ == dec_digits(n as nat),
    decreases n,
{
    if n < 10 {
        String::from_str(digit_str(n))
    } else {
        let mut s = u64_to_dec(n / 10);
        s.append(digit_str(n % 10));
        s
    }
}

/// Renders a signed value in decimal.
pub fn i64_to_dec(v: i64) -> (s: String)
    ensures
        s@ == i64_dec(v as int),
{
    if v >= 0 {
        u64_to_dec(v as u64)
    } else {
        let mag128: i128 = -(v as i128);
        let mag: u64 = mag128 as u64;
        let mut s = String::from_str("-");
        proof {
            reveal_strlit("-");
            assert("-"@ =~= seq!['-']);
        }
        let digits = u64_to_dec(mag);
        s.append(digits.as_str());
        s
    }
}

} // verus!
