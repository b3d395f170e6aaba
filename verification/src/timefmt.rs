//! Rendering the landing endpoint's timestamp: decimal digits written out
//! by hand, year-month-day, then a clock with two-digit fields.

use vstd::prelude::*;
use vstd::string::StringExecFns;

verus! {

/// The digit character of a value below ten.
pub open spec fn dec_digit(d: int) -> char {
    if d == 0 {
        '0'
    } else if d == 1 {
        '1'
    } else if d == 2 {
        '2'
    } else if d == 3 {
        '3'
    } else if d == 4 {
        '4'
    } else if d == 5 {
        '5'
    } else if d == 6 {
        '6'
    } else if d == 7 {
        '7'
    } else if d == 8 {
        '8'
    } else {
        '9'
    }
}

/// The decimal rendering of a non-negative value, most significant digit
/// first.
pub open spec fn dec_str_spec(n: int) -> Seq<char>
    decreases n,
{
    if n < 10 {
        seq![dec_digit(n)]
    } else {
        dec_str_spec(n / 10).push(dec_digit(n % 10))
    }
}

/// The decimal rendering padded to at least two digits with a leading
/// zero.
pub open spec fn two_digit_spec(n: int) -> Seq<char> {
    if n < 10 {
        seq!['0', dec_digit(n)]
    } else {
        dec_str_spec(n)
    }
}

/// The timestamp layout: unpadded date fields, two-digit clock fields.
pub open spec fn timestamp_spec(
    year: int,
    month: int,
    day: int,
    hour: int,
    minute: int,
    second: int,
) -> Seq<char> {
    dec_str_spec(year) + "-"@ + dec_str_spec(month) + "-"@ + dec_str_spec(day) + " "@
        + two_digit_spec(hour) + ":"@ + two_digit_spec(minute) + ":"@ + two_digit_spec(second)
}

fn digit_str(d: u32) -> (r: &'static str)
    requires
        d < 10,
    ensures
        r@ == seq![dec_digit(d as int)],
{
    match d {
        0 => {
            proof {
                reveal_strlit("0");
                assert("0"@ =~= seq![dec_digit(0)]);
            }
            "0"
        },
        1 => {
            proof {
                reveal_strlit("1");
                assert("1"@ =~= seq![dec_digit(1)]);
            }
            "1"
        },
        2 => {
            proof {
                reveal_strlit("2");
                assert("2"@ =~= seq![dec_digit(2)]);
            }
            "2"
        },
        3 => {
            proof {
                reveal_strlit("3");
                assert("3"@ =~= seq![dec_digit(3)]);
            }
            "3"
        },
        4 => {
            proof {
                reveal_strlit("4");
                assert("4"@ =~= seq![dec_digit(4)]);
            }
            "4"
        },
        5 => {
            proof {
                reveal_strlit("5");
                assert("5"@ =~= seq![dec_digit(5)]);
            }
            "5"
        },
        6 => {
            proof {
                reveal_strlit("6");
                assert("6"@ =~= seq![dec_digit(6)]);
            }
            "6"
        },
        7 => {
            proof {
                reveal_strlit("7");
                assert("7"@ =~= seq![dec_digit(7)]);
            }
            "7"
        },
        8 => {
            proof {
                reveal_strlit("8");
                assert("8"@ =~= seq![dec_digit(8)]);
            }
            "8"
        },
        _ => {
            proof {
                reveal_strlit("9");
                assert("9"@ =~= seq![dec_digit(9)]);
            }
            "9"
        },
    }
}

/// Writes a value in decimal.
pub fn dec_string(n: u32) -> (r: String)
    ensures
        r@ == dec_str_spec(n as int),
    decreases n,
{
    if n < 10 {
        digit_str(n).to_owned()
    } else {
        let mut s = dec_string(n / 10);
        s.append(digit_str(n % 10));
        proof {
            assert(s@ =~= dec_str_spec((n / 10) as int).push(dec_digit((n % 10) as int)));
        }
        s
    }
}

/// Writes a value in decimal, padded to at least two digits.
pub fn two_digit_string(n: u32) -> (r: String)
    ensures
        r@ == two_digit_spec(n as int),
{
    if n < 10 {
        let mut s = digit_str(0).to_owned();
        s.append(digit_str(n));
        proof {
            assert(s@ =~= seq!['0', dec_digit(n as int)]);
        }
        s
    } else {
        dec_string(n)
    }
}

/// Renders the landing endpoint's timestamp from broken-down civil time:
/// date fields as written, clock fields padded to two digits.
pub fn format_timestamp(year: u32, month: u32, day: u32, hour: u32, minute: u32, second: u32) -> (r:
    String)
    ensures
        r@ == timestamp_spec(
            year as int,
            month as int,
            day as int,
            hour as int,
            minute as int,
            second as int,
        ),
{
    let mut s = dec_string(year);
    s.append("-");
    let mo = dec_string(month);
    s.append(mo.as_str());
    s.append("-");
    let d = dec_string(day);
    s.append(d.as_str());
    s.append(" ");
    let h = two_digit_string(hour);
    s.append(h.as_str());
    s.append(":");
    let mi = two_digit_string(minute);
    s.append(mi.as_str());
    s.append(":");
    let se = two_digit_string(second);
    s.append(se.as_str());
    s
}

} // verus!
