//! Exact decimal rendering of the numbers that appear in lowered text:
//! MIDI integers and fixed-point durations. Durations render as the exact
//! decimal expansion of their sixteenth count divided by sixteen, which
//! always terminates within four fractional digits.

use vstd::prelude::*;

use crate::duration::Duration;

verus! {

/// The character of one decimal digit.
pub open spec fn digit_char(d: int) -> char {
    if d == 0 {
        '0'
    } else if d == 1 {
        '1'
    } else if d == 2 {
        '2'
    } else if d == 3 {
        '3'
    } else if d == 4 {
        '4'
    } else if d == 5 {
        '5'
    } else if d == 6 {
        '6'
    } else if d == 7 {
        '7'
    } else if d == 8 {
        '8'
    } else {
        '9'
    }
}

/// The decimal digits of a natural number, most significant first.
pub open spec fn dec_digits(n: nat) -> Seq<char>
    decreases n,
{
    if n < 10 {
        seq![digit_char(n as int)]
    } else {
        dec_digits(n / 10) + seq![digit_char((n % 10) as int)]
    }
}

/// The decimal rendering of an integer: a minus sign for negatives.
pub open spec fn int_digits(i: int) -> Seq<char> {
    if i < 0 {
        seq!['-'] + dec_digits((-i) as nat)
    } else {
        dec_digits(i as nat)
    }
}

/// The digits after the decimal point of `f`/16, for `f` below 16: the
/// exact decimal expansion, with trailing zeros removed (a single zero
/// when `f` is zero).
pub open spec fn frac_sixteenth_digits(f: int) -> Seq<char> {
    if f == 0 {
        "0"@
    } else if f == 1 {
        "0625"@
    } else if f == 2 {
        "125"@
    } else if f == 3 {
        "1875"@
    } else if f == 4 {
        "25"@
    } else if f == 5 {
        "3125"@
    } else if f == 6 {
        "375"@
    } else if f == 7 {
        "4375"@
    } else if f == 8 {
        "5"@
    } else if f == 9 {
        "5625"@
    } else if f == 10 {
        "625"@
    } else if f == 11 {
        "6875"@
    } else if f == 12 {
        "75"@
    } else if f == 13 {
        "8125"@
    } else if f == 14 {
        "875"@
    } else {
        "9375"@
    }
}

/// The exact decimal rendering of a duration of `s` sixteenths of a whole
/// note: integer part, decimal point, fractional digits.
pub open spec fn duration_text(s: nat) -> Seq<char> {
    dec_digits(s / 16) + "."@ + frac_sixteenth_digits((s % 16) as int)
}

/// Appends one decimal digit.
fn append_digit(out: &mut String, d: u8)
    requires
        d < 10,
    ensures
        final(out)@ == old(out)@ + seq![digit_char(d as int)],
{
    match d {
        0 => {
            out.append("0");
            proof {
                reveal_strlit("0");
                assert(final(out)@ =~= old(out)@ + seq![digit_char(d as int)]);
            }
        },
        1 => {
            out.append("1");
            proof {
                reveal_strlit("1");
                assert(final(out)@ =~= old(out)@ + seq![digit_char(d as int)]);
            }
        },
        2 => {
            out.append("2");
            proof {
                reveal_strlit("2");
                assert(final(out)@ =~= old(out)@ + seq![digit_char(d as int)]);
            }
        },
        3 => {
            out.append("3");
            proof {
                reveal_strlit("3");
                assert(final(out)@ =~= old(out)@ + seq![digit_char(d as int)]);
            }
        },
        4 => {
            out.append("4");
            proof {
                reveal_strlit("4");
                assert(final(out)@ =~= old(out)@ + seq![digit_char(d as int)]);
            }
        },
        5 => {
            out.append("5");
            proof {
                reveal_strlit("5");
                assert(final(out)@ =~= old(out)@ + seq![digit_char(d as int)]);
            }
        },
        6 => {
            out.append("6");
            proof {
                reveal_strlit("6");
                assert(final(out)@ =~= old(out)@ + seq![digit_char(d as int)]);
            }
        },
        7 => {
            out.append("7");
            proof {
                reveal_strlit("7");
                assert(final(out)@ =~= old(out)@ + seq![digit_char(d as int)]);
            }
        },
        8 => {
            out.append("8");
            proof {
                reveal_strlit("8");
                assert(final(out)@ =~= old(out)@ + seq![digit_char(d as int)]);
            }
        },
        _ => {
            out.append("9");
            proof {
                reveal_strlit("9");
                assert(final(out)@ =~= old(out)@ + seq![digit_char(d as int)]);
            }
        },
    }
}

/// Appends the decimal digits of a natural number.
pub fn append_u32(out: &mut String, n: u32)
    ensures
        final(out)@ == old(out)@ + dec_digits(n as nat),
    decreases n,
{
    if n < 10 {
        append_digit(out, n as u8);
    } else {
        append_u32(out, n / 10);
        append_digit(out, (n % 10) as u8);
        assert(final(out)@ =~= old(out)@ + dec_digits(n as nat));
    }
}

/// Appends the decimal rendering of a signed MIDI integer.
pub fn append_i8(out: &mut String, v: i8)
    ensures
        final(out)@ == old(out)@ + int_digits(v as int),
{
    if v < 0 {
        out.append("-");
        let m: u32 = (-(v as i32)) as u32;
        append_u32(out, m);
        proof {
            reveal_strlit("-");
            assert(final(out)@ =~= old(out)@ + int_digits(v as int));
        }
    } else {
        append_u32(out, v as u32);
    }
}

/// Appends the exact decimal rendering of a duration.
pub fn append_duration(out: &mut String, d: Duration)
    ensures
        final(out)@ == old(out)@ + duration_text(d.0 as nat),
{
    append_u32(out, d.0 / 16);
    out.append(".");
    let f: u32 = d.0 % 16;
    match f {
        0 => out.append("0"),
        1 => out.append("0625"),
        2 => out.append("125"),
        3 => out.append("1875"),
        4 => out.append("25"),
        5 => out.append("3125"),
        6 => out.append("375"),
        7 => out.append("4375"),
        8 => out.append("5"),
        9 => out.append("5625"),
        10 => out.append("625"),
        11 => out.append("6875"),
        12 => out.append("75"),
        13 => out.append("8125"),
        14 => out.append("875"),
        _ => out.append("9375"),
    }
    assert(final(out)@ =~= old(out)@ + duration_text(d.0 as nat));
}

} // verus!
