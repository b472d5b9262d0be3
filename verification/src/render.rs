//! Rendering of numbers and timestamps into the strings the commands
//! return.

use vstd::prelude::*;

use crate::time::Timestamp;

verus! {

/// The character of a decimal digit.
pub open spec fn digit_char(d: int) -> char {
    if d == 0 {
        '0'
    } else if d == 1 {
        '1'
    } else if d == 2 {
        '2'
    } else if d == 3 {
        '3'
    } else if d == 4 {
        '4'
    } else if d == 5 {
        '5'
    } else if d == 6 {
        '6'
    } else if d == 7 {
        '7'
    } else if d == 8 {
        '8'
    } else {
        '9'
    }
}

/// Decimal digits of `n`, most significant first, no leading zeros (the
/// single digit `0` for zero).
pub open spec fn dec_chars(n: int) -> Seq<char>
    decreases n,
{
    if n < 10 {
        seq![digit_char(n)]
    } else {
        dec_chars(n / 10).push(digit_char(n % 10))
    }
}

/// `n` as two digits, zero padded.
pub open spec fn pad2_chars(n: int) -> Seq<char> {
    seq![digit_char(n / 10 % 10), digit_char(n % 10)]
}

/// `n` as four digits, zero padded.
pub open spec fn pad4_chars(n: int) -> Seq<char> {
    seq![
        digit_char(n / 1000 % 10),
        digit_char(n / 100 % 10),
        digit_char(n / 10 % 10),
        digit_char(n % 10),
    ]
}

/// `HH:MM:SS` of a timestamp.
pub open spec fn spec_time_chars(t: Timestamp) -> Seq<char> {
    pad2_chars(t.hour as int) + ":"@ + pad2_chars(t.minute as int) + ":"@ + pad2_chars(
        t.second as int,
    )
}

/// `YYYY-MM-DD HH:MM:SS` of a timestamp.
pub open spec fn spec_datetime_chars(t: Timestamp) -> Seq<char> {
    pad4_chars(t.date.year as int) + "-"@ + pad2_chars(t.date.month as int) + "-"@ + pad2_chars(
        t.date.day as int,
    ) + " "@ + spec_time_chars(t)
}

/// A whole-minute count in hundredths of an hour, rounded to the nearest
/// hundredth (the fraction `m * 5 / 3` is never half way between two
/// integers, so no tie arises).
pub open spec fn spec_hour_hundredths(m: int) -> int {
    (5 * m + 1) / 3
}

/// A nonnegative whole-minute count as decimal hours with exactly two
/// fraction digits, e.g. 390 minutes give `6.50`.
pub open spec fn spec_hours_mag_chars(m: int) -> Seq<char> {
    dec_chars(spec_hour_hundredths(m) / 100) + "."@ + pad2_chars(spec_hour_hundredths(m) % 100)
}

/// A signed whole-minute count as decimal hours with two fraction digits
/// and a leading minus for negative counts.
pub open spec fn spec_hours_chars(minutes: int) -> Seq<char> {
    if minutes < 0 {
        seq!['-'] + spec_hours_mag_chars(-minutes)
    } else {
        spec_hours_mag_chars(minutes)
    }
}

/// The single decimal digit `d` as a string slice.
fn digit_str(d: u8) -> (r: &'static str)
    requires
        d <= 9,
    ensures
        r@ == seq![digit_char(d as int)],
{
    proof {
        reveal_strlit("0");
        reveal_strlit("1");
        reveal_strlit("2");
        reveal_strlit("3");
        reveal_strlit("4");
        reveal_strlit("5");
        reveal_strlit("6");
        reveal_strlit("7");
        reveal_strlit("8");
        reveal_strlit("9");
    }
    if d == 0 {
        "0"
    } else if d == 1 {
        "1"
    } else if d == 2 {
        "2"
    } else if d == 3 {
        "3"
    } else if d == 4 {
        "4"
    } else if d == 5 {
        "5"
    } else if d == 6 {
        "6"
    } else if d == 7 {
        "7"
    } else if d == 8 {
        "8"
    } else {
        "9"
    }
}

/// Appends the decimal digits of `n` to `out`.
pub fn append_u128(out: &mut String, n: u128)
    ensures
        final(out)@ == old(out)@ + dec_chars(n as int),
    decreases n,
{
    if n >= 10 {
        append_u128(out, n / 10);
    }
    let d: u8 = (n % 10) as u8;
    out.append(digit_str(d));
}

/// Appends `n` as two zero-padded digits to `out`.
pub fn append_pad2(out: &mut String, n: u8)
    ensures
        final(out)@ == old(out)@ + pad2_chars(n as int),
{
    out.append(digit_str(n / 10 % 10));
    out.append(digit_str(n % 10));
    assert(final(out)@ =~= old(out)@ + pad2_chars(n as int));
}

/// Appends `n` as four zero-padded digits to `out`.
pub fn append_pad4(out: &mut String, n: u16)
    ensures
        final(out)@ == old(out)@ + pad4_chars(n as int),
{
    out.append(digit_str((n / 1000 % 10) as u8));
    out.append(digit_str((n / 100 % 10) as u8));
    out.append(digit_str((n / 10 % 10) as u8));
    out.append(digit_str((n % 10) as u8));
    assert(final(out)@ =~= old(out)@ + pad4_chars(n as int));
}

/// Appends a signed whole-minute count, given as sign and magnitude, as
/// decimal hours with two fraction digits.
pub fn append_hours(out: &mut String, negative: bool, minutes: u128)
    requires
        minutes < 0x1000_0000_0000_0000_0000_0000_0000,
    ensures
        final(out)@ == old(out)@ + spec_hours_chars(
            if negative {
                -(minutes as int)
            } else {
                minutes as int
            },
        ),
{
    if negative && minutes > 0 {
        proof {
            reveal_strlit("-");
        }
        out.append("-");
    }
    let hund: u128 = (5 * minutes + 1) / 3;
    append_u128(out, hund / 100);
    out.append(".");
    append_pad2(out, (hund % 100) as u8);
    proof {
        let m: int = if negative {
            -(minutes as int)
        } else {
            minutes as int
        };
        assert(final(out)@ =~= old(out)@ + spec_hours_chars(m));
    }
}

/// `HH:MM:SS` of a timestamp, zero padded, as the interactive output shows
/// times of day.
pub fn display_time(time: &Timestamp) -> (r: String)
    ensures
        r@ == spec_time_chars(*time),
{
    let mut out: String = String::new();
    append_pad2(&mut out, time.hour);
    out.append(":");
    append_pad2(&mut out, time.minute);
    out.append(":");
    append_pad2(&mut out, time.second);
    assert(out@ =~= spec_time_chars(*time));
    out
}

/// `YYYY-MM-DD HH:MM:SS` of a timestamp.
pub fn display_datetime(time: &Timestamp) -> (r: String)
    ensures
        r@ == spec_datetime_chars(*time),
{
    let mut out: String = String::new();
    append_pad4(&mut out, time.date.year);
    out.append("-");
    append_pad2(&mut out, time.date.month);
    out.append("-");
    append_pad2(&mut out, time.date.day);
    out.append(" ");
    let hms: String = display_time(time);
    out.append(hms.as_str());
    assert(out@ =~= spec_datetime_chars(*time));
    out
}

} // verus!
