//! Rendering numbers into the human-readable status strings the pipeline
//! reports.
//!
//! Status text is part of every persisted and broadcast update, so the
//! renderings are pinned down exactly: `dec_rep` gives the decimal form of
//! a number and `percent_rep` the two-decimal percentage form.

use vstd::prelude::*;

verus! {

/// The character for one decimal digit.
pub open spec fn digit_char(d: int) -> char
    recommends
        0 <= d < 10,
{
    if d == 0 {
        '0'
    } else if d == 1 {
        '1'
    } else if d == 2 {
        '2'
    } else if d == 3 {
        '3'
    } else if d == 4 {
        '4'
    } else if d == 5 {
        '5'
    } else if d == 6 {
        '6'
    } else if d == 7 {
        '7'
    } else if d == 8 {
        '8'
    } else {
        '9'
    }
}

/// The decimal rendering of a natural number, without leading zeros
/// (except for the number 0 itself).
pub open spec fn dec_rep(n: nat) -> Seq<char>
    decreases n,
{
    if n < 10 {
        seq![digit_char(n as int)]
    } else {
        dec_rep(n / 10).push(digit_char((n % 10) as int))
    }
}

/// The string literal for one decimal digit.
fn digit_str(d: u64) -> (s: &'static str)
    requires
        d < 10,
    ensures
        s@ == seq![digit_char(d as int)],
{
    proof {
        reveal_strlit("0");
        reveal_strlit("1");
        reveal_strlit("2");
        reveal_strlit("3");
        reveal_strlit("4");
        reveal_strlit("5");
        reveal_strlit("6");
        reveal_strlit("7");
        reveal_strlit("8");
        reveal_strlit("9");
    }
    match d {
        0 => "0",
        1 => "1",
        2 => "2",
        3 => "3",
        4 => "4",
        5 => "5",
        6 => "6",
        7 => "7",
        8 => "8",
        _ => "9",
    }
}

/// Render a number in decimal.
pub fn u64_to_string(n: u64) -> (s: String)
    ensures
        s@ == dec_rep(n as nat),
    decreases n,
{
    if n < 10 {
        digit_str(n).to_owned()
    } else {
        let prefix = u64_to_string(n / 10);
        let s = prefix.concat(digit_str(n % 10));
        proof {
            assert(dec_rep((n / 10) as nat).push(digit_char((n % 10) as int)) =~= dec_rep(
                (n / 10) as nat,
            ) + seq![digit_char((n % 10) as int)]);
        }
        s
    }
}

/// Render a count in decimal.
pub fn usize_to_string(n: usize) -> (s: String)
    ensures
        s@ == dec_rep(n as nat),
{
    u64_to_string(n as u64)
}

/// The two-decimal percentage rendering of a value in hundredths of a
/// percent: `1234` renders as `12.34`.
pub open spec fn percent_rep(hundredths: nat) -> Seq<char> {
    dec_rep(hundredths / 100) + seq![
        '.',
        digit_char((hundredths / 10 % 10) as int),
        digit_char((hundredths % 10) as int),
    ]
}

/// Render a value in hundredths of a percent with two decimals.
pub fn percent_to_string(hundredths: u64) -> (s: String)
    ensures
        s@ == percent_rep(hundredths as nat),
{
    let whole = u64_to_string(hundredths / 100);
    let mut s = whole;
    proof {
        reveal_strlit(".");
    }
    s.append(".");
    s.append(digit_str(hundredths / 10 % 10));
    s.append(digit_str(hundredths % 10));
    proof {
        assert(s@ =~= percent_rep(hundredths as nat));
    }
    s
}

} // verus!
