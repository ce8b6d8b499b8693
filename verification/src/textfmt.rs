use vstd::prelude::*;
use vstd::string::StringExecFns;

verus! {

/// The character for one decimal digit.
pub open spec fn digit_char(d: int) -> char {
    ((d + 48) as u8) as char
}

/// The decimal digits of a non-negative number, most significant
/// first, with no leading zeros (a single zero for zero itself).
pub open spec fn dec_digits(n: int) -> Seq<char>
    decreases n,
{
    if n < 10 {
        seq![digit_char(n)]
    } else {
        dec_digits(n / 10) + seq![digit_char(n % 10)]
    }
}

/// Exactly five fractional digits, zero-padded on the left.
pub open spec fn frac5_chars(f: int) -> Seq<char> {
    seq![
        digit_char(f / 10000 % 10),
        digit_char(f / 1000 % 10),
        digit_char(f / 100 % 10),
        digit_char(f / 10 % 10),
        digit_char(f % 10),
    ]
}

/// A number of hundred-thousandths, written with a decimal point and
/// exactly five fractional digits.
pub open spec fn fixed5_chars(u: int) -> Seq<char> {
    dec_digits(u / 100000) + seq!['.'] + frac5_chars(u % 100000)
}

/// The footer line: seconds since the last successful refresh.
pub open spec fn footer_chars(secs: int) -> Seq<char> {
    "updated "@ + dec_digits(secs) + " seconds ago"@
}

/// One decimal digit as a string slice.
fn digit_str(d: u64) -> (s: &'static str)
    requires
        d < 10,
    ensures
        s@ == seq![digit_char(d as int)],
{
    proof {
        reveal_strlit("0");
        reveal_strlit("1");
        reveal_strlit("2");
        reveal_strlit("3");
        reveal_strlit("4");
        reveal_strlit("5");
        reveal_strlit("6");
        reveal_strlit("7");
        reveal_strlit("8");
        reveal_strlit("9");
    }
    let s = match d {
        0 => "0",
        1 => "1",
        2 => "2",
        3 => "3",
        4 => "4",
        5 => "5",
        6 => "6",
        7 => "7",
        8 => "8",
        _ => "9",
    };
    proof {
        assert(s@ =~= seq![digit_char(d as int)]);
    }
    s
}

/// A non-negative number in decimal.
pub fn u64_to_dec(n: u64) -> (s: String)
    ensures
        s@ == dec_digits(n as int),
    decreases n,
{
    if n < 10 {
        digit_str(n).to_owned()
    } else {
        let mut s = u64_to_dec(n / 10);
        s.append(digit_str(n % 10));
        proof {
            assert(s@ =~= dec_digits(n as int));
        }
        s
    }
}

/// A number of hundred-thousandths with five fractional digits, as in
/// `"3000.20000"`.
pub fn format_fixed5(u: u64) -> (s: String)
    ensures
        s@ == fixed5_chars(u as int),
{
    let mut s = u64_to_dec(u / 100000);
    proof {
        reveal_strlit(".");
    }
    s.append(".");
    let frac = u % 100000;
    s.append(digit_str(frac / 10000 % 10));
    s.append(digit_str(frac / 1000 % 10));
    s.append(digit_str(frac / 100 % 10));
    s.append(digit_str(frac / 10 % 10));
    s.append(digit_str(frac % 10));
    proof {
        assert(s@ =~= fixed5_chars(u as int));
    }
    s
}

/// The footer text for a refresh that happened the given number of
/// seconds ago.
pub fn footer_text(secs: u64) -> (s: String)
    ensures
        s@ == footer_chars(secs as int),
{
    let mut s = "updated ".to_owned();
    let digits = u64_to_dec(secs);
    s.append(digits.as_str());
    s.append(" seconds ago");
    proof {
        assert(s@ =~= footer_chars(secs as int));
    }
    s
}

} // verus!
