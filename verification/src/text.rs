//! Verified text rendering of numbers: decimal digits and comma-grouped
//! decimals for the summary report.

use vstd::prelude::*;
use vstd::string::StringExecFns;

verus! {

/// The decimal digit character of a value below ten.
pub open spec fn spec_digit_char(d: int) -> char
    recommends
        0 <= d < 10,
{
    if d == 0 {
        '0'
    } else if d == 1 {
        '1'
    } else if d == 2 {
        '2'
    } else if d == 3 {
        '3'
    } else if d == 4 {
        '4'
    } else if d == 5 {
        '5'
    } else if d == 6 {
        '6'
    } else if d == 7 {
        '7'
    } else if d == 8 {
        '8'
    } else {
        '9'
    }
}

/// The decimal digits of a number, most significant first, no leading
/// zeros (zero itself is `"0"`).
pub open spec fn spec_digits(n: nat) -> Seq<char>
    decreases n,
{
    if n < 10 {
        seq![spec_digit_char(n as int)]
    } else {
        spec_digits(n / 10).push(spec_digit_char((n % 10) as int))
    }
}

/// The decimal digits of a number grouped in threes from the right,
/// groups separated by commas.
pub open spec fn spec_commas(n: nat) -> Seq<char>
    decreases n,
{
    if n < 1000 {
        spec_digits(n)
    } else {
        spec_commas(n / 1000) + seq![','] + spec_pad3((n % 1000) as nat)
    }
}

/// A group of three digits, padded on the left with zeros.
pub open spec fn spec_pad3(m: nat) -> Seq<char>
    recommends
        m < 1000,
{
    if m < 10 {
        seq!['0', '0'] + spec_digits(m)
    } else if m < 100 {
        seq!['0'] + spec_digits(m)
    } else {
        spec_digits(m)
    }
}

/// The character of one decimal digit.
fn digit_str(d: u64) -> (s: &'static str)
    requires
        d < 10,
    ensures
        s@ == seq![spec_digit_char(d as int)],
{
    proof {
        reveal_strlit("0");
        reveal_strlit("1");
        reveal_strlit("2");
        reveal_strlit("3");
        reveal_strlit("4");
        reveal_strlit("5");
        reveal_strlit("6");
        reveal_strlit("7");
        reveal_strlit("8");
        reveal_strlit("9");
    }
    if d == 0 {
        "0"
    } else if d == 1 {
        "1"
    } else if d == 2 {
        "2"
    } else if d == 3 {
        "3"
    } else if d == 4 {
        "4"
    } else if d == 5 {
        "5"
    } else if d == 6 {
        "6"
    } else if d == 7 {
        "7"
    } else if d == 8 {
        "8"
    } else {
        "9"
    }
}

/// Renders a number as its decimal digits.
pub fn u64_to_string(n: u64) -> (s: String)
    ensures
        s@ == spec_digits(n as nat),
    decreases n,
{
    if n < 10 {
        let mut s = String::new();
        s.append(digit_str(n));
        proof {
            assert(s@ =~= spec_digits(n as nat));
        }
        s
    } else {
        let mut s = u64_to_string(n / 10);
        s.append(digit_str(n % 10));
        proof {
            assert(s@ =~= spec_digits(n as nat));
        }
        s
    }
}

/// Renders a number with its digits grouped in threes by commas, as the
/// summary report shows counts.
pub fn add_commas(num: u64) -> (s: String)
    ensures
        s@ == spec_commas(num as nat),
    decreases num,
{
    if num < 1000 {
        u64_to_string(num)
    } else {
        let mut s = add_commas(num / 1000);
        s.append(",");
        let rem = num % 1000;
        if rem < 10 {
            s.append("00");
        } else if rem < 100 {
            s.append("0");
        }
        let tail = u64_to_string(rem);
        s.append(tail.as_str());
        proof {
            reveal_strlit(",");
            reveal_strlit("00");
            reveal_strlit("0");
            assert(s@ =~= spec_commas(num as nat));
        }
        s
    }
}

} // verus!
