//! Decimal rendering of unsigned integers, for the human-readable
//! messages the library composes.

use vstd::prelude::*;
use vstd::string::StringExecFns;

verus! {

/// The digit character of a value below ten.
pub open spec fn spec_digit_char(d: int) -> char {
    ((48 + d) as u8) as char
}

/// The decimal digits of a non-negative number, most significant first.
pub open spec fn spec_decimal(n: int) -> Seq<char>
    decreases n,
{
    if n < 0 {
        Seq::<char>::empty()
    } else if n < 10 {
        seq![spec_digit_char(n)]
    } else {
        spec_decimal(n / 10).push(spec_digit_char(n % 10))
    }
}

/// The one-character string of a digit value.
fn digit_str(d: u64) -> (r: &'static str)
    requires
        d < 10,
    ensures
        r@ == seq![spec_digit_char(d as int)],
{
    proof {
        reveal_strlit("0");
        reveal_strlit("1");
        reveal_strlit("2");
        reveal_strlit("3");
        reveal_strlit("4");
        reveal_strlit("5");
        reveal_strlit("6");
        reveal_strlit("7");
        reveal_strlit("8");
        reveal_strlit("9");
    }
    match d {
        0 => "0",
        1 => "1",
        2 => "2",
        3 => "3",
        4 => "4",
        5 => "5",
        6 => "6",
        7 => "7",
        8 => "8",
        _ => "9",
    }
}

/// Renders `n` in decimal, exactly the digits of `spec_decimal`.
pub fn u64_to_string(n: u64) -> (r: String)
    ensures
        r@ == spec_decimal(n as int),
    decreases n,
{
    if n < 10 {
        let mut s = String::new();
        s.append(digit_str(n));
        proof {
            assert(s@ =~= seq![spec_digit_char(n as int)]);
        }
        s
    } else {
        let mut s = u64_to_string(n / 10);
        s.append(digit_str(n % 10));
        proof {
            assert(s@ =~= spec_decimal((n / 10) as int).push(spec_digit_char((n % 10) as int)));
        }
        s
    }
}

/// A millisecond count rendered as seconds: the whole seconds, a dot,
/// and exactly three millisecond digits.
pub open spec fn spec_seconds(ms: int) -> Seq<char> {
    spec_decimal(ms / 1000) + seq!['.'] + spec_millis(ms % 1000)
}

/// Three zero-padded digits for a value below one thousand.
pub open spec fn spec_millis(r: int) -> Seq<char> {
    if r < 10 {
        seq!['0', '0'] + spec_decimal(r)
    } else if r < 100 {
        seq!['0'] + spec_decimal(r)
    } else {
        spec_decimal(r)
    }
}

/// Renders a millisecond count as a seconds string, exactly the digits
/// of `spec_seconds`.
pub fn ms_to_seconds_string(ms: u64) -> (r: String)
    ensures
        r@ == spec_seconds(ms as int),
{
    let mut s = u64_to_string(ms / 1000);
    s.append(".");
    let rest = ms % 1000;
    if rest < 10 {
        s.append("00");
    } else if rest < 100 {
        s.append("0");
    }
    let digits = u64_to_string(rest);
    s.append(digits.as_str());
    proof {
        reveal_strlit(".");
        reveal_strlit("00");
        reveal_strlit("0");
        assert(s@ =~= spec_seconds(ms as int));
    }
    s
}

} // verus!
