//! Decimal text of integers, as `Display` writes them.
use vstd::prelude::*;

verus! {

/// The character of a decimal digit.
pub open spec fn digit_char(d: int) -> char {
    (48 + d) as char
}

/// The decimal digits of a natural number, most significant first.
pub open spec fn nat_decimal(n: nat) -> Seq<char>
    decreases n,
{
    if n < 10 {
        seq![digit_char(n as int)]
    } else {
        nat_decimal(n / 10) + seq![digit_char((n % 10) as int)]
    }
}

/// The decimal text of an integer: a minus sign for negative values, then the digits.
pub open spec fn int_decimal(i: int) -> Seq<char> {
    if i < 0 {
        seq!['-'] + nat_decimal((-i) as nat)
    } else {
        nat_decimal(i as nat)
    }
}

/// The text of one decimal digit.
fn digit_str(d: u64) -> (s: &'static str)
    requires
        d < 10,
    ensures
        s@ == seq![digit_char(d as int)],
{
    proof {
        reveal_strlit("0");
        reveal_strlit("1");
        reveal_strlit("2");
        reveal_strlit("3");
        reveal_strlit("4");
        reveal_strlit("5");
        reveal_strlit("6");
        reveal_strlit("7");
        reveal_strlit("8");
        reveal_strlit("9");
    }
    let s = if d == 0 {
        "0"
    } else if d == 1 {
        "1"
    } else if d == 2 {
        "2"
    } else if d == 3 {
        "3"
    } else if d == 4 {
        "4"
    } else if d == 5 {
        "5"
    } else if d == 6 {
        "6"
    } else if d == 7 {
        "7"
    } else if d == 8 {
        "8"
    } else {
        "9"
    };
    assert(s@ =~= seq![digit_char(d as int)]);
    s
}

/// `prefix` followed by the decimal digits of `n`.
fn write_decimal(n: u64, prefix: String) -> (s: String)
    ensures
        s@ == prefix@ + nat_decimal(n as nat),
    decreases n,
{
    if n < 10 {
        prefix.concat(digit_str(n))
    } else {
        let head = write_decimal(n / 10, prefix);
        let s = head.concat(digit_str(n % 10));
        assert(s@ =~= prefix@ + nat_decimal(n as nat));
        s
    }
}

/// The decimal text of an `i32`, as `Display` writes it: a minus sign for
/// negative values, then the digits without leading zeros.
pub(crate) fn i32_to_string(i: i32) -> (s: String)
    ensures
        s@ == int_decimal(i as int),
{
    if i < 0 {
        let magnitude: u64 = (-(i as i64)) as u64;
        proof {
            reveal_strlit("-");
        }
        let s = write_decimal(magnitude, String::from_str("-"));
        assert(s@ =~= int_decimal(i as int));
        s
    } else {
        let s = write_decimal(i as u64, String::new());
        assert(s@ =~= int_decimal(i as int));
        s
    }
}

} // verus!
