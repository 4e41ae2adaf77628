//! Building text: characters and decimal numbers appended to a string.

use vstd::prelude::*;
use vstd::string::StringExecFns;

verus! {

/// The character of the digit `d`.
pub open spec fn digit_char(d: nat) -> char {
    if d == 0 {
        '0'
    } else if d == 1 {
        '1'
    } else if d == 2 {
        '2'
    } else if d == 3 {
        '3'
    } else if d == 4 {
        '4'
    } else if d == 5 {
        '5'
    } else if d == 6 {
        '6'
    } else if d == 7 {
        '7'
    } else if d == 8 {
        '8'
    } else {
        '9'
    }
}

/// The decimal numeral of `n`, without leading zeros.
pub open spec fn decimal(n: nat) -> Seq<char>
    decreases n,
{
    if n < 10 {
        seq![digit_char(n)]
    } else {
        decimal(n / 10).push(digit_char(n % 10))
    }
}

/// The numeral of `n` with two digits at least: a zero stands before a
/// single digit.
pub open spec fn two_digits(n: nat) -> Seq<char> {
    if n < 10 {
        seq!['0'] + decimal(n)
    } else {
        decimal(n)
    }
}

/// Appends a blank.
pub fn append_blank(s: &mut String)
    ensures
        final(s)@ == old(s)@.push(' '),
{
    s.append(" ");
    proof {
        reveal_strlit(" ");
        assert(" "@ =~= seq![' ']);
        assert(s@ =~= old(s)@.push(' '));
    }
}

/// Appends the digit `d`.
pub fn append_digit(s: &mut String, d: u8)
    requires
        d < 10,
    ensures
        final(s)@ == old(s)@.push(digit_char(d as nat)),
{
    match d {
        0 => s.append("0"),
        1 => s.append("1"),
        2 => s.append("2"),
        3 => s.append("3"),
        4 => s.append("4"),
        5 => s.append("5"),
        6 => s.append("6"),
        7 => s.append("7"),
        8 => s.append("8"),
        _ => s.append("9"),
    }
    proof {
        reveal_strlit("0");
        reveal_strlit("1");
        reveal_strlit("2");
        reveal_strlit("3");
        reveal_strlit("4");
        reveal_strlit("5");
        reveal_strlit("6");
        reveal_strlit("7");
        reveal_strlit("8");
        reveal_strlit("9");
        let one = seq![digit_char(d as nat)];
        assert(s@ =~= old(s)@ + one);
        assert(old(s)@ + one =~= old(s)@.push(digit_char(d as nat)));
    }
}

/// Appends the decimal numeral of `n`.
pub fn append_decimal(s: &mut String, n: u64)
    ensures
        final(s)@ == old(s)@ + decimal(n as nat),
    decreases n,
{
    if n >= 10 {
        append_decimal(s, n / 10);
    }
    let ghost prefix = s@;
    append_digit(s, (n % 10) as u8);
    proof {
        if n >= 10 {
            assert(prefix.push(digit_char((n % 10) as nat)) =~= old(s)@ + decimal(n as nat));
        } else {
            assert(prefix.push(digit_char(n as nat)) =~= old(s)@ + decimal(n as nat));
        }
    }
}

/// Appends the numeral of `n` with two digits at least.
pub fn append_two_digits(s: &mut String, n: u64)
    ensures
        final(s)@ == old(s)@ + two_digits(n as nat),
{
    if n < 10 {
        append_digit(s, 0);
        let ghost prefix = s@;
        append_decimal(s, n);
        assert(prefix + decimal(n as nat) =~= old(s)@ + two_digits(n as nat));
    } else {
        append_decimal(s, n);
    }
}

} // verus!
