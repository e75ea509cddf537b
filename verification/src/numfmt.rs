//! Decimal rendering of unsigned integers, with fixed-width zero padding on
//! the left. Used for timestamps and for the sequentially numbered output
//! filenames.

use vstd::prelude::*;

verus! {

/// Relies on std's `String::push`: appends the given `char` to the end of
/// this `String`.
pub assume_specification[ String::push ](s: &mut String, ch: char)
    ensures
        final(s)@ == old(s)@.push(ch),
;

/// The decimal digit character for a value in 0..=9.
pub open spec fn spec_digit_char(d: int) -> char {
    if d == 0 {
        '0'
    } else if d == 1 {
        '1'
    } else if d == 2 {
        '2'
    } else if d == 3 {
        '3'
    } else if d == 4 {
        '4'
    } else if d == 5 {
        '5'
    } else if d == 6 {
        '6'
    } else if d == 7 {
        '7'
    } else if d == 8 {
        '8'
    } else {
        '9'
    }
}

/// Decimal digits of `n`, most significant first, without leading zeros
/// (a single zero for `n == 0`).
pub open spec fn spec_digits(n: int) -> Seq<char>
    decreases n,
{
    if n < 10 {
        seq![spec_digit_char(n)]
    } else {
        spec_digits(n / 10).push(spec_digit_char(n % 10))
    }
}

/// `n` rendered with at least two digits, zero padded.
pub open spec fn spec_pad2(n: int) -> Seq<char> {
    if n < 10 {
        seq!['0'] + spec_digits(n)
    } else {
        spec_digits(n)
    }
}

/// `n` rendered with at least three digits, zero padded.
pub open spec fn spec_pad3(n: int) -> Seq<char> {
    if n < 10 {
        seq!['0', '0'] + spec_digits(n)
    } else if n < 100 {
        seq!['0'] + spec_digits(n)
    } else {
        spec_digits(n)
    }
}

/// `n` rendered with at least four digits, zero padded.
pub open spec fn spec_pad4(n: int) -> Seq<char> {
    if n < 10 {
        seq!['0', '0', '0'] + spec_digits(n)
    } else if n < 100 {
        seq!['0', '0'] + spec_digits(n)
    } else if n < 1000 {
        seq!['0'] + spec_digits(n)
    } else {
        spec_digits(n)
    }
}

fn digit_char(d: u64) -> (c: char)
    requires
        d < 10,
    ensures
        c == spec_digit_char(d as int),
{
    match d {
        0 => '0',
        1 => '1',
        2 => '2',
        3 => '3',
        4 => '4',
        5 => '5',
        6 => '6',
        7 => '7',
        8 => '8',
        _ => '9',
    }
}

/// Append the decimal digits of `n` to `s`.
pub fn push_digits(s: &mut String, n: u64)
    ensures
        final(s)@ == old(s)@ + spec_digits(n as int),
    decreases n,
{
    if n < 10 {
        s.push(digit_char(n));
        proof {
            assert(s@ =~= old(s)@ + spec_digits(n as int));
        }
    } else {
        push_digits(s, n / 10);
        s.push(digit_char(n % 10));
        proof {
            assert(s@ =~= old(s)@ + spec_digits(n as int));
        }
    }
}

/// `n` rendered as a decimal string.
pub fn u64_to_string(n: u64) -> (s: String)
    ensures
        s@ == spec_digits(n as int),
{
    let mut s = String::new();
    push_digits(&mut s, n);
    proof {
        assert(s@ =~= spec_digits(n as int));
    }
    s
}

/// Append `n` to `s`, zero padded to at least two digits.
pub fn push_padded2(s: &mut String, n: u64)
    ensures
        final(s)@ == old(s)@ + spec_pad2(n as int),
{
    if n < 10 {
        s.push('0');
    }
    push_digits(s, n);
    proof {
        assert(s@ =~= old(s)@ + spec_pad2(n as int));
    }
}

/// Append `n` to `s`, zero padded to at least three digits.
pub fn push_padded3(s: &mut String, n: u64)
    ensures
        final(s)@ == old(s)@ + spec_pad3(n as int),
{
    if n < 10 {
        s.push('0');
        s.push('0');
    } else if n < 100 {
        s.push('0');
    }
    push_digits(s, n);
    proof {
        assert(s@ =~= old(s)@ + spec_pad3(n as int));
    }
}

/// Append `n` to `s`, zero padded to at least four digits.
pub fn push_padded4(s: &mut String, n: u64)
    ensures
        final(s)@ == old(s)@ + spec_pad4(n as int),
{
    if n < 10 {
        s.push('0');
        s.push('0');
        s.push('0');
    } else if n < 100 {
        s.push('0');
        s.push('0');
    } else if n < 1000 {
        s.push('0');
    }
    push_digits(s, n);
    proof {
        assert(s@ =~= old(s)@ + spec_pad4(n as int));
    }
}

} // verus!
