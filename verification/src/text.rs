//! Trusted specifications for the pieces of `std`'s string handling
//! that the library uses and `vstd` does not specify.

use vstd::prelude::*;

verus! {

/// Relies on `String::push`: appending one character to the end of the
/// string.
pub assume_specification[ String::push ](s: &mut String, ch: char)
    ensures
        final(s)@ == old(s)@.push(ch),
;

/// The decimal digit character for `d`.
pub open spec fn spec_digit(d: int) -> char {
    if d == 0 {
        '0'
    } else if d == 1 {
        '1'
    } else if d == 2 {
        '2'
    } else if d == 3 {
        '3'
    } else if d == 4 {
        '4'
    } else if d == 5 {
        '5'
    } else if d == 6 {
        '6'
    } else if d == 7 {
        '7'
    } else if d == 8 {
        '8'
    } else {
        '9'
    }
}

/// The decimal spelling of a non-negative number, most significant
/// digit first and without leading zeroes.
pub open spec fn spec_uint_string(n: nat) -> Seq<char>
    decreases n,
{
    if n < 10 {
        seq![spec_digit(n as int)]
    } else {
        spec_uint_string(n / 10).push(spec_digit((n % 10) as int))
    }
}

/// The decimal spelling of an integer.
pub open spec fn spec_int_string(v: int) -> Seq<char> {
    if v < 0 {
        seq!['-'] + spec_uint_string((-v) as nat)
    } else {
        spec_uint_string(v as nat)
    }
}

fn digit_char(d: u64) -> (c: char)
    requires
        d < 10,
    ensures
        c == spec_digit(d as int),
{
    if d == 0 {
        '0'
    } else if d == 1 {
        '1'
    } else if d == 2 {
        '2'
    } else if d == 3 {
        '3'
    } else if d == 4 {
        '4'
    } else if d == 5 {
        '5'
    } else if d == 6 {
        '6'
    } else if d == 7 {
        '7'
    } else if d == 8 {
        '8'
    } else {
        '9'
    }
}

/// Appends the decimal spelling of `m` to `s`.
fn push_uint(s: &mut String, m: u64)
    ensures
        final(s)@ == old(s)@ + spec_uint_string(m as nat),
    decreases m,
{
    if m >= 10 {
        push_uint(s, m / 10);
        s.push(digit_char(m % 10));
        proof {
            assert(s@ =~= old(s)@ + spec_uint_string(m as nat));
        }
    } else {
        s.push(digit_char(m));
        proof {
            assert(s@ =~= old(s)@ + spec_uint_string(m as nat));
        }
    }
}

/// The decimal spelling of `v`, character for character.
pub fn int_to_string(v: i64) -> (s: String)
    ensures
        s@ == spec_int_string(v as int),
{
    let mut s = String::new();
    if v < 0 {
        s.push('-');
        let m: u64 = (-(v as i128)) as u64;
        push_uint(&mut s, m);
        proof {
            assert(s@ =~= spec_int_string(v as int));
        }
    } else {
        push_uint(&mut s, v as u64);
        proof {
            assert(s@ =~= spec_int_string(v as int));
        }
    }
    s
}

} // verus!
