//! Building the textual rendering of an error: string concatenation and the
//! octal form of a permission mode.

use vstd::prelude::*;

verus! {

/// Relies on String::push: appends the given char to the end of the string.
pub assume_specification[ String::push ](s: &mut String, c: char)
    ensures
        final(s)@ == old(s)@.push(c),
;

/// Relies on String::push_str: appends the given string slice to the end of
/// the string.
pub assume_specification[ String::push_str ](s: &mut String, other: &str)
    ensures
        final(s)@ == old(s)@ + other@,
;

/// The character of a single octal digit.
pub open spec fn octal_digit_char(d: nat) -> char {
    if d == 0 {
        '0'
    } else if d == 1 {
        '1'
    } else if d == 2 {
        '2'
    } else if d == 3 {
        '3'
    } else if d == 4 {
        '4'
    } else if d == 5 {
        '5'
    } else if d == 6 {
        '6'
    } else {
        '7'
    }
}

/// The octal digits of a number, most significant first, without leading
/// zeros; zero itself is a single digit.
pub open spec fn octal_digits(n: nat) -> Seq<char>
    decreases n,
{
    if n < 8 {
        seq![octal_digit_char(n)]
    } else {
        octal_digits(n / 8).push(octal_digit_char(n % 8))
    }
}

/// Turn one octal digit into its character.
fn octal_char(d: u32) -> (c: char)
    requires
        d < 8,
    ensures
        c == octal_digit_char(d as nat),
{
    if d == 0 {
        '0'
    } else if d == 1 {
        '1'
    } else if d == 2 {
        '2'
    } else if d == 3 {
        '3'
    } else if d == 4 {
        '4'
    } else if d == 5 {
        '5'
    } else if d == 6 {
        '6'
    } else {
        '7'
    }
}

/// Append the octal form of a number to a string.
pub fn push_octal(s: &mut String, n: u32)
    ensures
        final(s)@ == old(s)@ + octal_digits(n as nat),
    decreases n,
{
    if n < 8 {
        s.push(octal_char(n));
        assert(s@ =~= old(s)@ + octal_digits(n as nat));
    } else {
        push_octal(s, n / 8);
        s.push(octal_char(n % 8));
        assert(s@ =~= old(s)@ + octal_digits(n as nat));
    }
}

} // verus!
