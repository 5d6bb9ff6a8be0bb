//! Building strings: appending a character, and integers in decimal.

use vstd::prelude::*;
use crate::semantics::{decimal, decimal_nat, digit_char};

verus! {

/// `String::push` of std appends the given character to the end of the
/// string and changes nothing else: the characters after the call are those
/// before it, followed by `c`.
pub assume_specification[ String::push ](s: &mut String, c: char)
    ensures
        final(s)@ == old(s)@.push(c),
;

/// The character of a decimal digit.
fn digit(d: u32) -> (c: char)
    requires
        d < 10,
    ensures
        c == digit_char(d as int),
{
    if d == 0 {
        '0'
    } else if d == 1 {
        '1'
    } else if d == 2 {
        '2'
    } else if d == 3 {
        '3'
    } else if d == 4 {
        '4'
    } else if d == 5 {
        '5'
    } else if d == 6 {
        '6'
    } else if d == 7 {
        '7'
    } else if d == 8 {
        '8'
    } else {
        '9'
    }
}

/// Appends `n` in decimal to `out`.
fn push_decimal_nat(out: &mut String, n: u32)
    ensures
        final(out)@ == old(out)@ + decimal_nat(n as nat),
    decreases n,
{
    if n < 10 {
        out.push(digit(n));
        assert(out@ =~= old(out)@ + decimal_nat(n as nat));
    } else {
        push_decimal_nat(out, n / 10);
        out.push(digit(n % 10));
        assert(out@ =~= old(out)@ + decimal_nat(n as nat));
    }
}

/// Appends `i` in decimal to `out`, with `-` before a negative one.
pub fn push_decimal(out: &mut String, i: i32)
    ensures
        final(out)@ == old(out)@ + decimal(i as int),
{
    if i < 0 {
        out.push('-');
        let magnitude: u32 = if i == i32::MIN {
            0x8000_0000u32
        } else {
            (-i) as u32
        };
        push_decimal_nat(out, magnitude);
        assert(out@ =~= old(out)@ + decimal(i as int));
    } else {
        push_decimal_nat(out, i as u32);
    }
}

/// Appends the characters of `text` to `out`.
pub fn push_text(out: &mut String, text: &String)
    ensures
        final(out)@ == old(out)@ + text@,
{
    vstd::string::StringExecFns::append(out, text.as_str());
}

} // verus!
