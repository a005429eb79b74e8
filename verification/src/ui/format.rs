//! Text forms of whole-number quantities shown in the interface.
use vstd::prelude::*;

use crate::text::{push_char, push_str};

verus! {

/// The decimal digits of `n`, most significant first, without leading zeros.
pub open spec fn decimal(n: nat) -> Seq<char>
    decreases n,
{
    if n < 10 {
        seq![digit_char(n)]
    } else {
        decimal(n / 10) + seq![digit_char(n % 10)]
    }
}

/// The ASCII digit for `d` (below ten).
pub open spec fn digit_char(d: nat) -> char {
    ((d + '0' as nat) as u32) as char
}

fn digit(d: u64) -> (r: char)
    requires
        d < 10,
    ensures
        r == digit_char(d as nat),
{
    if d == 0 {
        '0'
    } else if d == 1 {
        '1'
    } else if d == 2 {
        '2'
    } else if d == 3 {
        '3'
    } else if d == 4 {
        '4'
    } else if d == 5 {
        '5'
    } else if d == 6 {
        '6'
    } else if d == 7 {
        '7'
    } else if d == 8 {
        '8'
    } else {
        '9'
    }
}

/// Appends the decimal digits of `n`.
fn push_decimal(s: &mut String, n: u64)
    ensures
        final(s)@ == old(s)@ + decimal(n as nat),
    decreases n,
{
    if n < 10 {
        push_char(s, digit(n));
        assert(decimal(n as nat) == seq![digit_char(n as nat)]);
    } else {
        push_decimal(s, n / 10);
        push_char(s, digit(n % 10));
        assert(old(s)@ + decimal((n / 10) as nat) + seq![digit_char((n % 10) as nat)] =~= old(s)@ + decimal(
            n as nat,
        ));
    }
}

/// The uptime as days and hours once it reaches a day, else as hours and minutes.
pub open spec fn uptime_text(seconds: nat) -> Seq<char> {
    let days = seconds / 86_400;
    let hours = seconds % 86_400 / 3_600;
    let minutes = seconds % 3_600 / 60;
    if days > 0 {
        decimal(days) + "d "@ + decimal(hours) + "h"@
    } else {
        decimal(hours) + "h "@ + decimal(minutes) + "m"@
    }
}

pub fn uptime(seconds: u64) -> (r: String)
    ensures
        r@ == uptime_text(seconds as nat),
{
    let days = seconds / 86_400;
    let hours = seconds % 86_400 / 3_600;
    let minutes = seconds % 3_600 / 60;
    let mut text = String::new();
    if days > 0 {
        push_decimal(&mut text, days);
        push_str(&mut text, "d ");
        push_decimal(&mut text, hours);
        push_str(&mut text, "h");
    } else {
        push_decimal(&mut text, hours);
        push_str(&mut text, "h ");
        push_decimal(&mut text, minutes);
        push_str(&mut text, "m");
    }
    assert(text@ =~= uptime_text(seconds as nat));
    text
}

} // verus!
