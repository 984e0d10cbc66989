//! Human-readable sizes and ages.

use vstd::prelude::*;
use crate::text::{push_str_chars, string_of};

verus! {

/// The decimal digit for `d` (below 10).
pub open spec fn digit(d: nat) -> char {
    (('0' as nat) + d) as char
}

/// The decimal digits of `n`, most significant first, without leading zeros.
pub open spec fn dec(n: nat) -> Seq<char>
    decreases n,
{
    if n < 10 {
        seq![digit(n)]
    } else {
        dec(n / 10).push(digit(n % 10))
    }
}

/// The decimal form of an integer, with a leading `-` when negative.
pub open spec fn dec_int(x: int) -> Seq<char> {
    if x < 0 {
        seq!['-'] + dec((-x) as nat)
    } else {
        dec(x as nat)
    }
}

fn digit_char(d: u8) -> (r: char)
    requires
        d < 10,
    ensures
        r == digit(d as nat),
{
    (48u8 + d) as char
}

/// Appends the decimal digits of `n`.
fn push_decimal(v: &mut Vec<char>, n: u128)
    ensures
        final(v)@ == old(v)@ + dec(n as nat),
    decreases n,
{
    if n >= 10 {
        push_decimal(v, n / 10);
    }
    v.push(digit_char((n % 10) as u8));
    assert(final(v)@ =~= old(v)@ + dec(n as nat));
}

/// `x * 10 / unit` rounded to the nearest integer, ties to even: one decimal place.
pub open spec fn tenths(x: nat, unit: nat) -> nat
    recommends
        unit > 0,
{
    let q = x * 10 / unit;
    let rem = x * 10 % unit;
    if rem * 2 > unit || (rem * 2 == unit && q % 2 == 1) {
        q + 1
    } else {
        q
    }
}

/// `x / unit` with one decimal, then the unit's name.
pub open spec fn scaled(x: nat, unit: nat, name: Seq<char>) -> Seq<char> {
    let t = tenths(x, unit);
    dec(t / 10) + seq!['.'] + dec(t % 10) + seq![' '] + name
}

/// The text form of a byte count: in GB, MB or KB with one decimal once it reaches that
/// unit (of 1024), else in bytes.
pub open spec fn bytes_text(b: nat) -> Seq<char> {
    if b >= 1073741824 {
        scaled(b, 1073741824, "GB"@)
    } else if b >= 1048576 {
        scaled(b, 1048576, "MB"@)
    } else if b >= 1024 {
        scaled(b, 1024, "KB"@)
    } else {
        dec(b) + " B"@
    }
}

fn push_scaled(v: &mut Vec<char>, x: u64, unit: u64, name: &str)
    requires
        unit > 0,
    ensures
        final(v)@ == old(v)@ + scaled(x as nat, unit as nat, name@),
{
    let xx: u128 = x as u128 * 10;
    let u: u128 = unit as u128;
    let q = xx / u;
    let rem = xx % u;
    let t = if rem * 2 > u || (rem * 2 == u && q % 2 == 1) {
        q + 1
    } else {
        q
    };
    assert(t == tenths(x as nat, unit as nat));
    push_decimal(v, t / 10);
    v.push('.');
    push_decimal(v, t % 10);
    v.push(' ');
    push_str_chars(v, name);
    assert(final(v)@ =~= old(v)@ + scaled(x as nat, unit as nat, name@));
}

/// A byte count for display, such as `512 B` or `1.5 KB`.
pub fn format_bytes(bytes: u64) -> (r: String)
    ensures
        r@ == bytes_text(bytes as nat),
{
    let mut v: Vec<char> = Vec::new();
    if bytes >= 1073741824 {
        push_scaled(&mut v, bytes, 1073741824, "GB");
    } else if bytes >= 1048576 {
        push_scaled(&mut v, bytes, 1048576, "MB");
    } else if bytes >= 1024 {
        push_scaled(&mut v, bytes, 1024, "KB");
    } else {
        push_decimal(&mut v, bytes as u128);
        push_str_chars(&mut v, " B");
    }
    string_of(&v)
}

/// The age of something last seen `elapsed` seconds ago: seconds below a minute, then
/// whole minutes, hours, or days.
pub open spec fn age_text(elapsed: int) -> Seq<char> {
    if elapsed < 60 {
        dec_int(elapsed) + "s ago"@
    } else if elapsed < 3600 {
        dec((elapsed / 60) as nat) + "m ago"@
    } else if elapsed < 86400 {
        dec((elapsed / 3600) as nat) + "h ago"@
    } else {
        dec((elapsed / 86400) as nat) + "d ago"@
    }
}

/// How long ago `timestamp` was at time `now`, both in Unix seconds, for display.
pub fn format_time(timestamp: i64, now: i64) -> (r: String)
    ensures
        r@ == age_text(now - timestamp),
{
    let elapsed: i128 = (now as i128) - (timestamp as i128);
    let mut v: Vec<char> = Vec::new();
    if elapsed < 60 {
        if elapsed < 0 {
            v.push('-');
            push_decimal(&mut v, (-elapsed) as u128);
            assert(v@ =~= seq!['-'] + dec((-elapsed) as nat));
        } else {
            push_decimal(&mut v, elapsed as u128);
        }
        push_str_chars(&mut v, "s ago");
    } else if elapsed < 3600 {
        push_decimal(&mut v, (elapsed / 60) as u128);
        push_str_chars(&mut v, "m ago");
    } else if elapsed < 86400 {
        push_decimal(&mut v, (elapsed / 3600) as u128);
        push_str_chars(&mut v, "h ago");
    } else {
        push_decimal(&mut v, (elapsed / 86400) as u128);
        push_str_chars(&mut v, "d ago");
    }
    string_of(&v)
}

} // verus!
