//! Decimal digits and the positional arithmetic that merges them.

use vstd::prelude::*;

verus! {

/// The decimal digits `0` to `9`.
pub open spec fn is_digit(c: char) -> bool {
    '0' <= c && c <= '9'
}

/// The number a decimal digit stands for.
pub open spec fn digit_value(c: char) -> int
    recommends
        is_digit(c),
{
    c as int - '0' as int
}

/// The base-10 reading of a run of digits, most significant digit first.
/// The empty run reads as zero.
pub open spec fn decimal_value(digits: Seq<char>) -> int
    decreases digits.len(),
{
    if digits.len() == 0 {
        0
    } else {
        decimal_value(digits.drop_last()) * 10 + digit_value(digits.last())
    }
}

/// The 64-bit two's complement integer congruent to `x` modulo 2^64: what
/// unchecked 64-bit arithmetic keeps of an exact result.
pub open spec fn wrap(x: int) -> i64 {
    let low = x % 0x1_0000_0000_0000_0000;
    if low > i64::MAX {
        (low - 0x1_0000_0000_0000_0000) as i64
    } else {
        low as i64
    }
}

/// The value held after a digit is merged into `value`: one positional
/// shift and the digit, with no overflow check.
pub open spec fn merged(value: i64, c: char) -> i64
    recommends
        is_digit(c),
{
    wrap(value * 10 + digit_value(c))
}

/// Computes the number a decimal digit stands for.
pub fn digit_of(c: char) -> (digit: i64)
    requires
        is_digit(c),
    ensures
        digit == digit_value(c),
{
    (c as u32 - '0' as u32) as i64
}

/// Merges one digit into an integer under construction.
pub fn merge_digit(value: i64, c: char) -> (next: i64)
    requires
        is_digit(c),
    ensures
        next == merged(value, c),
{
    value.wrapping_mul(10).wrapping_add(digit_of(c))
}

/// A value that fits in 64 bits is kept as it is.
pub proof fn lemma_wrap_in_range(x: int)
    requires
        i64::MIN <= x <= i64::MAX,
    ensures
        wrap(x) == x,
{
}

/// Wrapping an intermediate value does not change what a later merge keeps.
pub proof fn lemma_wrap_merge(x: int, d: int)
    ensures
        wrap(wrap(x) * 10 + d) == wrap(x * 10 + d),
{
}

} // verus!
