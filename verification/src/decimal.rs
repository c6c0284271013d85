//! Integers as base-10 ASCII text.

use vstd::prelude::*;
use crate::natural::{divide_by_ten, is_zero, value};

verus! {

/// The ASCII minus sign.
pub const MINUS: u8 = 45;

/// The ASCII digit zero; the other nine follow it in order.
pub const ZERO: u8 = 48;

/// The base-10 digits of `n` as ASCII bytes, the most significant first.
/// There are no leading zeros: zero itself is the single digit `0`.
pub open spec fn digits(n: nat) -> Seq<u8>
    decreases n,
{
    if n < 10 {
        seq![(ZERO + n) as u8]
    } else {
        digits(n / 10).push((ZERO + n % 10) as u8)
    }
}

/// The text of `n` in base 10: a minus sign if `n` is negative, then the
/// digits of its magnitude.
pub open spec fn decimal(n: int) -> Seq<u8> {
    if n < 0 {
        seq![MINUS] + digits((-n) as nat)
    } else {
        digits(n as nat)
    }
}

/// The digits of `n` that are still to be written in front of those
/// already taken from its end: none once nothing is left of `n`.
spec fn digits_left(n: nat) -> Seq<u8> {
    if n == 0 {
        Seq::empty()
    } else {
        digits(n)
    }
}

/// Appends the digits of `n` to `out`.
pub fn push_digits(out: &mut Vec<u8>, n: u64)
    ensures
        final(out)@ == old(out)@ + digits(n as nat),
    decreases n,
{
    if n >= 10 {
        push_digits(out, n / 10);
    }
    out.push(ZERO + (n % 10) as u8);
    assert(out@ =~= old(out)@ + digits(n as nat));
}

/// Appends to `out` the digits of the number that `limbs` stand for,
/// whatever its size.
pub fn push_digits_of_limbs(out: &mut Vec<u8>, limbs: Vec<u32>)
    ensures
        final(out)@ == old(out)@ + digits(value(limbs@)),
{
    let ghost n = value(limbs@);
    let mut rest = limbs;
    // The digits come out of the division last digit first.
    let mut taken: Vec<u8> = Vec::new();
    let last = divide_by_ten(&mut rest);
    taken.push(ZERO + last);
    assert(digits(n) =~= digits_left(value(rest@)) + taken@.reverse());
    while !is_zero(&rest)
        invariant
            digits(n) == digits_left(value(rest@)) + taken@.reverse(),
        decreases value(rest@),
    {
        let ghost left = value(rest@);
        let ghost before = taken@;
        let digit = divide_by_ten(&mut rest);
        taken.push(ZERO + digit);
        assert(taken@.reverse() =~= seq![(ZERO + digit) as u8] + before.reverse());
        assert(digits(left) =~= digits_left(value(rest@)) + seq![(ZERO + digit) as u8]);
        assert(digits(n) =~= digits_left(value(rest@)) + taken@.reverse());
    }
    let ghost all = taken@;
    while taken.len() > 0
        invariant
            out@ + taken@.reverse() == old(out)@ + all.reverse(),
        decreases taken.len(),
    {
        let ghost before = taken@;
        let ghost written = out@;
        let digit = taken.pop().unwrap();
        out.push(digit);
        assert(before.reverse() =~= seq![digit] + taken@.reverse());
        assert(out@ + taken@.reverse() =~= written + before.reverse());
    }
    assert(out@ =~= old(out)@ + digits(n));
}

} // verus!
