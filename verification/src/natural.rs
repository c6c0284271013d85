//! Natural numbers of any size, held as limbs: digits in base 2^32, the
//! most significant first. Leading zero limbs are allowed.

use vstd::prelude::*;
use vstd::arithmetic::div_mod::lemma_fundamental_div_mod_converse;
use vstd::arithmetic::power2::{lemma2_to64, lemma_pow2_adds, pow2};
use vstd::bits::{lemma_u64_pow2_no_overflow, lemma_u64_shl_is_mul};

verus! {

/// The base of the limbs: two to the power 32.
pub const BASE: u64 = 0x1_0000_0000;

/// The number that the limbs stand for.
pub open spec fn value(limbs: Seq<u32>) -> nat
    decreases limbs.len(),
{
    if limbs.len() == 0 {
        0
    } else {
        value(limbs.drop_last()) * (BASE as nat) + limbs.last() as nat
    }
}

/// One more limb at the end multiplies by the base and adds the limb.
proof fn lemma_value_push(limbs: Seq<u32>, limb: u32)
    ensures
        value(limbs.push(limb)) == value(limbs) * BASE + limb,
{
    assert(limbs.push(limb).drop_last() =~= limbs);
}

/// The limbs stand for zero exactly when each of them is zero.
proof fn lemma_value_zero(limbs: Seq<u32>)
    ensures
        value(limbs) == 0 <==> forall|i: int| 0 <= i < limbs.len() ==> limbs[i] == 0,
    decreases limbs.len(),
{
    if limbs.len() > 0 {
        let front = limbs.drop_last();
        lemma_value_zero(front);
        assert(value(front) * BASE >= value(front)) by (nonlinear_arith);
        if value(limbs) == 0 {
            assert forall|i: int| 0 <= i < limbs.len() implies limbs[i] == 0 by {
                if i < front.len() {
                    assert(front[i] == limbs[i]);
                }
            }
        } else if forall|i: int| 0 <= i < limbs.len() ==> limbs[i] == 0 {
            assert forall|i: int| 0 <= i < front.len() implies front[i] == 0 by {
                assert(front[i] == limbs[i]);
            }
        }
    }
}

/// The limbs of `m` times two to the power `shift`.
pub fn shifted(m: u64, shift: u64) -> (limbs: Vec<u32>)
    ensures
        value(limbs@) == m * pow2(shift as nat),
{
    let bits = shift % 32;
    let zeros = shift / 32;
    proof {
        lemma_u64_pow2_no_overflow(bits as nat);
        lemma_u64_shl_is_mul(1, bits);
        lemma2_to64();
        if bits < 31 {
            vstd::arithmetic::power2::lemma_pow2_strictly_increases(bits as nat, 31);
        }
    }
    let scale: u64 = 1u64 << bits;
    assert(m * scale < 0x1_0000_0000_0000_0000_0000_0000) by (nonlinear_arith)
        requires
            m < 0x1_0000_0000_0000_0000,
            scale <= 0x8000_0000,
    ;
    let product: u128 = (m as u128) * (scale as u128);
    let rest: u128 = product / (BASE as u128);
    let mut limbs: Vec<u32> = Vec::new();
    limbs.push((rest / (BASE as u128)) as u32);
    limbs.push((rest % (BASE as u128)) as u32);
    limbs.push((product % (BASE as u128)) as u32);
    proof {
        let a = (rest / (BASE as u128)) as u32;
        let b = (rest % (BASE as u128)) as u32;
        let c = (product % (BASE as u128)) as u32;
        let none = Seq::<u32>::empty();
        lemma_value_push(none, a);
        lemma_value_push(none.push(a), b);
        lemma_value_push(none.push(a).push(b), c);
        assert(limbs@ =~= none.push(a).push(b).push(c));
        assert(value(limbs@) == product);
    }
    let mut done: u64 = 0;
    while done < zeros
        invariant
            done <= zeros,
            shift == 32 * zeros + bits,
            value(limbs@) == m * pow2((bits + 32 * done) as nat),
        decreases zeros - done,
    {
        proof {
            let before = pow2((bits + 32 * done) as nat);
            lemma_value_push(limbs@, 0);
            lemma_pow2_adds((bits + 32 * done) as nat, 32);
            lemma2_to64();
            assert((m * before) * 0x1_0000_0000 == m * (before * 0x1_0000_0000))
                by (nonlinear_arith);
        }
        limbs.push(0);
        done = done + 1;
    }
    limbs
}

/// Whether the limbs stand for zero.
pub fn is_zero(limbs: &Vec<u32>) -> (r: bool)
    ensures
        r == (value(limbs@) == 0),
{
    proof {
        lemma_value_zero(limbs@);
    }
    let mut i: usize = 0;
    while i < limbs.len()
        invariant
            i <= limbs.len(),
            forall|j: int| 0 <= j < i ==> limbs[j] == 0,
            value(limbs@) == 0 <==> forall|j: int| 0 <= j < limbs.len() ==> limbs[j] == 0,
        decreases limbs.len() - i,
    {
        if limbs[i] != 0 {
            return false;
        }
        i = i + 1;
    }
    true
}

/// Divides the number of the limbs by ten, in place, and returns the
/// remainder. The number of limbs stays.
pub fn divide_by_ten(limbs: &mut Vec<u32>) -> (remainder: u8)
    ensures
        value(final(limbs)@) == value(old(limbs)@) / 10,
        remainder == value(old(limbs)@) % 10,
        final(limbs)@.len() == old(limbs)@.len(),
{
    let ghost before = limbs@;
    let mut carry: u64 = 0;
    let mut i: usize = 0;
    while i < limbs.len()
        invariant
            i <= limbs.len(),
            limbs.len() == before.len(),
            carry < 10,
            value(before.take(i as int)) == value(limbs@.take(i as int)) * 10 + carry,
            forall|j: int| i <= j < limbs.len() ==> limbs[j] == before[j],
        decreases limbs.len() - i,
    {
        let part: u64 = carry * BASE + limbs[i] as u64;
        let quotient: u32 = (part / 10) as u32;
        proof {
            let front = value(limbs@.take(i as int));
            assert(before.take(i + 1).drop_last() =~= before.take(i as int));
            assert(limbs@.update(i as int, quotient).take(i + 1).drop_last() =~= limbs@.take(
                i as int,
            ));
            assert((front * 10 + carry) * BASE + limbs[i as int] == (front * BASE + part / 10) * 10
                + part % 10) by (nonlinear_arith)
                requires
                    part == carry * BASE + limbs[i as int],
            ;
        }
        limbs.set(i, quotient);
        carry = part % 10;
        i = i + 1;
    }
    proof {
        assert(before.take(i as int) =~= before);
        assert(limbs@.take(i as int) =~= limbs@);
        lemma_fundamental_div_mod_converse(
            value(before) as int,
            10,
            value(limbs@) as int,
            carry as int,
        );
    }
    carry as u8
}

} // verus!
