//! Single-bit flag values.

use vstd::prelude::*;
use vstd::arithmetic::power2::{lemma2_to64, lemma_pow2_strictly_increases, pow2};
use vstd::bits::{lemma_u32_pow2_no_overflow, lemma_u32_shl_is_mul};
use crate::error::MetaError;

verus! {

/// Whether `value` is a 32-bit word with exactly one bit set: a power of two
/// below 2^32.
pub open spec fn is_single_bit(value: int) -> bool {
    exists|bit: nat| bit < 32 && value == #[trigger] pow2(bit)
}

/// Clearing the lowest set bit of a word leaves nothing exactly when the word
/// is a power of two.
pub proof fn lemma_single_bit_test(value: u32)
    ensures
        is_single_bit(value as int) <==> (value != 0 && value & ((value - 1) as u32) == 0),
{
    if is_single_bit(value as int) {
        let shift = lemma_single_bit_is_shift(value);
        assert(value != 0 && value & ((value - 1) as u32) == 0) by (bit_vector)
            requires
                shift < 32,
                value == 1u32 << shift,
        ;
    }
    if value != 0 && value & ((value - 1) as u32) == 0 {
        assert(
            value == 0x1 || value == 0x2 || value == 0x4 || value == 0x8
            || value == 0x10 || value == 0x20 || value == 0x40 || value == 0x80
            || value == 0x100 || value == 0x200 || value == 0x400 || value == 0x800
            || value == 0x1000 || value == 0x2000 || value == 0x4000 || value == 0x8000
            || value == 0x10000 || value == 0x20000 || value == 0x40000 || value == 0x80000
            || value == 0x100000 || value == 0x200000 || value == 0x400000 || value == 0x800000
            || value == 0x1000000 || value == 0x2000000 || value == 0x4000000
            || value == 0x8000000 || value == 0x10000000 || value == 0x20000000
            || value == 0x40000000 || value == 0x80000000
        ) by (bit_vector)
            requires
                value != 0,
                value & ((value - 1) as u32) == 0,
        ;
        lemma2_to64();
    }
}

/// The bit that alone is set in a power of two.
pub proof fn lemma_single_bit_is_shift(value: u32) -> (shift: u32)
    requires
        is_single_bit(value as int),
    ensures
        shift < 32,
        value == pow2(shift as nat),
        value == 1u32 << shift,
        forall|bit: u32| bit < 32 ==> (value == pow2(bit as nat) <==> bit == shift),
{
    let place = choose|bit: nat| bit < 32 && value == #[trigger] pow2(bit);
    let shift = place as u32;
    lemma_u32_pow2_no_overflow(place);
    lemma_u32_shl_is_mul(1, shift);
    assert forall|bit: u32| bit < 32 implies (value == pow2(bit as nat) <==> bit == shift) by {
        if bit < shift {
            lemma_pow2_strictly_increases(bit as nat, shift as nat);
        }
        if shift < bit {
            lemma_pow2_strictly_increases(shift as nat, bit as nat);
        }
    }
    shift
}

/// Whether bit `bit` of `word` is set; the lowest bit is bit 0.
pub open spec fn has_bit(word: u32, bit: u32) -> bool {
    (word >> bit) & 1 == 1
}

/// The word with bit `shift` alone has no other bit set.
pub proof fn lemma_bits_of_single_bit(shift: u32, bit: u32)
    by (bit_vector)
    requires
        shift < 32,
        bit < 32,
    ensures
        has_bit(1u32 << shift, bit) <==> bit == shift,
{
}

/// A bit is set in the union of two words exactly when it is set in one of
/// them.
pub proof fn lemma_bits_of_union(first: u32, second: u32, bit: u32)
    by (bit_vector)
    requires
        bit < 32,
    ensures
        has_bit(first | second, bit) <==> has_bit(first, bit) || has_bit(second, bit),
{
}

/// A word sets no bit outside `allowed` exactly when each of its bits is a
/// bit of `allowed`.
pub proof fn lemma_bits_within(word: u32, allowed: u32)
    ensures
        word & !allowed == 0 <==> (forall|bit: u32|
            bit < 32 && #[trigger] has_bit(word, bit) ==> has_bit(allowed, bit)),
{
    if word & !allowed == 0 {
        assert forall|bit: u32| bit < 32 && #[trigger] has_bit(word, bit) implies has_bit(
            allowed,
            bit,
        ) by {
            assert(has_bit(allowed, bit)) by (bit_vector)
                requires
                    word & !allowed == 0,
                    bit < 32,
                    has_bit(word, bit),
            ;
        }
    } else {
        let outside = word & !allowed;
        let bit = lemma_some_bit_is_set(outside);
        assert(has_bit(word, bit) && !has_bit(allowed, bit)) by (bit_vector)
            requires
                outside == word & !allowed,
                bit < 32,
                has_bit(outside, bit),
        ;
    }
}

/// A word that is not 0 has a bit set.
pub proof fn lemma_some_bit_is_set(word: u32) -> (bit: u32)
    requires
        word != 0,
    ensures
        bit < 32,
        has_bit(word, bit),
{
    assert(
            has_bit(word, 0) || has_bit(word, 1) || has_bit(word, 2) || has_bit(word, 3)
            || has_bit(word, 4) || has_bit(word, 5) || has_bit(word, 6) || has_bit(word, 7)
            || has_bit(word, 8) || has_bit(word, 9) || has_bit(word, 10) || has_bit(word, 11)
            || has_bit(word, 12) || has_bit(word, 13) || has_bit(word, 14) || has_bit(word, 15)
            || has_bit(word, 16) || has_bit(word, 17) || has_bit(word, 18) || has_bit(word, 19)
            || has_bit(word, 20) || has_bit(word, 21) || has_bit(word, 22) || has_bit(word, 23)
            || has_bit(word, 24) || has_bit(word, 25) || has_bit(word, 26) || has_bit(word, 27)
            || has_bit(word, 28) || has_bit(word, 29) || has_bit(word, 30) || has_bit(word, 31)
    ) by (bit_vector)
        requires
            word != 0,
    ;
    choose|bit: u32| bit < 32 && has_bit(word, bit)
}

/// Whether exactly one bit of `value` is set.
pub fn has_single_bit(value: u32) -> (single: bool)
    ensures
        single == is_single_bit(value as int),
{
    proof {
        lemma_single_bit_test(value);
    }
    value != 0 && value & (value - 1) == 0
}

/// A flag of a bitmask: a word with exactly one bit set.
///
/// The only way to make one is [`EcsBitmask::new`], which refuses every other
/// word, so a value of this type never needs to be checked again.
#[derive(Clone, Copy, Debug, PartialEq, Eq, Hash)]
pub struct EcsBitmask {
    value: u32,
}

impl View for EcsBitmask {
    type V = u32;

    /// The word that the flag stands for.
    closed spec fn view(&self) -> u32 {
        self.value
    }
}

impl EcsBitmask {
    #[verifier::type_invariant]
    spec fn one_bit_set(self) -> bool {
        is_single_bit(self.value as int)
    }

    /// Makes a flag of `value`, if exactly one of its bits is set.
    pub fn new(value: u32) -> (result: Result<EcsBitmask, MetaError>)
        ensures
            result is Ok <==> is_single_bit(value as int),
            result matches Ok(flag) ==> flag@ == value,
            result matches Err(error) ==> error == MetaError::InvalidConstant,
    {
        if has_single_bit(value) {
            Ok(EcsBitmask { value })
        } else {
            Err(MetaError::InvalidConstant)
        }
    }

    /// The word that the flag stands for.
    pub fn value(&self) -> (value: u32)
        ensures
            value == self@,
            is_single_bit(value as int),
    {
        proof {
            use_type_invariant(self);
        }
        self.value
    }
}

} // verus!
