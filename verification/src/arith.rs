//! Arithmetic on `d64`: the operators and the computational methods. Each
//! runs the decNumber operation in a default decimal64 context (see
//! `bindings`).
use vstd::prelude::*;
use crate::dec64::{d64, DecimalOperand};
use crate::encoding::{scaled, finite_value, decode, integer_amount, pow10, lemma_pow10_values, lemma_pow10_add, lemma_pow10_monotonic, abs_value, minus_value, shifted, numeric_order, QNAN_BITS, quiet, integer_value, total_order, is_canonical_enc, Decoded, ZERO_BITS, ALL_ONES_BITS, logical_enc};
use crate::bindings::{min_exponent, sum_exact, product_exact, quotient_exact, remainder_exact, fma_exact, next_up, next_down, no_trailing_zeros, infinite_sum, quantize_result, shift_result, rotate_result, scaleb_result, next_toward_result, dec_abs, dec_fma, dec_logb, dec_max, dec_min, dec_next_plus, dec_next_minus, dec_pow, dec_exp, dec_ln, dec_log10, dec_next_toward, dec_quantize, dec_reduce, dec_rotate, dec_scaleb, dec_canonical, chooses, propagates_nans, abs_bits, fma_bits, logb_bits, max_bits, min_bits, next_plus_bits, next_minus_bits, pow_bits, exp_bits, ln_bits, log10_bits, next_toward_bits, quantize_bits, reduce_bits, rotate_bits, scaleb_bits, canonical_bits, dec_add, dec_sub, dec_mul, dec_div, dec_rem, dec_minus, dec_shift, dec_from_u32, logical_and, logical_or, logical_xor, logical_invert, add_bits, sub_bits, mul_bits, div_bits, rem_bits, and_bits, or_bits, xor_bits, invert_bits, minus_bits, shift_bits, from_u32_bits};
use crate::status::Flags;
use std::ops::{Add, AddAssign, BitAnd, BitAndAssign, BitOr, BitOrAssign, BitXor, BitXorAssign, Div, DivAssign, Mul, MulAssign, Neg, Not, Rem, RemAssign, Shl, ShlAssign, Shr, ShrAssign, Sub, SubAssign};

verus! {

broadcast use {d64::lemma_raw_of_from_raw, d64::lemma_from_raw_of_raw};

impl vstd::std_specs::ops::AddSpecImpl<d64> for d64 {
    open spec fn obeys_add_spec() -> bool {
        true
    }

    open spec fn add_req(self, rhs: d64) -> bool {
        true
    }

    open spec fn add_spec(self, rhs: d64) -> d64 {
        d64::from_raw_spec(dec_add(self.raw(), rhs.raw()))
    }
}

/// Adds two d64s (decDoubleAdd).
impl Add<d64> for d64 {
    type Output = d64;

    fn add(self, rhs: d64) -> (r: d64)
        ensures
            sum_exact(self.value(), rhs.value(), r.value()),
            propagates_nans(self.raw(), rhs.raw(), r.raw()),
            infinite_sum(self.value(), rhs.value(), r.raw()),
    {
        d64::from_bits(add_bits(self.bits(), rhs.bits()).0)
    }
}

impl<'a> vstd::std_specs::ops::AddSpecImpl<d64> for &'a d64 {
    open spec fn obeys_add_spec() -> bool {
        true
    }

    open spec fn add_req(self, rhs: d64) -> bool {
        true
    }

    open spec fn add_spec(self, rhs: d64) -> d64 {
        d64::from_raw_spec(dec_add(self.raw(), rhs.raw()))
    }
}

/// Adds two d64s (decDoubleAdd).
impl<'a> Add<d64> for &'a d64 {
    type Output = d64;

    fn add(self, rhs: d64) -> (r: d64)
        ensures
            sum_exact(self.value(), rhs.value(), r.value()),
            propagates_nans(self.raw(), rhs.raw(), r.raw()),
            infinite_sum(self.value(), rhs.value(), r.raw()),
    {
        d64::from_bits(add_bits(self.bits(), rhs.bits()).0)
    }
}

impl<'a> vstd::std_specs::ops::AddSpecImpl<&'a d64> for d64 {
    open spec fn obeys_add_spec() -> bool {
        true
    }

    open spec fn add_req(self, rhs: &'a d64) -> bool {
        true
    }

    open spec fn add_spec(self, rhs: &'a d64) -> d64 {
        d64::from_raw_spec(dec_add(self.raw(), rhs.raw()))
    }
}

/// Adds two d64s (decDoubleAdd).
impl<'a> Add<&'a d64> for d64 {
    type Output = d64;

    fn add(self, rhs: &'a d64) -> (r: d64)
        ensures
            sum_exact(self.value(), rhs.value(), r.value()),
            propagates_nans(self.raw(), rhs.raw(), r.raw()),
            infinite_sum(self.value(), rhs.value(), r.raw()),
    {
        d64::from_bits(add_bits(self.bits(), rhs.bits()).0)
    }
}

impl<'a, 'b> vstd::std_specs::ops::AddSpecImpl<&'a d64> for &'b d64 {
    open spec fn obeys_add_spec() -> bool {
        true
    }

    open spec fn add_req(self, rhs: &'a d64) -> bool {
        true
    }

    open spec fn add_spec(self, rhs: &'a d64) -> d64 {
        d64::from_raw_spec(dec_add(self.raw(), rhs.raw()))
    }
}

/// Adds two d64s (decDoubleAdd).
impl<'a, 'b> Add<&'a d64> for &'b d64 {
    type Output = d64;

    fn add(self, rhs: &'a d64) -> (r: d64)
        ensures
            sum_exact(self.value(), rhs.value(), r.value()),
            propagates_nans(self.raw(), rhs.raw(), r.raw()),
            infinite_sum(self.value(), rhs.value(), r.raw()),
    {
        d64::from_bits(add_bits(self.bits(), rhs.bits()).0)
    }
}

/// Adds two d64s (decDoubleAdd).
impl AddAssign<d64> for d64 {
    fn add_assign(&mut self, rhs: d64)
        ensures
            final(self).raw() == dec_add(old(self).raw(), rhs.raw()),
            sum_exact(old(self).value(), rhs.value(), final(self).value()),
            propagates_nans(old(self).raw(), rhs.raw(), final(self).raw()),
            infinite_sum(old(self).value(), rhs.value(), final(self).raw()),
    {
        *self = d64::from_bits(add_bits(self.bits(), rhs.bits()).0);
    }
}

impl vstd::std_specs::ops::SubSpecImpl<d64> for d64 {
    open spec fn obeys_sub_spec() -> bool {
        true
    }

    open spec fn sub_req(self, rhs: d64) -> bool {
        true
    }

    open spec fn sub_spec(self, rhs: d64) -> d64 {
        d64::from_raw_spec(dec_sub(self.raw(), rhs.raw()))
    }
}

/// Subtracts a d64 (decDoubleSubtract).
impl Sub<d64> for d64 {
    type Output = d64;

    fn sub(self, rhs: d64) -> (r: d64)
        ensures
            sum_exact(self.value(), rhs.value().with_sign(!rhs.value().negative()), r.value()),
            propagates_nans(self.raw(), rhs.raw(), r.raw()),
            infinite_sum(self.value(), rhs.value().with_sign(!rhs.value().negative()), r.raw()),
    {
        d64::from_bits(sub_bits(self.bits(), rhs.bits()).0)
    }
}

impl<'a> vstd::std_specs::ops::SubSpecImpl<d64> for &'a d64 {
    open spec fn obeys_sub_spec() -> bool {
        true
    }

    open spec fn sub_req(self, rhs: d64) -> bool {
        true
    }

    open spec fn sub_spec(self, rhs: d64) -> d64 {
        d64::from_raw_spec(dec_sub(self.raw(), rhs.raw()))
    }
}

/// Subtracts a d64 (decDoubleSubtract).
impl<'a> Sub<d64> for &'a d64 {
    type Output = d64;

    fn sub(self, rhs: d64) -> (r: d64)
        ensures
            sum_exact(self.value(), rhs.value().with_sign(!rhs.value().negative()), r.value()),
            propagates_nans(self.raw(), rhs.raw(), r.raw()),
            infinite_sum(self.value(), rhs.value().with_sign(!rhs.value().negative()), r.raw()),
    {
        d64::from_bits(sub_bits(self.bits(), rhs.bits()).0)
    }
}

impl<'a> vstd::std_specs::ops::SubSpecImpl<&'a d64> for d64 {
    open spec fn obeys_sub_spec() -> bool {
        true
    }

    open spec fn sub_req(self, rhs: &'a d64) -> bool {
        true
    }

    open spec fn sub_spec(self, rhs: &'a d64) -> d64 {
        d64::from_raw_spec(dec_sub(self.raw(), rhs.raw()))
    }
}

/// Subtracts a d64 (decDoubleSubtract).
impl<'a> Sub<&'a d64> for d64 {
    type Output = d64;

    fn sub(self, rhs: &'a d64) -> (r: d64)
        ensures
            sum_exact(self.value(), rhs.value().with_sign(!rhs.value().negative()), r.value()),
            propagates_nans(self.raw(), rhs.raw(), r.raw()),
            infinite_sum(self.value(), rhs.value().with_sign(!rhs.value().negative()), r.raw()),
    {
        d64::from_bits(sub_bits(self.bits(), rhs.bits()).0)
    }
}

impl<'a, 'b> vstd::std_specs::ops::SubSpecImpl<&'a d64> for &'b d64 {
    open spec fn obeys_sub_spec() -> bool {
        true
    }

    open spec fn sub_req(self, rhs: &'a d64) -> bool {
        true
    }

    open spec fn sub_spec(self, rhs: &'a d64) -> d64 {
        d64::from_raw_spec(dec_sub(self.raw(), rhs.raw()))
    }
}

/// Subtracts a d64 (decDoubleSubtract).
impl<'a, 'b> Sub<&'a d64> for &'b d64 {
    type Output = d64;

    fn sub(self, rhs: &'a d64) -> (r: d64)
        ensures
            sum_exact(self.value(), rhs.value().with_sign(!rhs.value().negative()), r.value()),
            propagates_nans(self.raw(), rhs.raw(), r.raw()),
            infinite_sum(self.value(), rhs.value().with_sign(!rhs.value().negative()), r.raw()),
    {
        d64::from_bits(sub_bits(self.bits(), rhs.bits()).0)
    }
}

/// Subtracts a d64 (decDoubleSubtract).
impl SubAssign<d64> for d64 {
    fn sub_assign(&mut self, rhs: d64)
        ensures
            final(self).raw() == dec_sub(old(self).raw(), rhs.raw()),
            sum_exact(old(self).value(), rhs.value().with_sign(!rhs.value().negative()), final(self).value()),
            propagates_nans(old(self).raw(), rhs.raw(), final(self).raw()),
            infinite_sum(old(self).value(), rhs.value().with_sign(!rhs.value().negative()), final(self).raw()),
    {
        *self = d64::from_bits(sub_bits(self.bits(), rhs.bits()).0);
    }
}

impl vstd::std_specs::ops::MulSpecImpl<d64> for d64 {
    open spec fn obeys_mul_spec() -> bool {
        true
    }

    open spec fn mul_req(self, rhs: d64) -> bool {
        true
    }

    open spec fn mul_spec(self, rhs: d64) -> d64 {
        d64::from_raw_spec(dec_mul(self.raw(), rhs.raw()))
    }
}

/// Multiplies two d64s (decDoubleMultiply).
impl Mul<d64> for d64 {
    type Output = d64;

    fn mul(self, rhs: d64) -> (r: d64)
        ensures
            product_exact(self.value(), rhs.value(), r.value()),
    {
        d64::from_bits(mul_bits(self.bits(), rhs.bits()).0)
    }
}

impl<'a> vstd::std_specs::ops::MulSpecImpl<d64> for &'a d64 {
    open spec fn obeys_mul_spec() -> bool {
        true
    }

    open spec fn mul_req(self, rhs: d64) -> bool {
        true
    }

    open spec fn mul_spec(self, rhs: d64) -> d64 {
        d64::from_raw_spec(dec_mul(self.raw(), rhs.raw()))
    }
}

/// Multiplies two d64s (decDoubleMultiply).
impl<'a> Mul<d64> for &'a d64 {
    type Output = d64;

    fn mul(self, rhs: d64) -> (r: d64)
        ensures
            product_exact(self.value(), rhs.value(), r.value()),
    {
        d64::from_bits(mul_bits(self.bits(), rhs.bits()).0)
    }
}

impl<'a> vstd::std_specs::ops::MulSpecImpl<&'a d64> for d64 {
    open spec fn obeys_mul_spec() -> bool {
        true
    }

    open spec fn mul_req(self, rhs: &'a d64) -> bool {
        true
    }

    open spec fn mul_spec(self, rhs: &'a d64) -> d64 {
        d64::from_raw_spec(dec_mul(self.raw(), rhs.raw()))
    }
}

/// Multiplies two d64s (decDoubleMultiply).
impl<'a> Mul<&'a d64> for d64 {
    type Output = d64;

    fn mul(self, rhs: &'a d64) -> (r: d64)
        ensures
            product_exact(self.value(), rhs.value(), r.value()),
    {
        d64::from_bits(mul_bits(self.bits(), rhs.bits()).0)
    }
}

impl<'a, 'b> vstd::std_specs::ops::MulSpecImpl<&'a d64> for &'b d64 {
    open spec fn obeys_mul_spec() -> bool {
        true
    }

    open spec fn mul_req(self, rhs: &'a d64) -> bool {
        true
    }

    open spec fn mul_spec(self, rhs: &'a d64) -> d64 {
        d64::from_raw_spec(dec_mul(self.raw(), rhs.raw()))
    }
}

/// Multiplies two d64s (decDoubleMultiply).
impl<'a, 'b> Mul<&'a d64> for &'b d64 {
    type Output = d64;

    fn mul(self, rhs: &'a d64) -> (r: d64)
        ensures
            product_exact(self.value(), rhs.value(), r.value()),
    {
        d64::from_bits(mul_bits(self.bits(), rhs.bits()).0)
    }
}

/// Multiplies two d64s (decDoubleMultiply).
impl MulAssign<d64> for d64 {
    fn mul_assign(&mut self, rhs: d64)
        ensures
            final(self).raw() == dec_mul(old(self).raw(), rhs.raw()),
            product_exact(old(self).value(), rhs.value(), final(self).value()),
    {
        *self = d64::from_bits(mul_bits(self.bits(), rhs.bits()).0);
    }
}

impl vstd::std_specs::ops::DivSpecImpl<d64> for d64 {
    open spec fn obeys_div_spec() -> bool {
        true
    }

    open spec fn div_req(self, rhs: d64) -> bool {
        true
    }

    open spec fn div_spec(self, rhs: d64) -> d64 {
        d64::from_raw_spec(dec_div(self.raw(), rhs.raw()))
    }
}

/// Divides by a d64 (decDoubleDivide).
impl Div<d64> for d64 {
    type Output = d64;

    fn div(self, rhs: d64) -> (r: d64)
        ensures
            quotient_exact(self.value(), rhs.value(), r.value()),
    {
        d64::from_bits(div_bits(self.bits(), rhs.bits()).0)
    }
}

impl<'a> vstd::std_specs::ops::DivSpecImpl<d64> for &'a d64 {
    open spec fn obeys_div_spec() -> bool {
        true
    }

    open spec fn div_req(self, rhs: d64) -> bool {
        true
    }

    open spec fn div_spec(self, rhs: d64) -> d64 {
        d64::from_raw_spec(dec_div(self.raw(), rhs.raw()))
    }
}

/// Divides by a d64 (decDoubleDivide).
impl<'a> Div<d64> for &'a d64 {
    type Output = d64;

    fn div(self, rhs: d64) -> (r: d64)
        ensures
            quotient_exact(self.value(), rhs.value(), r.value()),
    {
        d64::from_bits(div_bits(self.bits(), rhs.bits()).0)
    }
}

impl<'a> vstd::std_specs::ops::DivSpecImpl<&'a d64> for d64 {
    open spec fn obeys_div_spec() -> bool {
        true
    }

    open spec fn div_req(self, rhs: &'a d64) -> bool {
        true
    }

    open spec fn div_spec(self, rhs: &'a d64) -> d64 {
        d64::from_raw_spec(dec_div(self.raw(), rhs.raw()))
    }
}

/// Divides by a d64 (decDoubleDivide).
impl<'a> Div<&'a d64> for d64 {
    type Output = d64;

    fn div(self, rhs: &'a d64) -> (r: d64)
        ensures
            quotient_exact(self.value(), rhs.value(), r.value()),
    {
        d64::from_bits(div_bits(self.bits(), rhs.bits()).0)
    }
}

impl<'a, 'b> vstd::std_specs::ops::DivSpecImpl<&'a d64> for &'b d64 {
    open spec fn obeys_div_spec() -> bool {
        true
    }

    open spec fn div_req(self, rhs: &'a d64) -> bool {
        true
    }

    open spec fn div_spec(self, rhs: &'a d64) -> d64 {
        d64::from_raw_spec(dec_div(self.raw(), rhs.raw()))
    }
}

/// Divides by a d64 (decDoubleDivide).
impl<'a, 'b> Div<&'a d64> for &'b d64 {
    type Output = d64;

    fn div(self, rhs: &'a d64) -> (r: d64)
        ensures
            quotient_exact(self.value(), rhs.value(), r.value()),
    {
        d64::from_bits(div_bits(self.bits(), rhs.bits()).0)
    }
}

/// Divides by a d64 (decDoubleDivide).
impl DivAssign<d64> for d64 {
    fn div_assign(&mut self, rhs: d64)
        ensures
            final(self).raw() == dec_div(old(self).raw(), rhs.raw()),
            quotient_exact(old(self).value(), rhs.value(), final(self).value()),
    {
        *self = d64::from_bits(div_bits(self.bits(), rhs.bits()).0);
    }
}

impl vstd::std_specs::ops::RemSpecImpl<d64> for d64 {
    open spec fn obeys_rem_spec() -> bool {
        true
    }

    open spec fn rem_req(self, rhs: d64) -> bool {
        true
    }

    open spec fn rem_spec(self, rhs: d64) -> d64 {
        d64::from_raw_spec(dec_rem(self.raw(), rhs.raw()))
    }
}

/// The remainder of the integer division (decDoubleRemainder).
impl Rem<d64> for d64 {
    type Output = d64;

    fn rem(self, rhs: d64) -> (r: d64)
        ensures
            remainder_exact(self.value(), rhs.value(), r.value()),
    {
        d64::from_bits(rem_bits(self.bits(), rhs.bits()).0)
    }
}

impl<'a> vstd::std_specs::ops::RemSpecImpl<d64> for &'a d64 {
    open spec fn obeys_rem_spec() -> bool {
        true
    }

    open spec fn rem_req(self, rhs: d64) -> bool {
        true
    }

    open spec fn rem_spec(self, rhs: d64) -> d64 {
        d64::from_raw_spec(dec_rem(self.raw(), rhs.raw()))
    }
}

/// The remainder of the integer division (decDoubleRemainder).
impl<'a> Rem<d64> for &'a d64 {
    type Output = d64;

    fn rem(self, rhs: d64) -> (r: d64)
        ensures
            remainder_exact(self.value(), rhs.value(), r.value()),
    {
        d64::from_bits(rem_bits(self.bits(), rhs.bits()).0)
    }
}

impl<'a> vstd::std_specs::ops::RemSpecImpl<&'a d64> for d64 {
    open spec fn obeys_rem_spec() -> bool {
        true
    }

    open spec fn rem_req(self, rhs: &'a d64) -> bool {
        true
    }

    open spec fn rem_spec(self, rhs: &'a d64) -> d64 {
        d64::from_raw_spec(dec_rem(self.raw(), rhs.raw()))
    }
}

/// The remainder of the integer division (decDoubleRemainder).
impl<'a> Rem<&'a d64> for d64 {
    type Output = d64;

    fn rem(self, rhs: &'a d64) -> (r: d64)
        ensures
            remainder_exact(self.value(), rhs.value(), r.value()),
    {
        d64::from_bits(rem_bits(self.bits(), rhs.bits()).0)
    }
}

impl<'a, 'b> vstd::std_specs::ops::RemSpecImpl<&'a d64> for &'b d64 {
    open spec fn obeys_rem_spec() -> bool {
        true
    }

    open spec fn rem_req(self, rhs: &'a d64) -> bool {
        true
    }

    open spec fn rem_spec(self, rhs: &'a d64) -> d64 {
        d64::from_raw_spec(dec_rem(self.raw(), rhs.raw()))
    }
}

/// The remainder of the integer division (decDoubleRemainder).
impl<'a, 'b> Rem<&'a d64> for &'b d64 {
    type Output = d64;

    fn rem(self, rhs: &'a d64) -> (r: d64)
        ensures
            remainder_exact(self.value(), rhs.value(), r.value()),
    {
        d64::from_bits(rem_bits(self.bits(), rhs.bits()).0)
    }
}

/// The remainder of the integer division (decDoubleRemainder).
impl RemAssign<d64> for d64 {
    fn rem_assign(&mut self, rhs: d64)
        ensures
            final(self).raw() == dec_rem(old(self).raw(), rhs.raw()),
            remainder_exact(old(self).value(), rhs.value(), final(self).value()),
    {
        *self = d64::from_bits(rem_bits(self.bits(), rhs.bits()).0);
    }
}

impl vstd::std_specs::ops::BitAndSpecImpl<d64> for d64 {
    open spec fn obeys_bitand_spec() -> bool {
        true
    }

    open spec fn bitand_req(self, rhs: d64) -> bool {
        true
    }

    open spec fn bitand_spec(self, rhs: d64) -> d64 {
        d64::from_raw_spec(logical_and(self.raw(), rhs.raw()))
    }
}

/// The digitwise AND. The operands must be zero or positive, an integer (finite with zero exponent) and comprise only zeros and/or ones; if not, the result is a quiet NaN (INVALID_OPERATION).
impl BitAnd<d64> for d64 {
    type Output = d64;

    fn bitand(self, rhs: d64) -> (r: d64)
        ensures
            logical_enc(self.raw()) && logical_enc(rhs.raw()) && (self.raw() == ZERO_BITS || rhs.raw() == ZERO_BITS) ==> r.raw() == ZERO_BITS,
            logical_enc(self.raw()) && self.raw() == rhs.raw() ==> r.raw() == self.raw(),
            !(logical_enc(self.raw()) && logical_enc(rhs.raw())) ==> r.raw() == QNAN_BITS,
    {
        proof {
            crate::laws::law_logical_identities(self.raw(), rhs.raw());
        }
        d64::from_bits(and_bits(self.bits(), rhs.bits()).0)
    }
}

impl<'a> vstd::std_specs::ops::BitAndSpecImpl<d64> for &'a d64 {
    open spec fn obeys_bitand_spec() -> bool {
        true
    }

    open spec fn bitand_req(self, rhs: d64) -> bool {
        true
    }

    open spec fn bitand_spec(self, rhs: d64) -> d64 {
        d64::from_raw_spec(logical_and(self.raw(), rhs.raw()))
    }
}

/// The digitwise AND. The operands must be zero or positive, an integer (finite with zero exponent) and comprise only zeros and/or ones; if not, the result is a quiet NaN (INVALID_OPERATION).
impl<'a> BitAnd<d64> for &'a d64 {
    type Output = d64;

    fn bitand(self, rhs: d64) -> (r: d64)
        ensures
            logical_enc(self.raw()) && logical_enc(rhs.raw()) && (self.raw() == ZERO_BITS || rhs.raw() == ZERO_BITS) ==> r.raw() == ZERO_BITS,
            logical_enc(self.raw()) && self.raw() == rhs.raw() ==> r.raw() == self.raw(),
            !(logical_enc(self.raw()) && logical_enc(rhs.raw())) ==> r.raw() == QNAN_BITS,
    {
        proof {
            crate::laws::law_logical_identities(self.raw(), rhs.raw());
        }
        d64::from_bits(and_bits(self.bits(), rhs.bits()).0)
    }
}

impl<'a> vstd::std_specs::ops::BitAndSpecImpl<&'a d64> for d64 {
    open spec fn obeys_bitand_spec() -> bool {
        true
    }

    open spec fn bitand_req(self, rhs: &'a d64) -> bool {
        true
    }

    open spec fn bitand_spec(self, rhs: &'a d64) -> d64 {
        d64::from_raw_spec(logical_and(self.raw(), rhs.raw()))
    }
}

/// The digitwise AND. The operands must be zero or positive, an integer (finite with zero exponent) and comprise only zeros and/or ones; if not, the result is a quiet NaN (INVALID_OPERATION).
impl<'a> BitAnd<&'a d64> for d64 {
    type Output = d64;

    fn bitand(self, rhs: &'a d64) -> (r: d64)
        ensures
            logical_enc(self.raw()) && logical_enc(rhs.raw()) && (self.raw() == ZERO_BITS || rhs.raw() == ZERO_BITS) ==> r.raw() == ZERO_BITS,
            logical_enc(self.raw()) && self.raw() == rhs.raw() ==> r.raw() == self.raw(),
            !(logical_enc(self.raw()) && logical_enc(rhs.raw())) ==> r.raw() == QNAN_BITS,
    {
        proof {
            crate::laws::law_logical_identities(self.raw(), rhs.raw());
        }
        d64::from_bits(and_bits(self.bits(), rhs.bits()).0)
    }
}

impl<'a, 'b> vstd::std_specs::ops::BitAndSpecImpl<&'a d64> for &'b d64 {
    open spec fn obeys_bitand_spec() -> bool {
        true
    }

    open spec fn bitand_req(self, rhs: &'a d64) -> bool {
        true
    }

    open spec fn bitand_spec(self, rhs: &'a d64) -> d64 {
        d64::from_raw_spec(logical_and(self.raw(), rhs.raw()))
    }
}

/// The digitwise AND. The operands must be zero or positive, an integer (finite with zero exponent) and comprise only zeros and/or ones; if not, the result is a quiet NaN (INVALID_OPERATION).
impl<'a, 'b> BitAnd<&'a d64> for &'b d64 {
    type Output = d64;

    fn bitand(self, rhs: &'a d64) -> (r: d64)
        ensures
            logical_enc(self.raw()) && logical_enc(rhs.raw()) && (self.raw() == ZERO_BITS || rhs.raw() == ZERO_BITS) ==> r.raw() == ZERO_BITS,
            logical_enc(self.raw()) && self.raw() == rhs.raw() ==> r.raw() == self.raw(),
            !(logical_enc(self.raw()) && logical_enc(rhs.raw())) ==> r.raw() == QNAN_BITS,
    {
        proof {
            crate::laws::law_logical_identities(self.raw(), rhs.raw());
        }
        d64::from_bits(and_bits(self.bits(), rhs.bits()).0)
    }
}

/// The digitwise AND. The operands must be zero or positive, an integer (finite with zero exponent) and comprise only zeros and/or ones; if not, the result is a quiet NaN (INVALID_OPERATION).
impl BitAndAssign<d64> for d64 {
    fn bitand_assign(&mut self, rhs: d64)
        ensures
            final(self).raw() == logical_and(old(self).raw(), rhs.raw()),
            logical_enc(old(self).raw()) && logical_enc(rhs.raw()) && (old(self).raw() == ZERO_BITS || rhs.raw() == ZERO_BITS) ==> final(self).raw() == ZERO_BITS,
            logical_enc(old(self).raw()) && old(self).raw() == rhs.raw() ==> final(self).raw() == old(self).raw(),
            !(logical_enc(old(self).raw()) && logical_enc(rhs.raw())) ==> final(self).raw() == QNAN_BITS,
    {
        proof {
            crate::laws::law_logical_identities(self.raw(), rhs.raw());
        }
        *self = d64::from_bits(and_bits(self.bits(), rhs.bits()).0);
    }
}

impl vstd::std_specs::ops::BitOrSpecImpl<d64> for d64 {
    open spec fn obeys_bitor_spec() -> bool {
        true
    }

    open spec fn bitor_req(self, rhs: d64) -> bool {
        true
    }

    open spec fn bitor_spec(self, rhs: d64) -> d64 {
        d64::from_raw_spec(logical_or(self.raw(), rhs.raw()))
    }
}

/// The digitwise OR. The operands must be zero or positive, an integer (finite with zero exponent) and comprise only zeros and/or ones; if not, the result is a quiet NaN (INVALID_OPERATION).
impl BitOr<d64> for d64 {
    type Output = d64;

    fn bitor(self, rhs: d64) -> (r: d64)
        ensures
            logical_enc(rhs.raw()) && self.raw() == ZERO_BITS ==> r.raw() == rhs.raw(),
            logical_enc(self.raw()) && rhs.raw() == ZERO_BITS ==> r.raw() == self.raw(),
            logical_enc(self.raw()) && self.raw() == rhs.raw() ==> r.raw() == self.raw(),
            !(logical_enc(self.raw()) && logical_enc(rhs.raw())) ==> r.raw() == QNAN_BITS,
    {
        proof {
            crate::laws::law_logical_identities(self.raw(), rhs.raw());
        }
        d64::from_bits(or_bits(self.bits(), rhs.bits()).0)
    }
}

impl<'a> vstd::std_specs::ops::BitOrSpecImpl<d64> for &'a d64 {
    open spec fn obeys_bitor_spec() -> bool {
        true
    }

    open spec fn bitor_req(self, rhs: d64) -> bool {
        true
    }

    open spec fn bitor_spec(self, rhs: d64) -> d64 {
        d64::from_raw_spec(logical_or(self.raw(), rhs.raw()))
    }
}

/// The digitwise OR. The operands must be zero or positive, an integer (finite with zero exponent) and comprise only zeros and/or ones; if not, the result is a quiet NaN (INVALID_OPERATION).
impl<'a> BitOr<d64> for &'a d64 {
    type Output = d64;

    fn bitor(self, rhs: d64) -> (r: d64)
        ensures
            logical_enc(rhs.raw()) && self.raw() == ZERO_BITS ==> r.raw() == rhs.raw(),
            logical_enc(self.raw()) && rhs.raw() == ZERO_BITS ==> r.raw() == self.raw(),
            logical_enc(self.raw()) && self.raw() == rhs.raw() ==> r.raw() == self.raw(),
            !(logical_enc(self.raw()) && logical_enc(rhs.raw())) ==> r.raw() == QNAN_BITS,
    {
        proof {
            crate::laws::law_logical_identities(self.raw(), rhs.raw());
        }
        d64::from_bits(or_bits(self.bits(), rhs.bits()).0)
    }
}

impl<'a> vstd::std_specs::ops::BitOrSpecImpl<&'a d64> for d64 {
    open spec fn obeys_bitor_spec() -> bool {
        true
    }

    open spec fn bitor_req(self, rhs: &'a d64) -> bool {
        true
    }

    open spec fn bitor_spec(self, rhs: &'a d64) -> d64 {
        d64::from_raw_spec(logical_or(self.raw(), rhs.raw()))
    }
}

/// The digitwise OR. The operands must be zero or positive, an integer (finite with zero exponent) and comprise only zeros and/or ones; if not, the result is a quiet NaN (INVALID_OPERATION).
impl<'a> BitOr<&'a d64> for d64 {
    type Output = d64;

    fn bitor(self, rhs: &'a d64) -> (r: d64)
        ensures
            logical_enc(rhs.raw()) && self.raw() == ZERO_BITS ==> r.raw() == rhs.raw(),
            logical_enc(self.raw()) && rhs.raw() == ZERO_BITS ==> r.raw() == self.raw(),
            logical_enc(self.raw()) && self.raw() == rhs.raw() ==> r.raw() == self.raw(),
            !(logical_enc(self.raw()) && logical_enc(rhs.raw())) ==> r.raw() == QNAN_BITS,
    {
        proof {
            crate::laws::law_logical_identities(self.raw(), rhs.raw());
        }
        d64::from_bits(or_bits(self.bits(), rhs.bits()).0)
    }
}

impl<'a, 'b> vstd::std_specs::ops::BitOrSpecImpl<&'a d64> for &'b d64 {
    open spec fn obeys_bitor_spec() -> bool {
        true
    }

    open spec fn bitor_req(self, rhs: &'a d64) -> bool {
        true
    }

    open spec fn bitor_spec(self, rhs: &'a d64) -> d64 {
        d64::from_raw_spec(logical_or(self.raw(), rhs.raw()))
    }
}

/// The digitwise OR. The operands must be zero or positive, an integer (finite with zero exponent) and comprise only zeros and/or ones; if not, the result is a quiet NaN (INVALID_OPERATION).
impl<'a, 'b> BitOr<&'a d64> for &'b d64 {
    type Output = d64;

    fn bitor(self, rhs: &'a d64) -> (r: d64)
        ensures
            logical_enc(rhs.raw()) && self.raw() == ZERO_BITS ==> r.raw() == rhs.raw(),
            logical_enc(self.raw()) && rhs.raw() == ZERO_BITS ==> r.raw() == self.raw(),
            logical_enc(self.raw()) && self.raw() == rhs.raw() ==> r.raw() == self.raw(),
            !(logical_enc(self.raw()) && logical_enc(rhs.raw())) ==> r.raw() == QNAN_BITS,
    {
        proof {
            crate::laws::law_logical_identities(self.raw(), rhs.raw());
        }
        d64::from_bits(or_bits(self.bits(), rhs.bits()).0)
    }
}

/// The digitwise OR. The operands must be zero or positive, an integer (finite with zero exponent) and comprise only zeros and/or ones; if not, the result is a quiet NaN (INVALID_OPERATION).
impl BitOrAssign<d64> for d64 {
    fn bitor_assign(&mut self, rhs: d64)
        ensures
            final(self).raw() == logical_or(old(self).raw(), rhs.raw()),
            logical_enc(rhs.raw()) && old(self).raw() == ZERO_BITS ==> final(self).raw() == rhs.raw(),
            logical_enc(old(self).raw()) && rhs.raw() == ZERO_BITS ==> final(self).raw() == old(self).raw(),
            logical_enc(old(self).raw()) && old(self).raw() == rhs.raw() ==> final(self).raw() == old(self).raw(),
            !(logical_enc(old(self).raw()) && logical_enc(rhs.raw())) ==> final(self).raw() == QNAN_BITS,
    {
        proof {
            crate::laws::law_logical_identities(self.raw(), rhs.raw());
        }
        *self = d64::from_bits(or_bits(self.bits(), rhs.bits()).0);
    }
}

impl vstd::std_specs::ops::BitXorSpecImpl<d64> for d64 {
    open spec fn obeys_bitxor_spec() -> bool {
        true
    }

    open spec fn bitxor_req(self, rhs: d64) -> bool {
        true
    }

    open spec fn bitxor_spec(self, rhs: d64) -> d64 {
        d64::from_raw_spec(logical_xor(self.raw(), rhs.raw()))
    }
}

/// The digitwise XOR. The operands must be zero or positive, an integer (finite with zero exponent) and comprise only zeros and/or ones; if not, the result is a quiet NaN (INVALID_OPERATION).
impl BitXor<d64> for d64 {
    type Output = d64;

    fn bitxor(self, rhs: d64) -> (r: d64)
        ensures
            logical_enc(rhs.raw()) && self.raw() == ZERO_BITS ==> r.raw() == rhs.raw(),
            logical_enc(self.raw()) && rhs.raw() == ZERO_BITS ==> r.raw() == self.raw(),
            logical_enc(self.raw()) && self.raw() == rhs.raw() ==> r.raw() == ZERO_BITS,
            !(logical_enc(self.raw()) && logical_enc(rhs.raw())) ==> r.raw() == QNAN_BITS,
    {
        proof {
            crate::laws::law_logical_identities(self.raw(), rhs.raw());
        }
        d64::from_bits(xor_bits(self.bits(), rhs.bits()).0)
    }
}

impl<'a> vstd::std_specs::ops::BitXorSpecImpl<d64> for &'a d64 {
    open spec fn obeys_bitxor_spec() -> bool {
        true
    }

    open spec fn bitxor_req(self, rhs: d64) -> bool {
        true
    }

    open spec fn bitxor_spec(self, rhs: d64) -> d64 {
        d64::from_raw_spec(logical_xor(self.raw(), rhs.raw()))
    }
}

/// The digitwise XOR. The operands must be zero or positive, an integer (finite with zero exponent) and comprise only zeros and/or ones; if not, the result is a quiet NaN (INVALID_OPERATION).
impl<'a> BitXor<d64> for &'a d64 {
    type Output = d64;

    fn bitxor(self, rhs: d64) -> (r: d64)
        ensures
            logical_enc(rhs.raw()) && self.raw() == ZERO_BITS ==> r.raw() == rhs.raw(),
            logical_enc(self.raw()) && rhs.raw() == ZERO_BITS ==> r.raw() == self.raw(),
            logical_enc(self.raw()) && self.raw() == rhs.raw() ==> r.raw() == ZERO_BITS,
            !(logical_enc(self.raw()) && logical_enc(rhs.raw())) ==> r.raw() == QNAN_BITS,
    {
        proof {
            crate::laws::law_logical_identities(self.raw(), rhs.raw());
        }
        d64::from_bits(xor_bits(self.bits(), rhs.bits()).0)
    }
}

impl<'a> vstd::std_specs::ops::BitXorSpecImpl<&'a d64> for d64 {
    open spec fn obeys_bitxor_spec() -> bool {
        true
    }

    open spec fn bitxor_req(self, rhs: &'a d64) -> bool {
        true
    }

    open spec fn bitxor_spec(self, rhs: &'a d64) -> d64 {
        d64::from_raw_spec(logical_xor(self.raw(), rhs.raw()))
    }
}

/// The digitwise XOR. The operands must be zero or positive, an integer (finite with zero exponent) and comprise only zeros and/or ones; if not, the result is a quiet NaN (INVALID_OPERATION).
impl<'a> BitXor<&'a d64> for d64 {
    type Output = d64;

    fn bitxor(self, rhs: &'a d64) -> (r: d64)
        ensures
            logical_enc(rhs.raw()) && self.raw() == ZERO_BITS ==> r.raw() == rhs.raw(),
            logical_enc(self.raw()) && rhs.raw() == ZERO_BITS ==> r.raw() == self.raw(),
            logical_enc(self.raw()) && self.raw() == rhs.raw() ==> r.raw() == ZERO_BITS,
            !(logical_enc(self.raw()) && logical_enc(rhs.raw())) ==> r.raw() == QNAN_BITS,
    {
        proof {
            crate::laws::law_logical_identities(self.raw(), rhs.raw());
        }
        d64::from_bits(xor_bits(self.bits(), rhs.bits()).0)
    }
}

impl<'a, 'b> vstd::std_specs::ops::BitXorSpecImpl<&'a d64> for &'b d64 {
    open spec fn obeys_bitxor_spec() -> bool {
        true
    }

    open spec fn bitxor_req(self, rhs: &'a d64) -> bool {
        true
    }

    open spec fn bitxor_spec(self, rhs: &'a d64) -> d64 {
        d64::from_raw_spec(logical_xor(self.raw(), rhs.raw()))
    }
}

/// The digitwise XOR. The operands must be zero or positive, an integer (finite with zero exponent) and comprise only zeros and/or ones; if not, the result is a quiet NaN (INVALID_OPERATION).
impl<'a, 'b> BitXor<&'a d64> for &'b d64 {
    type Output = d64;

    fn bitxor(self, rhs: &'a d64) -> (r: d64)
        ensures
            logical_enc(rhs.raw()) && self.raw() == ZERO_BITS ==> r.raw() == rhs.raw(),
            logical_enc(self.raw()) && rhs.raw() == ZERO_BITS ==> r.raw() == self.raw(),
            logical_enc(self.raw()) && self.raw() == rhs.raw() ==> r.raw() == ZERO_BITS,
            !(logical_enc(self.raw()) && logical_enc(rhs.raw())) ==> r.raw() == QNAN_BITS,
    {
        proof {
            crate::laws::law_logical_identities(self.raw(), rhs.raw());
        }
        d64::from_bits(xor_bits(self.bits(), rhs.bits()).0)
    }
}

/// The digitwise XOR. The operands must be zero or positive, an integer (finite with zero exponent) and comprise only zeros and/or ones; if not, the result is a quiet NaN (INVALID_OPERATION).
impl BitXorAssign<d64> for d64 {
    fn bitxor_assign(&mut self, rhs: d64)
        ensures
            final(self).raw() == logical_xor(old(self).raw(), rhs.raw()),
            logical_enc(rhs.raw()) && old(self).raw() == ZERO_BITS ==> final(self).raw() == rhs.raw(),
            logical_enc(old(self).raw()) && rhs.raw() == ZERO_BITS ==> final(self).raw() == old(self).raw(),
            logical_enc(old(self).raw()) && old(self).raw() == rhs.raw() ==> final(self).raw() == ZERO_BITS,
            !(logical_enc(old(self).raw()) && logical_enc(rhs.raw())) ==> final(self).raw() == QNAN_BITS,
    {
        proof {
            crate::laws::law_logical_identities(self.raw(), rhs.raw());
        }
        *self = d64::from_bits(xor_bits(self.bits(), rhs.bits()).0);
    }
}

impl vstd::std_specs::ops::NegSpecImpl for d64 {
    open spec fn obeys_neg_spec() -> bool {
        true
    }

    open spec fn neg_req(self) -> bool {
        true
    }

    open spec fn neg_spec(self) -> d64 {
        d64::from_raw_spec(dec_minus(self.raw()))
    }
}

/// Negates (decDoubleMinus, 0 - self): a number's sign is flipped, a zero gets sign 0, a NaN is made quiet.
impl Neg for d64 {
    type Output = d64;

    fn neg(self) -> (r: d64)
        ensures
            r.value() == minus_value(self.value()),
    {
        d64::from_bits(minus_bits(self.bits()).0)
    }
}

impl<'a> vstd::std_specs::ops::NegSpecImpl for &'a d64 {
    open spec fn obeys_neg_spec() -> bool {
        true
    }

    open spec fn neg_req(self) -> bool {
        true
    }

    open spec fn neg_spec(self) -> d64 {
        d64::from_raw_spec(dec_minus(self.raw()))
    }
}

/// Negates (decDoubleMinus, 0 - self): a number's sign is flipped, a zero gets sign 0, a NaN is made quiet.
impl<'a> Neg for &'a d64 {
    type Output = d64;

    fn neg(self) -> (r: d64)
        ensures
            r.value() == minus_value(self.value()),
    {
        d64::from_bits(minus_bits(self.bits()).0)
    }
}

impl vstd::std_specs::ops::NotSpecImpl for d64 {
    open spec fn obeys_not_spec() -> bool {
        true
    }

    open spec fn not_req(self) -> bool {
        true
    }

    open spec fn not_spec(self) -> d64 {
        d64::from_raw_spec(logical_invert(self.raw()))
    }
}

/// The digitwise inversion. The operand must be zero or positive, an integer (finite with zero exponent) and comprise only zeros and/or ones; if not, the result is a quiet NaN (INVALID_OPERATION).
impl Not for d64 {
    type Output = d64;

    fn not(self) -> (r: d64)
        ensures
            self.raw() == ZERO_BITS ==> r.raw() == ALL_ONES_BITS,
            self.raw() == ALL_ONES_BITS ==> r.raw() == ZERO_BITS,
            !logical_enc(self.raw()) ==> r.raw() == QNAN_BITS,
    {
        proof {
            crate::laws::law_logical_identities(self.raw(), self.raw());
        }
        d64::from_bits(invert_bits(self.bits()).0)
    }
}

impl<'a> vstd::std_specs::ops::NotSpecImpl for &'a d64 {
    open spec fn obeys_not_spec() -> bool {
        true
    }

    open spec fn not_req(self) -> bool {
        true
    }

    open spec fn not_spec(self) -> d64 {
        d64::from_raw_spec(logical_invert(self.raw()))
    }
}

/// The digitwise inversion. The operand must be zero or positive, an integer (finite with zero exponent) and comprise only zeros and/or ones; if not, the result is a quiet NaN (INVALID_OPERATION).
impl<'a> Not for &'a d64 {
    type Output = d64;

    fn not(self) -> (r: d64)
        ensures
            self.raw() == ZERO_BITS ==> r.raw() == ALL_ONES_BITS,
            self.raw() == ALL_ONES_BITS ==> r.raw() == ZERO_BITS,
            !logical_enc(self.raw()) ==> r.raw() == QNAN_BITS,
    {
        proof {
            crate::laws::law_logical_identities(self.raw(), self.raw());
        }
        d64::from_bits(invert_bits(self.bits()).0)
    }
}

/// `v` with the digits of its coefficient shifted `n` places to the left
/// (to the right for negative `n`), zeros coming in and digits beyond the
/// sixteen places dropped; the sign and the exponent are kept. Infinities and
/// NaNs are unchanged.
pub open spec fn shifted_in_place(v: Decoded, n: int) -> Decoded {
    match v {
        Decoded::Finite { negative, coefficient, exponent } => Decoded::Finite {
            negative,
            coefficient: if n >= 0 {
                (coefficient * pow10(n as nat)) % pow10(16)
            } else {
                coefficient / pow10((-n) as nat)
            },
            exponent,
        },
        _ => v,
    }
}

/// The encoding of the shift amount `n`, negated for a shift to the right.
pub open spec fn amount_raw(n: u32, left: bool) -> u64 {
    if left {
        dec_from_u32(n)
    } else {
        dec_minus(dec_from_u32(n))
    }
}

/// The encoding that a shift by `amount` places gives: one decNumber shift
/// for up to 15 places; for 16 to 34 places a shift by 15 and then by 1,
/// which clears the coefficient and keeps the exponent; beyond 34 places a
/// shift by 17, which decNumber refuses.
pub open spec fn shift_raw(b: u64, amount: usize, left: bool) -> u64 {
    if amount <= 15 {
        dec_shift(b, amount_raw(amount as u32, left))
    } else if amount <= 34 {
        dec_shift(dec_shift(b, amount_raw(15, left)), amount_raw(1, left))
    } else {
        dec_shift(b, amount_raw(17, left))
    }
}

/// The encoding of a shift amount of `n` places, to the left or right.
fn shift_amount(n: u32, left: bool) -> (r: u64)
    requires
        n <= 17,
    ensures
        r == amount_raw(n, left),
        !decode(r).is_nan(),
        n <= 16 ==> integer_amount(decode(r), 16) == Some(
            if left {
                n as int
            } else {
                -(n as int)
            },
        ),
        n > 16 ==> integer_amount(decode(r), 16) is None,
{
    let b = from_u32_bits(n);
    if left {
        b
    } else {
        minus_bits(b).0
    }
}

/// A shift by at most 15 places, as decNumber makes it, is the shift in place.
proof fn lemma_shift_small(v: Decoded, n: int)
    requires
        -15 <= n <= 15,
        v matches Decoded::Finite { coefficient, .. } ==> coefficient < pow10(16),
    ensures
        shifted(v, n) == shifted_in_place(v, n),
{
    lemma_pow10_values();
    if let Decoded::Finite { coefficient, .. } = v {
        if n == 0 {
            assert(coefficient * pow10(0) == coefficient);
            vstd::arithmetic::div_mod::lemma_small_mod(coefficient, pow10(16));
        }
    }
}

/// Shifting left by 15 and then by 1 clears a coefficient, as does any shift
/// by 16 to 34 places in place.
proof fn lemma_shift_long_left(c: nat, n: nat)
    requires
        c < pow10(16),
        16 <= n <= 34,
    ensures
        ((((c * pow10(15)) % pow10(16)) * pow10(1)) % pow10(16)) == 0,
        (c * pow10(n)) % pow10(16) == 0,
{
    lemma_pow10_values();
    let m = pow10(16) as int;
    let x = (c * pow10(15)) as int;
    let q = x / m;
    let r0 = x % m;
    vstd::arithmetic::div_mod::lemma_fundamental_div_mod(x, m);
    assert(r0 * 10 == (c - 10 * q) * m) by (nonlinear_arith)
        requires
            x == q * m + r0,
            x == c * 1_000_000_000_000_000,
            m == 10_000_000_000_000_000,
    ;
    vstd::arithmetic::div_mod::lemma_mod_multiples_basic(c - 10 * q, m);
    lemma_pow10_add((n - 16) as nat, 16);
    assert((n - 16) as nat + 16 == n);
    let k = pow10((n - 16) as nat) as int;
    assert(c * pow10(n) == (c * k) * m) by (nonlinear_arith)
        requires
            pow10(n) == k * m,
    ;
    vstd::arithmetic::div_mod::lemma_mod_multiples_basic(c * k, m);
}

/// Shifting right by 15 and then by 1 clears a coefficient, as does any
/// shift by 16 to 34 places in place.
proof fn lemma_shift_long_right(c: nat, n: nat)
    requires
        c < pow10(16),
        16 <= n <= 34,
    ensures
        (c / pow10(15)) / pow10(1) == 0,
        c / pow10(n) == 0,
{
    lemma_pow10_values();
    lemma_pow10_monotonic(16, n);
    vstd::arithmetic::div_mod::lemma_div_denominator(c as int, pow10(15) as int, 10);
    vstd::arithmetic::div_mod::lemma_basic_div(c as int, pow10(16) as int);
    vstd::arithmetic::div_mod::lemma_basic_div(c as int, pow10(n) as int);
}

/// `x` with its coefficient shifted `amount` places to the left or right,
/// with the status flags that the shift raises.
pub(crate) fn shift_digits(x: d64, amount: usize, left: bool) -> (r: (d64, Flags))
    ensures
        r.0.raw() == shift_raw(x.raw(), amount, left),
        x.value().is_nan() ==> r.0.value() == quiet(x.value()),
        !x.value().is_nan() && amount <= 34 ==> r.0.value() == shifted_in_place(
            x.value(),
            if left {
                amount as int
            } else {
                -(amount as int)
            },
        ),
        !x.value().is_nan() && amount > 34 ==> r.0.raw() == QNAN_BITS,
        !x.value().is_nan() && amount <= 34 ==> r.1 == Flags::none(),
        !x.value().is_nan() && amount > 34 ==> r.1.invalid_operation,
        x.value().is_signaling() ==> r.1.invalid_operation,
{
    proof {
        crate::encoding::lemma_coefficient_bound(x.raw());
    }
    if amount <= 15 {
        let s = shift_amount(amount as u32, left);
        let (r, st) = shift_bits(x.bits(), s);
        proof {
            lemma_shift_small(x.value(), if left { amount as int } else { -(amount as int) });
        }
        (d64::from_bits(r), st)
    } else if amount <= 34 {
        let s1 = shift_amount(15, left);
        let (r1, st1) = shift_bits(x.bits(), s1);
        let s2 = shift_amount(1, left);
        let (r2, st2) = shift_bits(r1, s2);
        proof {
            lemma_pow10_values();
            if let Decoded::Finite { coefficient, .. } = x.value() {
                if left {
                    lemma_shift_long_left(coefficient, amount as nat);
                } else {
                    lemma_shift_long_right(coefficient, amount as nat);
                }
            }
        }
        (d64::from_bits(r2), st1.union(st2))
    } else {
        let s = shift_amount(17, left);
        let (r, st) = shift_bits(x.bits(), s);
        (d64::from_bits(r), st)
    }
}

impl vstd::std_specs::ops::ShlSpecImpl<usize> for d64 {
    open spec fn obeys_shl_spec() -> bool {
        true
    }

    open spec fn shl_req(self, amount: usize) -> bool {
        true
    }

    open spec fn shl_spec(self, amount: usize) -> d64 {
        d64::from_raw_spec(shift_raw(self.raw(), amount, true))
    }
}

/// The result is `self` with the digits of the coefficient shifted to the left without adjusting
/// the exponent or the sign of `self`. Any digits shifted in from the right will be 0. `amount`
/// is the count of positions to shift and must be at most 34; a larger one gives a quiet NaN.
/// NaNs are propagated as usual. If `self` is infinite the result is Infinity of the same sign.
impl Shl<usize> for d64 {
    type Output = d64;

    fn shl(self, amount: usize) -> (r: d64)
        ensures
            r.raw() == shift_raw(self.raw(), amount, true),
            self.value().is_nan() ==> r.value() == quiet(self.value()),
            !self.value().is_nan() && amount <= 34 ==> r.value() == shifted_in_place(
                self.value(),
                amount as int,
            ),
            !self.value().is_nan() && amount > 34 ==> r.raw() == QNAN_BITS,
    {
        shift_digits(self, amount, true).0
    }
}

impl<'a> vstd::std_specs::ops::ShlSpecImpl<usize> for &'a d64 {
    open spec fn obeys_shl_spec() -> bool {
        true
    }

    open spec fn shl_req(self, amount: usize) -> bool {
        true
    }

    open spec fn shl_spec(self, amount: usize) -> d64 {
        d64::from_raw_spec(shift_raw(self.raw(), amount, true))
    }
}

/// The result is `self` with the digits of the coefficient shifted to the left without adjusting
/// the exponent or the sign of `self`. Any digits shifted in from the right will be 0. `amount`
/// is the count of positions to shift and must be at most 34; a larger one gives a quiet NaN.
/// NaNs are propagated as usual. If `self` is infinite the result is Infinity of the same sign.
impl<'a> Shl<usize> for &'a d64 {
    type Output = d64;

    fn shl(self, amount: usize) -> (r: d64)
        ensures
            r.raw() == shift_raw(self.raw(), amount, true),
            self.value().is_nan() ==> r.value() == quiet(self.value()),
            !self.value().is_nan() && amount <= 34 ==> r.value() == shifted_in_place(
                self.value(),
                amount as int,
            ),
            !self.value().is_nan() && amount > 34 ==> r.raw() == QNAN_BITS,
    {
        shift_digits(*self, amount, true).0
    }
}

/// The result is `self` with the digits of the coefficient shifted to the left without adjusting
/// the exponent or the sign of `self`. Any digits shifted in from the right will be 0. `amount`
/// is the count of positions to shift and must be at most 34; a larger one gives a quiet NaN.
/// NaNs are propagated as usual. If `self` is infinite the result is Infinity of the same sign.
impl ShlAssign<usize> for d64 {
    fn shl_assign(&mut self, amount: usize)
        ensures
            final(self).raw() == shift_raw(old(self).raw(), amount, true),
            old(self).value().is_nan() ==> final(self).value() == quiet(old(self).value()),
            !old(self).value().is_nan() && amount <= 34 ==> final(self).value()
                == shifted_in_place(old(self).value(), amount as int),
            !old(self).value().is_nan() && amount > 34 ==> final(self).raw() == QNAN_BITS,
    {
        *self = shift_digits(*self, amount, true).0;
    }
}

impl vstd::std_specs::ops::ShrSpecImpl<usize> for d64 {
    open spec fn obeys_shr_spec() -> bool {
        true
    }

    open spec fn shr_req(self, amount: usize) -> bool {
        true
    }

    open spec fn shr_spec(self, amount: usize) -> d64 {
        d64::from_raw_spec(shift_raw(self.raw(), amount, false))
    }
}

/// The result is `self` with the digits of the coefficient shifted to the right without adjusting
/// the exponent or the sign of `self`. Any digits shifted in from the left will be 0. `amount`
/// is the count of positions to shift and must be at most 34; a larger one gives a quiet NaN.
/// NaNs are propagated as usual. If `self` is infinite the result is Infinity of the same sign.
impl Shr<usize> for d64 {
    type Output = d64;

    fn shr(self, amount: usize) -> (r: d64)
        ensures
            r.raw() == shift_raw(self.raw(), amount, false),
            self.value().is_nan() ==> r.value() == quiet(self.value()),
            !self.value().is_nan() && amount <= 34 ==> r.value() == shifted_in_place(
                self.value(),
                -(amount as int),
            ),
            !self.value().is_nan() && amount > 34 ==> r.raw() == QNAN_BITS,
    {
        shift_digits(self, amount, false).0
    }
}

impl<'a> vstd::std_specs::ops::ShrSpecImpl<usize> for &'a d64 {
    open spec fn obeys_shr_spec() -> bool {
        true
    }

    open spec fn shr_req(self, amount: usize) -> bool {
        true
    }

    open spec fn shr_spec(self, amount: usize) -> d64 {
        d64::from_raw_spec(shift_raw(self.raw(), amount, false))
    }
}

/// The result is `self` with the digits of the coefficient shifted to the right without adjusting
/// the exponent or the sign of `self`. Any digits shifted in from the left will be 0. `amount`
/// is the count of positions to shift and must be at most 34; a larger one gives a quiet NaN.
/// NaNs are propagated as usual. If `self` is infinite the result is Infinity of the same sign.
impl<'a> Shr<usize> for &'a d64 {
    type Output = d64;

    fn shr(self, amount: usize) -> (r: d64)
        ensures
            r.raw() == shift_raw(self.raw(), amount, false),
            self.value().is_nan() ==> r.value() == quiet(self.value()),
            !self.value().is_nan() && amount <= 34 ==> r.value() == shifted_in_place(
                self.value(),
                -(amount as int),
            ),
            !self.value().is_nan() && amount > 34 ==> r.raw() == QNAN_BITS,
    {
        shift_digits(*self, amount, false).0
    }
}

/// The result is `self` with the digits of the coefficient shifted to the right without adjusting
/// the exponent or the sign of `self`. Any digits shifted in from the left will be 0. `amount`
/// is the count of positions to shift and must be at most 34; a larger one gives a quiet NaN.
/// NaNs are propagated as usual. If `self` is infinite the result is Infinity of the same sign.
impl ShrAssign<usize> for d64 {
    fn shr_assign(&mut self, amount: usize)
        ensures
            final(self).raw() == shift_raw(old(self).raw(), amount, false),
            old(self).value().is_nan() ==> final(self).value() == quiet(old(self).value()),
            !old(self).value().is_nan() && amount <= 34 ==> final(self).value()
                == shifted_in_place(old(self).value(), -(amount as int)),
            !old(self).value().is_nan() && amount > 34 ==> final(self).raw() == QNAN_BITS,
    {
        *self = shift_digits(*self, amount, false).0;
    }
}

/// The precision, in digits, of the context in which the mathematical
/// functions work: that of the decimal64 context.
pub const MATH_PRECISION: usize = 16;

/// The largest exponent of that context (that of decimal64).
pub const MATH_MAX_EXPONENT: isize = 384;

/// The smallest normal exponent of that context (that of decimal64).
pub const MATH_MIN_EXPONENT: isize = -383;

/// The encoding of the sum of `s`, added left to right from +0.
pub open spec fn sum_raw(s: Seq<d64>) -> u64
    decreases s.len(),
{
    if s.len() == 0 {
        ZERO_BITS
    } else {
        dec_add(sum_raw(s.drop_last()), s.last().raw())
    }
}

impl d64 {
    // Computational.
    /// Returns the absolute value of `self`: a number with its sign cleared,
    /// a NaN made quiet.
    pub fn abs(self) -> (r: d64)
        ensures
            r.raw() == dec_abs(self.raw()),
            r.value() == abs_value(self.value()),
    {
        d64::from_bits(abs_bits(self.bits()).0)
    }

    /// Calculates the fused multiply-add `self` × `a` + `b` and returns the result. The multiply
    /// is carried out first and is exact, so this operation has only the one, final, rounding.
    pub fn mul_add<O: DecimalOperand>(self, a: O, b: O) -> (r: d64)
        ensures
            r.raw() == dec_fma(self.raw(), a.operand_view().raw(), b.operand_view().raw()),
            fma_exact(self.value(), a.operand_view().value(), b.operand_view().value(), r.value()),
    {
        let x = a.operand();
        let y = b.operand();
        d64::from_bits(fma_bits(self.bits(), x.bits(), y.bits()).0)
    }

    /// Returns the adjusted exponent of `self`, according to IEEE 754 rules. That is, the exponent
    /// returned is calculated as if the decimal point followed the first significant digit (so,
    /// for example, if `self` were 123 then the result would be 2). If `self` is infinite, the
    /// result is +Infinity. If `self` is a zero, the result is –Infinity. If `self` is less than
    /// zero, the absolute value of `self` is used. If `self` is 1, the result is 0. NaNs are
    /// propagated (made quiet).
    pub fn logb(self) -> (r: d64)
        ensures
            r.raw() == dec_logb(self.raw()),
            r.value() == (if self.value().is_nan() {
                quiet(self.value())
            } else if self.value().is_infinite() {
                Decoded::Infinite { negative: false }
            } else if self.value().is_zero() {
                Decoded::Infinite { negative: true }
            } else {
                integer_value(self.value().adjusted_exponent())
            }),
    {
        d64::from_bits(logb_bits(self.bits()).0)
    }

    /// If both `self` and `other` are numeric (not NaNs) this returns the larger of the two
    /// (compared using total ordering, to give a well-defined result). If either (but not both of)
    /// is a quiet NaN then the other argument is the result; otherwise NaNs are handled as for
    /// arithmetic operations.
    pub fn max<O: DecimalOperand>(self, other: O) -> (r: d64)
        ensures
            r.raw() == dec_max(self.raw(), other.operand_view().raw()),
            chooses(
                self.raw(),
                other.operand_view().raw(),
                r.raw(),
                total_order(self.value(), other.operand_view().value()) >= 0,
            ),
            is_canonical_enc(r.raw()),
    {
        let o = other.operand();
        d64::from_bits(max_bits(self.bits(), o.bits()).0)
    }

    /// If both `self` and `other`  are numeric (not NaNs) this returns the smaller of the two
    /// (compared using total ordering, to give a well-defined result). If either (but not both of)
    /// is a quiet NaN then the other argument is the result; otherwise NaNs are handled as for
    /// arithmetic operations.
    pub fn min<O: DecimalOperand>(self, other: O) -> (r: d64)
        ensures
            r.raw() == dec_min(self.raw(), other.operand_view().raw()),
            chooses(
                self.raw(),
                other.operand_view().raw(),
                r.raw(),
                total_order(self.value(), other.operand_view().value()) <= 0,
            ),
            is_canonical_enc(r.raw()),
    {
        let o = other.operand();
        d64::from_bits(min_bits(self.bits(), o.bits()).0)
    }

    /// Returns the ‘next’ d64 to `self` in the direction of +Infinity according to IEEE 754 rules
    /// for nextUp.
    pub fn next(self) -> (r: d64)
        ensures
            r.raw() == dec_next_plus(self.raw()),
            self.value().is_nan() ==> r.value() == quiet(self.value()),
            self.value() == (Decoded::Infinite { negative: false }) ==> r.value() == self.value(),
            !self.value().is_nan() && self.value() != (Decoded::Infinite { negative: false })
                ==> next_up(self.value(), r.value()),
    {
        d64::from_bits(next_plus_bits(self.bits()).0)
    }

    /// Returns the ‘next’ d64 to `self` in the direction of –Infinity according to IEEE 754 rules
    /// for nextDown.
    pub fn previous(self) -> (r: d64)
        ensures
            r.raw() == dec_next_minus(self.raw()),
            self.value().is_nan() ==> r.value() == quiet(self.value()),
            self.value() == (Decoded::Infinite { negative: true }) ==> r.value() == self.value(),
            !self.value().is_nan() && self.value() != (Decoded::Infinite { negative: true })
                ==> next_down(self.value(), r.value()),
    {
        d64::from_bits(next_minus_bits(self.bits()).0)
    }

    /// Returns `self` raised to the power of `exp`, computed at 16 digits of precision and
    /// rounded to a d64. Results are exact when `exp` has an integral value and the result does
    /// not need to be rounded; inexact results may be up to 1 ulp in error in rare cases.
    pub fn pow<O: DecimalOperand>(self, exp: O) -> (r: d64)
        ensures
            r.raw() == dec_pow(self.raw(), exp.operand_view().raw(), MATH_PRECISION, MATH_MAX_EXPONENT, MATH_MIN_EXPONENT),
            exp.operand_view().value().is_zero() && (self.value().is_infinite() || (self.value().is_finite()
                && !self.value().is_zero())) ==> r.value() == integer_value(1),
            exp.operand_view().value() == integer_value(1) && !self.value().is_nan() ==> !r.value().is_nan()
                && numeric_order(r.value(), self.value()) == 0,
    {
        let e = exp.operand();
        d64::from_bits(pow_bits(self.bits(), e.bits(), MATH_PRECISION, MATH_MAX_EXPONENT, MATH_MIN_EXPONENT).0)
    }

    /// Returns _e_ raised to the power of `exp`, computed at 16 digits of precision and rounded
    /// to a d64. Finite results are inexact except when `exp` is a zero or –Infinity (giving 1 or
    /// 0 respectively).
    pub fn exp<O: DecimalOperand>(self, exp: O) -> (r: d64)
        ensures
            r.raw() == dec_exp(exp.operand_view().raw(), MATH_PRECISION, MATH_MAX_EXPONENT, MATH_MIN_EXPONENT),
            exp.operand_view().value().is_zero() ==> r.value() == integer_value(1),
            exp.operand_view().value() == (Decoded::Infinite { negative: true }) ==> r.value()
                == integer_value(0),
    {
        let e = exp.operand();
        d64::from_bits(exp_bits(e.bits(), MATH_PRECISION, MATH_MAX_EXPONENT, MATH_MIN_EXPONENT).0)
    }

    /// Returns the natural logarithm of `self`, which must be positive or a zero, computed at 16
    /// digits of precision and rounded to a d64. The result is exact (0) when `self` is 1.
    pub fn ln(self) -> (r: d64)
        ensures
            r.raw() == dec_ln(self.raw(), MATH_PRECISION, MATH_MAX_EXPONENT, MATH_MIN_EXPONENT),
            !self.value().is_nan() && numeric_order(self.value(), integer_value(1)) == 0
                ==> r.value().is_zero(),
    {
        d64::from_bits(ln_bits(self.bits(), MATH_PRECISION, MATH_MAX_EXPONENT, MATH_MIN_EXPONENT).0)
    }

    /// Returns the logarithm in base ten of `self`, which must be positive or a zero, computed at
    /// 16 digits of precision and rounded to a d64. The result is the exact integer when `self` is
    /// an integral power of ten.
    pub fn log10(self) -> (r: d64)
        ensures
            r.raw() == dec_log10(self.raw(), MATH_PRECISION, MATH_MAX_EXPONENT, MATH_MIN_EXPONENT),
            forall|j: nat|
                #![trigger crate::encoding::pow10(j)]
                match self.value() {
                    Decoded::Finite { negative, coefficient, exponent } => !negative && coefficient
                        == crate::encoding::pow10(j) ==> r.value() == integer_value(j + exponent),
                    _ => true,
                },
    {
        d64::from_bits(log10_bits(self.bits(), MATH_PRECISION, MATH_MAX_EXPONENT, MATH_MIN_EXPONENT).0)
    }

    /// Returns the ‘next’ d64 to `self` in the direction of `other` according to IEEE 754
    /// rules for nextAfter. If either operand is a NaN the result is as for arithmetic operations.
    pub fn towards<O: DecimalOperand>(self, other: O) -> (r: d64)
        ensures
            r.raw() == dec_next_toward(self.raw(), other.operand_view().raw()),
            propagates_nans(self.raw(), other.operand_view().raw(), r.raw()),
            next_toward_result(self.raw(), other.operand_view().raw(), r.raw()),
    {
        let o = other.operand();
        d64::from_bits(next_toward_bits(self.bits(), o.bits()).0)
    }

    /// Returns `self` set to have the same quantum as `other`, if possible (that is, numerically
    /// the same value but rounded or padded if necessary to have the same exponent as `other`, for
    /// example to round a monetary quantity to cents).
    pub fn quantize<O: DecimalOperand>(self, other: O) -> (r: d64)
        ensures
            r.raw() == dec_quantize(self.raw(), other.operand_view().raw()),
            propagates_nans(self.raw(), other.operand_view().raw(), r.raw()),
            quantize_result(self.raw(), other.operand_view().raw(), r.raw()),
    {
        let o = other.operand();
        d64::from_bits(quantize_bits(self.bits(), o.bits()).0)
    }

    /// Returns a copy of `self` with its coefficient reduced to its shortest possible form without
    /// changing the value of the result. This removes all possible trailing zeros from the
    /// coefficient (some may remain when the number is very close to the most positive or most
    /// negative number). Infinities and NaNs are unchanged (a NaN is made quiet). If `self` is a
    /// zero the result exponent is 0.
    pub fn reduce(self) -> (r: d64)
        ensures
            r.raw() == dec_reduce(self.raw()),
            self.value().is_nan() ==> r.value() == quiet(self.value()),
            self.value().is_infinite() ==> r.value() == self.value(),
            self.value().is_zero() ==> r.value() == (Decoded::Finite {
                negative: self.value().negative(),
                coefficient: 0,
                exponent: 0,
            }),
            self.value().is_finite() ==> r.value().is_finite() && r.value().negative()
                == self.value().negative() && numeric_order(r.value(), self.value()) == 0,
            self.value().is_finite() && !self.value().is_zero() ==> no_trailing_zeros(r.value()),
    {
        d64::from_bits(reduce_bits(self.bits()).0)
    }

    /// The result is a copy of `self` with the digits of the coefficient rotated to the left (if
    /// `amount` is positive) or to the right (if `amount` is negative) without adjusting the
    /// exponent or the sign of `self`. `amount` must be a finite integer in the range -16
    /// through +16. NaNs are propagated as usual.
    pub fn rotate<O: DecimalOperand>(self, amount: O) -> (r: d64)
        ensures
            r.raw() == dec_rotate(self.raw(), amount.operand_view().raw()),
            propagates_nans(self.raw(), amount.operand_view().raw(), r.raw()),
            rotate_result(self.raw(), amount.operand_view().raw(), r.raw()),
    {
        let a = amount.operand();
        d64::from_bits(rotate_bits(self.bits(), a.bits()).0)
    }

    /// This calculates `self` × 10<sup>`other`</sup> and returns the result. `other` must be an
    /// integer (finite with exponent=0). Underflow and overflow might occur. NaNs propagate as
    /// usual.
    pub fn scaleb<O: DecimalOperand>(self, other: O) -> (r: d64)
        ensures
            r.raw() == dec_scaleb(self.raw(), other.operand_view().raw()),
            propagates_nans(self.raw(), other.operand_view().raw(), r.raw()),
            scaleb_result(self.raw(), other.operand_view().raw(), r.raw()),
    {
        let o = other.operand();
        d64::from_bits(scaleb_bits(self.bits(), o.bits()).0)
    }

    // Copies.
    /// Returns `self` ensuring that the encoding is canonical: the same value, in its preferred
    /// encoding.
    pub fn canonical(self) -> (r: d64)
        ensures
            r.raw() == dec_canonical(self.raw()),
            r.value() == self.value(),
            is_canonical_enc(r.raw()),
            is_canonical_enc(self.raw()) ==> r == self,
    {
        d64::from_bits(canonical_bits(self.bits()))
    }

    /// The sum of `values`, added left to right from +0 as the `+` operator adds.
    /// A one-element sum is that element, numerically, where its exponent is
    /// at most 0 (so that adding it to +0 needs no rounding).
    pub fn sum(values: &[d64]) -> (r: d64)
        ensures
            r.raw() == sum_raw(values@),
            values@.len() == 1 && (values@[0].value() matches Decoded::Finite { exponent, .. }
                && exponent <= 0) ==> r.value().is_finite() && numeric_order(
                r.value(),
                values@[0].value(),
            ) == 0,
    {
        let mut acc = d64::zero();
        let mut i: usize = 0;
        while i < values.len()
            invariant
                i <= values.len(),
                acc.raw() == sum_raw(values@.take(i as int)),
                i >= 1 ==> sum_exact(
                    Decoded::Finite { negative: false, coefficient: 0, exponent: 0 },
                    values@[0].value(),
                    decode(sum_raw(values@.take(1))),
                ),
            decreases values.len() - i,
        {
            assert(values@.take(i + 1).drop_last() =~= values@.take(i as int));
            proof {
                if i == 0 {
                    crate::encoding::lemma_decode_constants();
                    assert(values@.take(0) =~= Seq::<d64>::empty());
                }
            }
            acc = acc + values[i];
            proof {
                if i == 0 {
                    assert(values@.take(1) =~= values@.take(i + 1));
                }
            }
            i = i + 1;
        }
        assert(values@.take(values.len() as int) =~= values@);
        proof {
            if values@.len() == 1 {
                crate::encoding::lemma_coefficient_bound(values@[0].raw());
                if let Decoded::Finite { exponent, .. } = values@[0].value() {
                    if exponent <= 0 {
                        lemma_zero_plus(values@[0].value(), acc.value());
                    }
                }
            }
        }
        acc
    }
}

/// Adding a number of exponent at most 0 to +0 gives that number,
/// numerically.
proof fn lemma_zero_plus(v: Decoded, r: Decoded)
    requires
        v matches Decoded::Finite { coefficient, exponent, .. } && exponent <= 0 && coefficient
            < pow10(16),
        sum_exact(Decoded::Finite { negative: false, coefficient: 0, exponent: 0 }, v, r),
    ensures
        r.is_finite(),
        numeric_order(r, v) == 0,
{
    lemma_pow10_values();
    if let Decoded::Finite { negative, coefficient, exponent } = v {
        let z = Decoded::Finite { negative: false, coefficient: 0, exponent: 0 };
        assert(min_exponent(0, exponent) == exponent);
        assert(0 * pow10((0 - exponent) as nat) == 0);
        assert(scaled(z, exponent) == 0);
        assert(coefficient * pow10(0) == coefficient);
        let t = crate::encoding::signum(negative) * coefficient;
        assert(scaled(v, exponent) == t);
        let fv = finite_value(t, exponent);
        assert(numeric_order(fv, v) == 0);
        crate::laws::law_numeric_order_transitive(r, fv, v);
    }
}

} // verus!
