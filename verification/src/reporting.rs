//! The operations of `d64` together with the status flags that decNumber
//! raises while performing them, for callers that keep a status register.
use vstd::prelude::*;
use crate::dec64::{d64, DecimalOperand};
use crate::status::Flags;
use crate::encoding::{ZERO_BITS, ALL_ONES_BITS, logical_enc, numeric_order, quiet, integer_amount, integer_value, pow10, Decoded, QNAN_BITS};
use crate::convert::parsed;
use crate::arith::{sum_raw, shift_digits, shift_raw, MATH_PRECISION, MATH_MAX_EXPONENT, MATH_MIN_EXPONENT};
use crate::bindings::{dec_add, dec_sub, dec_mul, dec_div, dec_rem, dec_quantize, dec_scaleb, dec_rotate, dec_next_toward, dec_max, dec_min, dec_abs, dec_minus, dec_logb, dec_next_plus, dec_next_minus, dec_reduce, dec_fma, dec_pow, dec_exp, dec_ln, dec_log10, dec_parse, dec_add_status, dec_sub_status, dec_mul_status, dec_div_status, dec_rem_status, dec_quantize_status, dec_scaleb_status, dec_rotate_status, dec_next_toward_status, dec_reduce_status, dec_fma_status, dec_pow_status, dec_exp_status, dec_ln_status, dec_log10_status, dec_parse_status, add_bits, sub_bits, mul_bits, div_bits, rem_bits, quantize_bits, scaleb_bits, rotate_bits, next_toward_bits, max_bits, min_bits, and_bits, or_bits, xor_bits, invert_bits, abs_bits, minus_bits, logb_bits, next_plus_bits, next_minus_bits, reduce_bits, fma_bits, pow_bits, exp_bits, ln_bits, log10_bits, parse_bits, propagates_nans, snan_signals, infinite_sum, quantize_result, scaleb_result, rotate_result, next_toward_result, chooses, logical_and, logical_or, logical_xor, logical_invert, no_trailing_zeros, next_up, next_down, sum_exact, product_exact, quotient_exact, remainder_exact, fma_exact};

verus! {

broadcast use {d64::lemma_raw_of_from_raw, d64::lemma_from_raw_of_raw};

/// The flags that adding up `s` left to right from +0 raises.
pub open spec fn sum_status(s: Seq<d64>) -> Flags
    decreases s.len(),
{
    if s.len() == 0 {
        Flags::none()
    } else {
        sum_status(s.drop_last()).join(dec_add_status(sum_raw(s.drop_last()), s.last().raw()))
    }
}

impl d64 {
    /// `self + other`, with the status flags that it raises.
    pub fn add_with_status<O: DecimalOperand>(self, other: O) -> (r: (d64, Flags))
        ensures
            r.0.raw() == dec_add(self.raw(), other.operand_view().raw()),
            sum_exact(self.value(), other.operand_view().value(), r.0.value()),
            r.1 == dec_add_status(self.raw(), other.operand_view().raw()),
            propagates_nans(self.raw(), other.operand_view().raw(), r.0.raw()),
            snan_signals(self.raw(), other.operand_view().raw(), r.1),
            infinite_sum(self.value(), other.operand_view().value(), r.0.raw()),
    {
        let o = other.operand();
        let (b, f) = add_bits(self.bits(), o.bits());
        (d64::from_bits(b), f)
    }

    /// `self - other`, with the status flags that it raises.
    pub fn sub_with_status<O: DecimalOperand>(self, other: O) -> (r: (d64, Flags))
        ensures
            r.0.raw() == dec_sub(self.raw(), other.operand_view().raw()),
            sum_exact(self.value(), other.operand_view().value().with_sign(!other.operand_view().value().negative()), r.0.value()),
            r.1 == dec_sub_status(self.raw(), other.operand_view().raw()),
            propagates_nans(self.raw(), other.operand_view().raw(), r.0.raw()),
            snan_signals(self.raw(), other.operand_view().raw(), r.1),
            infinite_sum(
                self.value(),
                other.operand_view().value().with_sign(!other.operand_view().value().negative()),
                r.0.raw(),
            ),
    {
        let o = other.operand();
        let (b, f) = sub_bits(self.bits(), o.bits());
        (d64::from_bits(b), f)
    }

    /// `self * other`, with the status flags that it raises.
    pub fn mul_with_status<O: DecimalOperand>(self, other: O) -> (r: (d64, Flags))
        ensures
            r.0.raw() == dec_mul(self.raw(), other.operand_view().raw()),
            product_exact(self.value(), other.operand_view().value(), r.0.value()),
            r.1 == dec_mul_status(self.raw(), other.operand_view().raw()),
            propagates_nans(self.raw(), other.operand_view().raw(), r.0.raw()),
            snan_signals(self.raw(), other.operand_view().raw(), r.1),
    {
        let o = other.operand();
        let (b, f) = mul_bits(self.bits(), o.bits());
        (d64::from_bits(b), f)
    }

    /// `self / other`, with the status flags that it raises.
    pub fn div_with_status<O: DecimalOperand>(self, other: O) -> (r: (d64, Flags))
        ensures
            r.0.raw() == dec_div(self.raw(), other.operand_view().raw()),
            quotient_exact(self.value(), other.operand_view().value(), r.0.value()),
            r.1 == dec_div_status(self.raw(), other.operand_view().raw()),
            propagates_nans(self.raw(), other.operand_view().raw(), r.0.raw()),
            snan_signals(self.raw(), other.operand_view().raw(), r.1),
            self.value().is_finite() && !self.value().is_zero() && other.operand_view().value().is_zero()
                ==> r.1.division_by_zero && r.0.value() == (Decoded::Infinite {
                negative: self.value().negative() != other.operand_view().value().negative(),
            }),
    {
        let o = other.operand();
        let (b, f) = div_bits(self.bits(), o.bits());
        (d64::from_bits(b), f)
    }

    /// `self % other`, with the status flags that it raises.
    pub fn rem_with_status<O: DecimalOperand>(self, other: O) -> (r: (d64, Flags))
        ensures
            r.0.raw() == dec_rem(self.raw(), other.operand_view().raw()),
            remainder_exact(self.value(), other.operand_view().value(), r.0.value()),
            r.1 == dec_rem_status(self.raw(), other.operand_view().raw()),
            propagates_nans(self.raw(), other.operand_view().raw(), r.0.raw()),
            snan_signals(self.raw(), other.operand_view().raw(), r.1),
    {
        let o = other.operand();
        let (b, f) = rem_bits(self.bits(), o.bits());
        (d64::from_bits(b), f)
    }

    /// `self.quantize(other)`, with the status flags that it raises.
    pub fn quantize_with_status<O: DecimalOperand>(self, other: O) -> (r: (d64, Flags))
        ensures
            r.0.raw() == dec_quantize(self.raw(), other.operand_view().raw()),
            r.1 == dec_quantize_status(self.raw(), other.operand_view().raw()),
            propagates_nans(self.raw(), other.operand_view().raw(), r.0.raw()),
            snan_signals(self.raw(), other.operand_view().raw(), r.1),
            quantize_result(self.raw(), other.operand_view().raw(), r.0.raw()),
    {
        let o = other.operand();
        let (b, f) = quantize_bits(self.bits(), o.bits());
        (d64::from_bits(b), f)
    }

    /// `self.scaleb(other)`, with the status flags that it raises.
    pub fn scaleb_with_status<O: DecimalOperand>(self, other: O) -> (r: (d64, Flags))
        ensures
            r.0.raw() == dec_scaleb(self.raw(), other.operand_view().raw()),
            r.1 == dec_scaleb_status(self.raw(), other.operand_view().raw()),
            propagates_nans(self.raw(), other.operand_view().raw(), r.0.raw()),
            snan_signals(self.raw(), other.operand_view().raw(), r.1),
            scaleb_result(self.raw(), other.operand_view().raw(), r.0.raw()),
            !self.value().is_nan() && !other.operand_view().value().is_nan() && integer_amount(
                other.operand_view().value(),
                800,
            ) is None ==> r.1.invalid_operation,
    {
        let o = other.operand();
        let (b, f) = scaleb_bits(self.bits(), o.bits());
        (d64::from_bits(b), f)
    }

    /// `self.rotate(other)`, with the status flags that it raises.
    pub fn rotate_with_status<O: DecimalOperand>(self, other: O) -> (r: (d64, Flags))
        ensures
            r.0.raw() == dec_rotate(self.raw(), other.operand_view().raw()),
            r.1 == dec_rotate_status(self.raw(), other.operand_view().raw()),
            propagates_nans(self.raw(), other.operand_view().raw(), r.0.raw()),
            snan_signals(self.raw(), other.operand_view().raw(), r.1),
            rotate_result(self.raw(), other.operand_view().raw(), r.0.raw()),
            !self.value().is_nan() && !other.operand_view().value().is_nan() && integer_amount(
                other.operand_view().value(),
                16,
            ) is None ==> r.1.invalid_operation,
    {
        let o = other.operand();
        let (b, f) = rotate_bits(self.bits(), o.bits());
        (d64::from_bits(b), f)
    }

    /// `self.towards(other)`, with the status flags that it raises.
    pub fn towards_with_status<O: DecimalOperand>(self, other: O) -> (r: (d64, Flags))
        ensures
            r.0.raw() == dec_next_toward(self.raw(), other.operand_view().raw()),
            r.1 == dec_next_toward_status(self.raw(), other.operand_view().raw()),
            propagates_nans(self.raw(), other.operand_view().raw(), r.0.raw()),
            snan_signals(self.raw(), other.operand_view().raw(), r.1),
            next_toward_result(self.raw(), other.operand_view().raw(), r.0.raw()),
    {
        let o = other.operand();
        let (b, f) = next_toward_bits(self.bits(), o.bits());
        (d64::from_bits(b), f)
    }

    /// `self.max(other)`, with the status flags that it raises.
    pub fn max_with_status<O: DecimalOperand>(self, other: O) -> (r: (d64, Flags))
        ensures
            r.0.raw() == dec_max(self.raw(), other.operand_view().raw()),
            r.1 == Flags::invalid_when(self.value().is_signaling() || other.operand_view().value().is_signaling()),
            chooses(
                self.raw(),
                other.operand_view().raw(),
                r.0.raw(),
                crate::encoding::total_order(self.value(), other.operand_view().value()) >= 0,
            ),
    {
        let o = other.operand();
        let (b, f) = max_bits(self.bits(), o.bits());
        (d64::from_bits(b), f)
    }

    /// `self.min(other)`, with the status flags that it raises.
    pub fn min_with_status<O: DecimalOperand>(self, other: O) -> (r: (d64, Flags))
        ensures
            r.0.raw() == dec_min(self.raw(), other.operand_view().raw()),
            r.1 == Flags::invalid_when(self.value().is_signaling() || other.operand_view().value().is_signaling()),
            chooses(
                self.raw(),
                other.operand_view().raw(),
                r.0.raw(),
                crate::encoding::total_order(self.value(), other.operand_view().value()) <= 0,
            ),
    {
        let o = other.operand();
        let (b, f) = min_bits(self.bits(), o.bits());
        (d64::from_bits(b), f)
    }

    /// `self & other`, with the status flags that it raises.
    pub fn bitand_with_status<O: DecimalOperand>(self, other: O) -> (r: (d64, Flags))
        ensures
            r.0.raw() == logical_and(self.raw(), other.operand_view().raw()),
            logical_enc(self.raw()) && logical_enc(other.operand_view().raw()) && (self.raw() == ZERO_BITS || other.operand_view().raw() == ZERO_BITS) ==> r.0.raw() == ZERO_BITS,
            logical_enc(self.raw()) && self.raw() == other.operand_view().raw() ==> r.0.raw() == self.raw(),
            !(logical_enc(self.raw()) && logical_enc(other.operand_view().raw())) ==> r.0.raw() == QNAN_BITS,
            r.1 == Flags::invalid_when(!(logical_enc(self.raw()) && logical_enc(other.operand_view().raw()))),
    {
        let o = other.operand();
        proof {
            crate::laws::law_logical_identities(self.raw(), o.raw());
        }
        let (b, f) = and_bits(self.bits(), o.bits());
        (d64::from_bits(b), f)
    }

    /// `self | other`, with the status flags that it raises.
    pub fn bitor_with_status<O: DecimalOperand>(self, other: O) -> (r: (d64, Flags))
        ensures
            r.0.raw() == logical_or(self.raw(), other.operand_view().raw()),
            logical_enc(other.operand_view().raw()) && self.raw() == ZERO_BITS ==> r.0.raw() == other.operand_view().raw(),
            logical_enc(self.raw()) && other.operand_view().raw() == ZERO_BITS ==> r.0.raw() == self.raw(),
            logical_enc(self.raw()) && self.raw() == other.operand_view().raw() ==> r.0.raw() == self.raw(),
            !(logical_enc(self.raw()) && logical_enc(other.operand_view().raw())) ==> r.0.raw() == QNAN_BITS,
            r.1 == Flags::invalid_when(!(logical_enc(self.raw()) && logical_enc(other.operand_view().raw()))),
    {
        let o = other.operand();
        proof {
            crate::laws::law_logical_identities(self.raw(), o.raw());
        }
        let (b, f) = or_bits(self.bits(), o.bits());
        (d64::from_bits(b), f)
    }

    /// `self ^ other`, with the status flags that it raises.
    pub fn bitxor_with_status<O: DecimalOperand>(self, other: O) -> (r: (d64, Flags))
        ensures
            r.0.raw() == logical_xor(self.raw(), other.operand_view().raw()),
            logical_enc(other.operand_view().raw()) && self.raw() == ZERO_BITS ==> r.0.raw() == other.operand_view().raw(),
            logical_enc(self.raw()) && other.operand_view().raw() == ZERO_BITS ==> r.0.raw() == self.raw(),
            logical_enc(self.raw()) && self.raw() == other.operand_view().raw() ==> r.0.raw() == ZERO_BITS,
            !(logical_enc(self.raw()) && logical_enc(other.operand_view().raw())) ==> r.0.raw() == QNAN_BITS,
            r.1 == Flags::invalid_when(!(logical_enc(self.raw()) && logical_enc(other.operand_view().raw()))),
    {
        let o = other.operand();
        proof {
            crate::laws::law_logical_identities(self.raw(), o.raw());
        }
        let (b, f) = xor_bits(self.bits(), o.bits());
        (d64::from_bits(b), f)
    }

    /// `self.abs()`, with the status flags that it raises.
    pub fn abs_with_status(self) -> (r: (d64, Flags))
        ensures
            r.0.raw() == dec_abs(self.raw()),
            r.1 == Flags::invalid_when(self.value().is_signaling()),
            r.0.value() == crate::encoding::abs_value(self.value()),
    {
        let (b, f) = abs_bits(self.bits());
        (d64::from_bits(b), f)
    }

    /// `-self`, with the status flags that it raises.
    pub fn neg_with_status(self) -> (r: (d64, Flags))
        ensures
            r.0.raw() == dec_minus(self.raw()),
            r.1 == Flags::invalid_when(self.value().is_signaling()),
            r.0.value() == crate::encoding::minus_value(self.value()),
    {
        let (b, f) = minus_bits(self.bits());
        (d64::from_bits(b), f)
    }

    /// `self.logb()`, with the status flags that it raises.
    pub fn logb_with_status(self) -> (r: (d64, Flags))
        ensures
            r.0.raw() == dec_logb(self.raw()),
            r.1 == (Flags {
                invalid_operation: self.value().is_signaling(),
                division_by_zero: self.value().is_zero(),
                ..Flags::none()
            }),
            self.value().is_zero() ==> r.1.division_by_zero && r.0.value() == (Decoded::Infinite {
                negative: true,
            }),
    {
        let (b, f) = logb_bits(self.bits());
        (d64::from_bits(b), f)
    }

    /// `self.next()`, with the status flags that it raises.
    pub fn next_with_status(self) -> (r: (d64, Flags))
        ensures
            r.0.raw() == dec_next_plus(self.raw()),
            r.1 == Flags::invalid_when(self.value().is_signaling()),
            self.value().is_nan() ==> r.0.value() == quiet(self.value()),
            !self.value().is_nan() && self.value() != (Decoded::Infinite { negative: false })
                ==> next_up(self.value(), r.0.value()),
    {
        let (b, f) = next_plus_bits(self.bits());
        (d64::from_bits(b), f)
    }

    /// `self.previous()`, with the status flags that it raises.
    pub fn previous_with_status(self) -> (r: (d64, Flags))
        ensures
            r.0.raw() == dec_next_minus(self.raw()),
            r.1 == Flags::invalid_when(self.value().is_signaling()),
            self.value().is_nan() ==> r.0.value() == quiet(self.value()),
            !self.value().is_nan() && self.value() != (Decoded::Infinite { negative: true })
                ==> next_down(self.value(), r.0.value()),
    {
        let (b, f) = next_minus_bits(self.bits());
        (d64::from_bits(b), f)
    }

    /// `self.reduce()`, with the status flags that it raises.
    pub fn reduce_with_status(self) -> (r: (d64, Flags))
        ensures
            r.0.raw() == dec_reduce(self.raw()),
            r.1 == dec_reduce_status(self.raw()),
            self.value().is_finite() && !self.value().is_zero() ==> no_trailing_zeros(r.0.value()),
    {
        let (b, f) = reduce_bits(self.bits());
        (d64::from_bits(b), f)
    }

    /// `!self`, with the status flags that it raises.
    pub fn not_with_status(self) -> (r: (d64, Flags))
        ensures
            r.0.raw() == logical_invert(self.raw()),
            self.raw() == ZERO_BITS ==> r.0.raw() == ALL_ONES_BITS,
            self.raw() == ALL_ONES_BITS ==> r.0.raw() == ZERO_BITS,
            !logical_enc(self.raw()) ==> r.0.raw() == QNAN_BITS,
            r.1 == Flags::invalid_when(!logical_enc(self.raw())),
    {
        proof {
            crate::laws::law_logical_identities(self.raw(), self.raw());
        }
        let (b, f) = invert_bits(self.bits());
        (d64::from_bits(b), f)
    }

    /// `self.mul_add(a, b)`, with the status flags that it raises.
    pub fn mul_add_with_status<O: DecimalOperand>(self, a: O, b: O) -> (r: (d64, Flags))
        ensures
            r.0.raw() == dec_fma(self.raw(), a.operand_view().raw(), b.operand_view().raw()),
            fma_exact(self.value(), a.operand_view().value(), b.operand_view().value(), r.0.value()),
            r.1 == dec_fma_status(self.raw(), a.operand_view().raw(), b.operand_view().raw()),
    {
        let x = a.operand();
        let y = b.operand();
        let (v, f) = fma_bits(self.bits(), x.bits(), y.bits());
        (d64::from_bits(v), f)
    }

    /// `self.pow(exp)`, with the status flags that it raises.
    pub fn pow_with_status<O: DecimalOperand>(self, exp: O) -> (r: (d64, Flags))
        ensures
            r.0.raw() == dec_pow(self.raw(), exp.operand_view().raw(), MATH_PRECISION, MATH_MAX_EXPONENT, MATH_MIN_EXPONENT),
            exp.operand_view().value().is_zero() && (self.value().is_infinite() || (self.value().is_finite()
                && !self.value().is_zero())) ==> r.0.value() == integer_value(1),
            exp.operand_view().value() == integer_value(1) && !self.value().is_nan() ==> !r.0.value().is_nan()
                && numeric_order(r.0.value(), self.value()) == 0,
            r.1 == dec_pow_status(self.raw(), exp.operand_view().raw(), MATH_PRECISION, MATH_MAX_EXPONENT, MATH_MIN_EXPONENT),
    {
        let e = exp.operand();
        let (v, f) = pow_bits(self.bits(), e.bits(), MATH_PRECISION, MATH_MAX_EXPONENT, MATH_MIN_EXPONENT);
        (d64::from_bits(v), f)
    }

    /// `self.exp(exp)`: _e_ raised to `exp`, with the status flags that it
    /// raises; exact, with no flag, for a zero or -Infinity.
    pub fn exp_with_status<O: DecimalOperand>(self, exp: O) -> (r: (d64, Flags))
        ensures
            r.0.raw() == dec_exp(exp.operand_view().raw(), MATH_PRECISION, MATH_MAX_EXPONENT, MATH_MIN_EXPONENT),
            r.1 == dec_exp_status(exp.operand_view().raw(), MATH_PRECISION, MATH_MAX_EXPONENT, MATH_MIN_EXPONENT),
            exp.operand_view().value().is_zero() ==> r.0.value() == integer_value(1) && r.1
                == Flags::none(),
            exp.operand_view().value() == (Decoded::Infinite { negative: true }) ==> r.0.value()
                == integer_value(0) && r.1 == Flags::none(),
    {
        let e = exp.operand();
        let (v, f) = exp_bits(e.bits(), MATH_PRECISION, MATH_MAX_EXPONENT, MATH_MIN_EXPONENT);
        (d64::from_bits(v), f)
    }

    /// `self.ln()`, with the status flags that it raises; exactly zero, and not
    /// inexact, for an operand equal to 1.
    pub fn ln_with_status(self) -> (r: (d64, Flags))
        ensures
            r.0.raw() == dec_ln(self.raw(), MATH_PRECISION, MATH_MAX_EXPONENT, MATH_MIN_EXPONENT),
            r.1 == dec_ln_status(self.raw(), MATH_PRECISION, MATH_MAX_EXPONENT, MATH_MIN_EXPONENT),
            !self.value().is_nan() && numeric_order(self.value(), integer_value(1)) == 0
                ==> r.0.value().is_zero() && !r.1.inexact,
    {
        let (v, f) = ln_bits(self.bits(), MATH_PRECISION, MATH_MAX_EXPONENT, MATH_MIN_EXPONENT);
        (d64::from_bits(v), f)
    }

    /// `self.log10()`, with the status flags that it raises; an integral
    /// power of ten gives the exact integer and no flag.
    pub fn log10_with_status(self) -> (r: (d64, Flags))
        ensures
            r.0.raw() == dec_log10(self.raw(), MATH_PRECISION, MATH_MAX_EXPONENT, MATH_MIN_EXPONENT),
            r.1 == dec_log10_status(self.raw(), MATH_PRECISION, MATH_MAX_EXPONENT, MATH_MIN_EXPONENT),
            forall|j: nat|
                #![trigger pow10(j)]
                match self.value() {
                    Decoded::Finite { negative, coefficient, exponent } => !negative && coefficient
                        == pow10(j) ==> r.0.value() == integer_value(j + exponent) && r.1
                        == Flags::none(),
                    _ => true,
                },
    {
        let (v, f) = log10_bits(self.bits(), MATH_PRECISION, MATH_MAX_EXPONENT, MATH_MIN_EXPONENT);
        (d64::from_bits(v), f)
    }

    /// `self << amount`, with the status flags that it raises: none for an
    /// amount of at most 34, invalid operation beyond, or from a signaling NaN.
    pub fn shl_with_status(self, amount: usize) -> (r: (d64, Flags))
        ensures
            r.0.raw() == shift_raw(self.raw(), amount, true),
            !self.value().is_nan() && amount <= 34 ==> r.1 == Flags::none(),
            !self.value().is_nan() && amount > 34 ==> r.1.invalid_operation && r.0.raw() == QNAN_BITS,
            self.value().is_signaling() ==> r.1.invalid_operation,
    {
        shift_digits(self, amount, true)
    }

    /// `self >> amount`, with the status flags that it raises, as for `shl_with_status`.
    pub fn shr_with_status(self, amount: usize) -> (r: (d64, Flags))
        ensures
            r.0.raw() == shift_raw(self.raw(), amount, false),
            !self.value().is_nan() && amount <= 34 ==> r.1 == Flags::none(),
            !self.value().is_nan() && amount > 34 ==> r.1.invalid_operation && r.0.raw() == QNAN_BITS,
            self.value().is_signaling() ==> r.1.invalid_operation,
    {
        shift_digits(self, amount, false)
    }

    /// `d64::from_str(s)`, with the status flags that the conversion raises.
    /// A string that is not a number in the syntax of the General Decimal
    /// Arithmetic, a NUL in it included, gives a quiet NaN and raises the
    /// conversion-syntax flag.
    pub fn from_str_with_status(s: &str) -> (r: (d64, Flags))
        ensures
            r.0.raw() == parsed(s@),
            dec_parse(s@) is None ==> r.1 == dec_parse_status(s@).join(Flags::syntax_error()),
            dec_parse(s@) is Some ==> r.1 == dec_parse_status(s@),
            s@.contains('\0') ==> r.1.conversion_syntax && r.0.raw() == QNAN_BITS,
            r.1.conversion_syntax <==> dec_parse(s@) is None,
    {
        let (p, f) = parse_bits(s);
        match p {
            Some(b) => (d64::from_bits(b), f),
            None => (d64::from_bits(QNAN_BITS), f.union(Flags::syntax_flag())),
        }
    }

    /// `d64::sum(values)`, with the status flags that the additions raise.
    pub fn sum_with_status(values: &[d64]) -> (r: (d64, Flags))
        ensures
            r.0.raw() == sum_raw(values@),
            r.1 == sum_status(values@),
    {
        let mut acc = d64::zero();
        let mut flags = Flags::empty();
        let mut i: usize = 0;
        while i < values.len()
            invariant
                i <= values.len(),
                acc.raw() == sum_raw(values@.take(i as int)),
                flags == sum_status(values@.take(i as int)),
            decreases values.len() - i,
        {
            assert(values@.take(i + 1).drop_last() =~= values@.take(i as int));
            let (b, f) = add_bits(acc.bits(), values[i].bits());
            acc = d64::from_bits(b);
            flags = flags.union(f);
            i = i + 1;
        }
        assert(values@.take(values.len() as int) =~= values@);
        (acc, flags)
    }
}

} // verus!
