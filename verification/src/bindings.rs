//! The calls into libdecNumber, through the `dec` crate.
//!
//! Every function here takes and returns decimal64 encodings as `u64` words
//! (the little-endian reading of the eight bytes) and runs the operation in a
//! fresh `dec::Context::<Decimal64>::default()`: 16 digits, exponents -383
//! to 384, half-even rounding, no traps. The operations that run in a
//! context return, beside the result, the status flags that the context holds
//! afterwards. Where the decNumber sources state the result or a flag in a
//! few lines, the contract says so; the rest of what an operation returns is
//! named by an uninterpreted function of its arguments.
use vstd::prelude::*;
use crate::encoding::{is_numeral, digits_value, scaled, finite_value, signum, decode, numeric_order, quantized, integer_amount, shifted, rotated, pow10, abs_value, minus_value, is_canonical_enc, integer_value, nan_result, quiet, logical_enc, Decoded, ZERO_BITS, QNAN_BITS, LOGICAL_DIGIT_BITS};
use dec::{Context, Decimal, Decimal64};
use crate::status::{Flags, status_flags};

verus! {

/// What `decDoubleAdd` returns for two encodings.
pub uninterp spec fn dec_add(a: u64, b: u64) -> u64;

/// What `decDoubleSubtract` returns.
pub uninterp spec fn dec_sub(a: u64, b: u64) -> u64;

/// What `decDoubleMultiply` returns.
pub uninterp spec fn dec_mul(a: u64, b: u64) -> u64;

/// What `decDoubleDivide` returns.
pub uninterp spec fn dec_div(a: u64, b: u64) -> u64;

/// What `decDoubleRemainder` returns.
pub uninterp spec fn dec_rem(a: u64, b: u64) -> u64;

/// What `decDoubleFMA` returns for `a * b + c`.
pub uninterp spec fn dec_fma(a: u64, b: u64, c: u64) -> u64;

/// What `decDoubleQuantize` returns.
pub uninterp spec fn dec_quantize(a: u64, b: u64) -> u64;

/// What `decDoubleScaleB` returns.
pub uninterp spec fn dec_scaleb(a: u64, b: u64) -> u64;

/// What `decDoubleRotate` returns.
pub uninterp spec fn dec_rotate(a: u64, b: u64) -> u64;

/// What `decDoubleShift` returns.
pub uninterp spec fn dec_shift(a: u64, b: u64) -> u64;

/// What `decDoubleNextToward` returns.
pub uninterp spec fn dec_next_toward(a: u64, b: u64) -> u64;

/// What `decDoubleNextPlus` returns.
pub uninterp spec fn dec_next_plus(a: u64) -> u64;

/// What `decDoubleNextMinus` returns.
pub uninterp spec fn dec_next_minus(a: u64) -> u64;

/// What `decDoubleReduce` returns.
pub uninterp spec fn dec_reduce(a: u64) -> u64;

/// What `decDoubleCanonical` returns.
pub uninterp spec fn dec_canonical(a: u64) -> u64;

/// What `decDoubleAbs` returns.
pub uninterp spec fn dec_abs(a: u64) -> u64;

/// What `decDoubleMinus` returns.
pub uninterp spec fn dec_minus(a: u64) -> u64;

/// What `decDoubleLogB` returns.
pub uninterp spec fn dec_logb(a: u64) -> u64;

/// What `decDoubleMax` returns.
pub uninterp spec fn dec_max(a: u64, b: u64) -> u64;

/// What `decDoubleMin` returns.
pub uninterp spec fn dec_min(a: u64, b: u64) -> u64;

/// What `decDoubleFromInt32` returns.
pub uninterp spec fn dec_from_i32(n: i32) -> u64;

/// What `decDoubleFromUInt32` returns.
pub uninterp spec fn dec_from_u32(n: u32) -> u64;

/// What `dec::Context::<Decimal64>::parse` returns for a string: the
/// encoding that `decDoubleFromString` makes, or nothing where it reports a
/// syntax error or the string holds a NUL.
pub uninterp spec fn dec_parse(s: Seq<char>) -> Option<u64>;

/// The status flags that `decDoubleFromString` raises for a string.
pub uninterp spec fn dec_parse_status(s: Seq<char>) -> Flags;

/// The text that `decDoubleToString` writes for an encoding.
pub uninterp spec fn dec_to_string(a: u64) -> Seq<char>;

/// The text that `decDoubleToEngString` writes for an encoding.
pub uninterp spec fn dec_to_eng_string(a: u64) -> Seq<char>;

/// What `decNumberPower` gives in a context of `precision` digits and the
/// exponent limits given, rounded to decimal64.
pub uninterp spec fn dec_pow(a: u64, b: u64, precision: usize, max_exponent: isize, min_exponent: isize) -> u64;

/// What `decNumberExp` gives at `precision` digits, rounded to decimal64.
pub uninterp spec fn dec_exp(a: u64, precision: usize, max_exponent: isize, min_exponent: isize) -> u64;

/// What `decNumberLn` gives at `precision` digits, rounded to decimal64.
pub uninterp spec fn dec_ln(a: u64, precision: usize, max_exponent: isize, min_exponent: isize) -> u64;

/// What `decNumberLog10` gives at `precision` digits, rounded to decimal64.
pub uninterp spec fn dec_log10(a: u64, precision: usize, max_exponent: isize, min_exponent: isize) -> u64;

/// The status flags that the operation behind `dec_add` raises.
pub uninterp spec fn dec_add_status(a: u64, b: u64) -> Flags;

/// The status flags that the operation behind `dec_sub` raises.
pub uninterp spec fn dec_sub_status(a: u64, b: u64) -> Flags;

/// The status flags that the operation behind `dec_mul` raises.
pub uninterp spec fn dec_mul_status(a: u64, b: u64) -> Flags;

/// The status flags that the operation behind `dec_div` raises.
pub uninterp spec fn dec_div_status(a: u64, b: u64) -> Flags;

/// The status flags that the operation behind `dec_rem` raises.
pub uninterp spec fn dec_rem_status(a: u64, b: u64) -> Flags;

/// The status flags that the operation behind `dec_fma` raises.
pub uninterp spec fn dec_fma_status(a: u64, b: u64, c: u64) -> Flags;

/// The status flags that the operation behind `dec_quantize` raises.
pub uninterp spec fn dec_quantize_status(a: u64, b: u64) -> Flags;

/// The status flags that the operation behind `dec_scaleb` raises.
pub uninterp spec fn dec_scaleb_status(a: u64, b: u64) -> Flags;

/// The status flags that the operation behind `dec_rotate` raises.
pub uninterp spec fn dec_rotate_status(a: u64, b: u64) -> Flags;

/// The status flags that the operation behind `dec_shift` raises.
pub uninterp spec fn dec_shift_status(a: u64, b: u64) -> Flags;

/// The status flags that the operation behind `dec_next_toward` raises.
pub uninterp spec fn dec_next_toward_status(a: u64, b: u64) -> Flags;

/// The status flags that the operation behind `dec_reduce` raises.
pub uninterp spec fn dec_reduce_status(a: u64) -> Flags;

/// The status flags that the operation behind `dec_pow` raises.
pub uninterp spec fn dec_pow_status(a: u64, b: u64, precision: usize, max_exponent: isize, min_exponent: isize) -> Flags;

/// The status flags that the operation behind `dec_exp` raises.
pub uninterp spec fn dec_exp_status(a: u64, precision: usize, max_exponent: isize, min_exponent: isize) -> Flags;

/// The status flags that the operation behind `dec_ln` raises.
pub uninterp spec fn dec_ln_status(a: u64, precision: usize, max_exponent: isize, min_exponent: isize) -> Flags;

/// The status flags that the operation behind `dec_log10` raises.
pub uninterp spec fn dec_log10_status(a: u64, precision: usize, max_exponent: isize, min_exponent: isize) -> Flags;

/// A signaling NaN operand raises the invalid-operation flag (decNaNs).
pub open spec fn snan_signals(a: u64, b: u64, st: Flags) -> bool {
    (decode(a).is_signaling() || decode(b).is_signaling()) ==> st.invalid_operation
}

/// The smaller of two exponents.
pub open spec fn min_exponent(a: int, b: int) -> int {
    if a < b {
        a
    } else {
        b
    }
}

/// `r` is, numerically, the exact sum of the finite numbers `x` and `y`,
/// where that sum needs at most sixteen digits at the smaller exponent of
/// the two (an exact result is never rounded).
pub open spec fn sum_exact(x: Decoded, y: Decoded, r: Decoded) -> bool {
    match (x, y) {
        (Decoded::Finite { exponent: ex, .. }, Decoded::Finite { exponent: ey, .. }) => {
            let m = min_exponent(ex, ey);
            let t = scaled(x, m) + scaled(y, m);
            -pow10(16) < t < pow10(16) ==> r.is_finite() && numeric_order(r, finite_value(t, m)) == 0
        },
        _ => true,
    }
}

/// `r` is, numerically, the exact product of the finite numbers `x` and
/// `y`, where that product needs at most sixteen digits at the sum of their
/// exponents and that exponent lies in the format's range.
pub open spec fn product_exact(x: Decoded, y: Decoded, r: Decoded) -> bool {
    match (x, y) {
        (
            Decoded::Finite { negative: nx, coefficient: cx, exponent: ex },
            Decoded::Finite { negative: ny, coefficient: cy, exponent: ey },
        ) => {
            let p = signum(nx) * signum(ny) * (cx * cy);
            -pow10(16) < p < pow10(16) && -398 <= ex + ey <= 369 ==> r.is_finite()
                && numeric_order(r, finite_value(p, ex + ey)) == 0
        },
        _ => true,
    }
}

/// `r` is, numerically, the quotient of the finite numbers `x` and `y`
/// where that quotient is an integer of at most sixteen digits.
pub open spec fn quotient_exact(x: Decoded, y: Decoded, r: Decoded) -> bool {
    match (x, y) {
        (Decoded::Finite { exponent: ex, .. }, Decoded::Finite { exponent: ey, .. }) => {
            let m = min_exponent(ex, ey);
            let a = scaled(x, m);
            let b = scaled(y, m);
            b != 0 && a % b == 0 && -pow10(16) < a / b < pow10(16) ==> r.is_finite()
                && numeric_order(r, finite_value(a / b, 0)) == 0
        },
        _ => true,
    }
}

/// `r` is, numerically, the remainder of the finite numbers `x` and `y`
/// after an integer division truncated toward zero (the remainder takes the
/// sign of `x`), where the integer quotient needs at most sixteen digits.
pub open spec fn remainder_exact(x: Decoded, y: Decoded, r: Decoded) -> bool {
    match (x, y) {
        (Decoded::Finite { exponent: ex, .. }, Decoded::Finite { exponent: ey, .. }) => {
            let m = min_exponent(ex, ey);
            let a = scaled(x, m);
            let b = scaled(y, m);
            let ma = if a < 0 {
                -a
            } else {
                a
            };
            let mb = if b < 0 {
                -b
            } else {
                b
            };
            b != 0 && ma / mb < pow10(16) ==> r.is_finite() && numeric_order(
                r,
                finite_value(if a < 0 { -(ma % mb) } else { ma % mb }, m),
            ) == 0
        },
        _ => true,
    }
}

/// `r` is, numerically, the exact value of `x * y + z` for finite operands,
/// where it needs at most sixteen digits at the smaller of the product's
/// exponent and `z`'s, and that exponent lies in the format's range.
pub open spec fn fma_exact(x: Decoded, y: Decoded, z: Decoded, r: Decoded) -> bool {
    match (x, y, z) {
        (
            Decoded::Finite { negative: nx, coefficient: cx, exponent: ex },
            Decoded::Finite { negative: ny, coefficient: cy, exponent: ey },
            Decoded::Finite { exponent: ez, .. },
        ) => {
            let m = min_exponent(ex + ey, ez);
            let p = finite_value(signum(nx) * signum(ny) * (cx * cy), ex + ey);
            let t = scaled(p, m) + scaled(z, m);
            -398 <= m && -pow10(16) < t < pow10(16) ==> r.is_finite() && numeric_order(
                r,
                finite_value(t, m),
            ) == 0
        },
        _ => true,
    }
}

/// A binary operation that propagates NaNs the usual way (decNaNs): if an
/// operand is a NaN the result is `nan_result` of the operands.
pub open spec fn propagates_nans(a: u64, b: u64, r: u64) -> bool {
    (decode(a).is_nan() || decode(b).is_nan()) ==> decode(r) == nan_result(decode(a), decode(b))
}

/// What decFloatQuantize gives for two numbers: two infinities give the
/// first, one infinity the quiet NaN, two finite numbers `quantized` (the
/// quiet NaN where that needs more than sixteen digits).
pub open spec fn quantize_result(a: u64, b: u64, r: u64) -> bool {
    let x = decode(a);
    let y = decode(b);
    !x.is_nan() && !y.is_nan() ==> if x.is_infinite() && y.is_infinite() {
        decode(r) == x
    } else if x.is_infinite() || y.is_infinite() {
        r == QNAN_BITS
    } else {
        match quantized(x, y) {
            Some(v) => decode(r) == v,
            None => r == QNAN_BITS,
        }
    }
}

/// What decFloatShift gives for two numbers: the quiet NaN unless the
/// amount is an integer of magnitude at most 16; an infinity unchanged;
/// else `shifted`.
pub open spec fn shift_result(a: u64, b: u64, r: u64) -> bool {
    !decode(a).is_nan() && !decode(b).is_nan() ==> match integer_amount(decode(b), 16) {
        Some(n) => decode(r) == shifted(decode(a), n),
        None => r == QNAN_BITS,
    }
}

/// What decFloatRotate gives for two numbers: as `shift_result`, with
/// `rotated`.
pub open spec fn rotate_result(a: u64, b: u64, r: u64) -> bool {
    !decode(a).is_nan() && !decode(b).is_nan() ==> match integer_amount(decode(b), 16) {
        Some(n) => decode(r) == rotated(decode(a), n),
        None => r == QNAN_BITS,
    }
}

/// What decFloatScaleB gives for two numbers: the quiet NaN unless the
/// amount is an integer of magnitude at most 800; an infinity unchanged; a
/// finite number whose new exponent needs no rounding or clamping keeps its
/// coefficient with the exponent moved by the amount.
pub open spec fn scaleb_result(a: u64, b: u64, r: u64) -> bool {
    !decode(a).is_nan() && !decode(b).is_nan() ==> match integer_amount(decode(b), 800) {
        Some(n) => match decode(a) {
            Decoded::Finite { negative, coefficient, exponent } => -398 <= exponent + n <= 369
                ==> decode(r) == (Decoded::Finite { negative, coefficient, exponent: exponent + n }),
            _ => decode(r) == decode(a),
        },
        None => r == QNAN_BITS,
    }
}

/// What decFloatNextToward gives for two numbers: the first with the sign of
/// the second where they are equal, else a number strictly beyond the first
/// in the direction of the second.
pub open spec fn next_toward_result(a: u64, b: u64, r: u64) -> bool {
    let x = decode(a);
    let y = decode(b);
    !x.is_nan() && !y.is_nan() ==> if numeric_order(x, y) == 0 {
        decode(r) == x.with_sign(y.negative())
    } else {
        !decode(r).is_nan() && numeric_order(decode(r), x) == -numeric_order(x, y)
    }
}

/// `decDoubleAdd` (via `Context::add`); a NaN operand propagates.
#[verifier::external_body]
pub(crate) fn add_bits(a: u64, b: u64) -> (r: (u64, Flags))
    ensures
        r.0 == dec_add(a, b),
        sum_exact(decode(a), decode(b), decode(r.0)),
        propagates_nans(a, b, r.0),
        snan_signals(a, b, r.1),
        infinite_sum(decode(a), decode(b), r.0),
        r.1 == dec_add_status(a, b),
{
    let mut cx = Context::<Decimal64>::default();
    let x = cx.add(Decimal64::from_le_bytes(a.to_le_bytes()), Decimal64::from_le_bytes(b.to_le_bytes()));
    (u64::from_le_bytes(x.to_le_bytes()), status_flags(cx.status()))
}

/// `decDoubleSubtract` (via `Context::sub`); a NaN operand propagates.
#[verifier::external_body]
pub(crate) fn sub_bits(a: u64, b: u64) -> (r: (u64, Flags))
    ensures
        r.0 == dec_sub(a, b),
        sum_exact(decode(a), decode(b).with_sign(!decode(b).negative()), decode(r.0)),
        propagates_nans(a, b, r.0),
        snan_signals(a, b, r.1),
        infinite_sum(decode(a), decode(b).with_sign(!decode(b).negative()), r.0),
        r.1 == dec_sub_status(a, b),
{
    let mut cx = Context::<Decimal64>::default();
    let x = cx.sub(Decimal64::from_le_bytes(a.to_le_bytes()), Decimal64::from_le_bytes(b.to_le_bytes()));
    (u64::from_le_bytes(x.to_le_bytes()), status_flags(cx.status()))
}

/// `decDoubleMultiply` (via `Context::mul`); a NaN operand propagates.
#[verifier::external_body]
pub(crate) fn mul_bits(a: u64, b: u64) -> (r: (u64, Flags))
    ensures
        r.0 == dec_mul(a, b),
        product_exact(decode(a), decode(b), decode(r.0)),
        propagates_nans(a, b, r.0),
        snan_signals(a, b, r.1),
        r.1 == dec_mul_status(a, b),
{
    let mut cx = Context::<Decimal64>::default();
    let x = cx.mul(Decimal64::from_le_bytes(a.to_le_bytes()), Decimal64::from_le_bytes(b.to_le_bytes()));
    (u64::from_le_bytes(x.to_le_bytes()), status_flags(cx.status()))
}

/// `decDoubleDivide` (via `Context::div`); a NaN operand propagates.
#[verifier::external_body]
pub(crate) fn div_bits(a: u64, b: u64) -> (r: (u64, Flags))
    ensures
        r.0 == dec_div(a, b),
        quotient_exact(decode(a), decode(b), decode(r.0)),
        propagates_nans(a, b, r.0),
        snan_signals(a, b, r.1),
        r.1 == dec_div_status(a, b),
        decode(a).is_finite() && !decode(a).is_zero() && decode(b).is_zero() ==> r.1.division_by_zero
            && decode(r.0) == (Decoded::Infinite {
            negative: decode(a).negative() != decode(b).negative(),
        }),
{
    let mut cx = Context::<Decimal64>::default();
    let x = cx.div(Decimal64::from_le_bytes(a.to_le_bytes()), Decimal64::from_le_bytes(b.to_le_bytes()));
    (u64::from_le_bytes(x.to_le_bytes()), status_flags(cx.status()))
}

/// `decDoubleRemainder` (via `Context::rem`); a NaN operand propagates.
#[verifier::external_body]
pub(crate) fn rem_bits(a: u64, b: u64) -> (r: (u64, Flags))
    ensures
        r.0 == dec_rem(a, b),
        remainder_exact(decode(a), decode(b), decode(r.0)),
        propagates_nans(a, b, r.0),
        snan_signals(a, b, r.1),
        r.1 == dec_rem_status(a, b),
{
    let mut cx = Context::<Decimal64>::default();
    let x = cx.rem(Decimal64::from_le_bytes(a.to_le_bytes()), Decimal64::from_le_bytes(b.to_le_bytes()));
    (u64::from_le_bytes(x.to_le_bytes()), status_flags(cx.status()))
}

/// `decDoubleFMA` (via `Context::fma`): `a * b + c` with one rounding.
#[verifier::external_body]
pub(crate) fn fma_bits(a: u64, b: u64, c: u64) -> (r: (u64, Flags))
    ensures
        r.0 == dec_fma(a, b, c),
        fma_exact(decode(a), decode(b), decode(c), decode(r.0)),
        r.1 == dec_fma_status(a, b, c),
{
    let mut cx = Context::<Decimal64>::default();
    let x = cx.fma(Decimal64::from_le_bytes(a.to_le_bytes()), Decimal64::from_le_bytes(b.to_le_bytes()), Decimal64::from_le_bytes(c.to_le_bytes()));
    (u64::from_le_bytes(x.to_le_bytes()), status_flags(cx.status()))
}

/// `decDoubleQuantize` (via `Context::quantize`); a NaN operand propagates.
#[verifier::external_body]
pub(crate) fn quantize_bits(a: u64, b: u64) -> (r: (u64, Flags))
    ensures
        r.0 == dec_quantize(a, b),
        propagates_nans(a, b, r.0),
        snan_signals(a, b, r.1),
        quantize_result(a, b, r.0),
        r.1 == dec_quantize_status(a, b),
{
    let mut cx = Context::<Decimal64>::default();
    let x = cx.quantize(Decimal64::from_le_bytes(a.to_le_bytes()), Decimal64::from_le_bytes(b.to_le_bytes()));
    (u64::from_le_bytes(x.to_le_bytes()), status_flags(cx.status()))
}

/// `decDoubleScaleB` (via `Context::scaleb`); a NaN operand propagates.
#[verifier::external_body]
pub(crate) fn scaleb_bits(a: u64, b: u64) -> (r: (u64, Flags))
    ensures
        r.0 == dec_scaleb(a, b),
        propagates_nans(a, b, r.0),
        snan_signals(a, b, r.1),
        scaleb_result(a, b, r.0),
        r.1 == dec_scaleb_status(a, b),
        !decode(a).is_nan() && !decode(b).is_nan() && integer_amount(decode(b), 800) is None
            ==> r.1.invalid_operation,
{
    let mut cx = Context::<Decimal64>::default();
    let x = cx.scaleb(Decimal64::from_le_bytes(a.to_le_bytes()), Decimal64::from_le_bytes(b.to_le_bytes()));
    (u64::from_le_bytes(x.to_le_bytes()), status_flags(cx.status()))
}

/// `decDoubleRotate` (via `Context::rotate`); a NaN operand propagates.
#[verifier::external_body]
pub(crate) fn rotate_bits(a: u64, b: u64) -> (r: (u64, Flags))
    ensures
        r.0 == dec_rotate(a, b),
        propagates_nans(a, b, r.0),
        snan_signals(a, b, r.1),
        rotate_result(a, b, r.0),
        r.1 == dec_rotate_status(a, b),
        !decode(a).is_nan() && !decode(b).is_nan() && integer_amount(decode(b), 16) is None
            ==> r.1.invalid_operation,
{
    let mut cx = Context::<Decimal64>::default();
    let x = cx.rotate(Decimal64::from_le_bytes(a.to_le_bytes()), Decimal64::from_le_bytes(b.to_le_bytes()));
    (u64::from_le_bytes(x.to_le_bytes()), status_flags(cx.status()))
}

/// `decDoubleShift` (via `Context::shift`); a NaN operand propagates.
#[verifier::external_body]
pub(crate) fn shift_bits(a: u64, b: u64) -> (r: (u64, Flags))
    ensures
        r.0 == dec_shift(a, b),
        propagates_nans(a, b, r.0),
        snan_signals(a, b, r.1),
        shift_result(a, b, r.0),
        r.1 == dec_shift_status(a, b),
        !decode(a).is_nan() && !decode(b).is_nan() && integer_amount(decode(b), 16) is None
            ==> r.1.invalid_operation,
        !decode(a).is_nan() && !decode(b).is_nan() && integer_amount(decode(b), 16) is Some
            ==> r.1 == Flags::none(),
{
    let mut cx = Context::<Decimal64>::default();
    let x = cx.shift(Decimal64::from_le_bytes(a.to_le_bytes()), Decimal64::from_le_bytes(b.to_le_bytes()));
    (u64::from_le_bytes(x.to_le_bytes()), status_flags(cx.status()))
}

/// `decDoubleNextToward` (via `Context::next_toward`); a NaN operand
/// propagates.
#[verifier::external_body]
pub(crate) fn next_toward_bits(a: u64, b: u64) -> (r: (u64, Flags))
    ensures
        r.0 == dec_next_toward(a, b),
        propagates_nans(a, b, r.0),
        snan_signals(a, b, r.1),
        next_toward_result(a, b, r.0),
        r.1 == dec_next_toward_status(a, b),
{
    let mut cx = Context::<Decimal64>::default();
    let x = cx.next_toward(Decimal64::from_le_bytes(a.to_le_bytes()), Decimal64::from_le_bytes(b.to_le_bytes()));
    (u64::from_le_bytes(x.to_le_bytes()), status_flags(cx.status()))
}

/// `r` is the least number above `x`: a number (not a NaN) greater than `x`,
/// with no decimal64 number strictly between the two.
pub open spec fn next_up(x: Decoded, r: Decoded) -> bool {
    &&& !r.is_nan()
    &&& numeric_order(r, x) == 1
    &&& forall|y: u64|
        #![trigger decode(y)]
        !decode(y).is_nan() ==> !(numeric_order(x, decode(y)) == -1 && numeric_order(
            decode(y),
            r,
        ) == -1)
}

/// `r` is the greatest number below `x`: a number (not a NaN) less than `x`,
/// with no decimal64 number strictly between the two.
pub open spec fn next_down(x: Decoded, r: Decoded) -> bool {
    &&& !r.is_nan()
    &&& numeric_order(r, x) == -1
    &&& forall|y: u64|
        #![trigger decode(y)]
        !decode(y).is_nan() ==> !(numeric_order(r, decode(y)) == -1 && numeric_order(
            decode(y),
            x,
        ) == -1)
}

/// `decDoubleNextPlus` (via `Context::next_plus`): IEEE 754 nextUp, the least
/// decimal64 number above the operand.
#[verifier::external_body]
pub(crate) fn next_plus_bits(a: u64) -> (r: (u64, Flags))
    ensures
        r.0 == dec_next_plus(a),
        decode(a).is_nan() ==> decode(r.0) == quiet(decode(a)),
        decode(a) == (Decoded::Infinite { negative: false }) ==> decode(r.0) == decode(a),
        !decode(a).is_nan() && decode(a) != (Decoded::Infinite { negative: false }) ==> next_up(
            decode(a),
            decode(r.0),
        ),
        r.1 == Flags::invalid_when(decode(a).is_signaling()),
{
    let mut cx = Context::<Decimal64>::default();
    let x = cx.next_plus(Decimal64::from_le_bytes(a.to_le_bytes()));
    (u64::from_le_bytes(x.to_le_bytes()), status_flags(cx.status()))
}

/// `decDoubleNextMinus` (via `Context::next_minus`): IEEE 754 nextDown, the
/// greatest decimal64 number below the operand.
#[verifier::external_body]
pub(crate) fn next_minus_bits(a: u64) -> (r: (u64, Flags))
    ensures
        r.0 == dec_next_minus(a),
        decode(a).is_nan() ==> decode(r.0) == quiet(decode(a)),
        decode(a) == (Decoded::Infinite { negative: true }) ==> decode(r.0) == decode(a),
        !decode(a).is_nan() && decode(a) != (Decoded::Infinite { negative: true }) ==> next_down(
            decode(a),
            decode(r.0),
        ),
        r.1 == Flags::invalid_when(decode(a).is_signaling()),
{
    let mut cx = Context::<Decimal64>::default();
    let x = cx.next_minus(Decimal64::from_le_bytes(a.to_le_bytes()));
    (u64::from_le_bytes(x.to_le_bytes()), status_flags(cx.status()))
}

/// A non-zero finite number whose coefficient ends in a non-zero digit, or
/// whose exponent is the largest that the format lets a coefficient of
/// sixteen digits have (where decFinalize pads trailing zeros back in).
pub open spec fn no_trailing_zeros(v: Decoded) -> bool {
    v matches Decoded::Finite { coefficient, exponent, .. } && (coefficient % 10 != 0
        || exponent == 369)
}

/// What decFloatAdd gives when an operand is infinite and neither is a NaN:
/// the quiet NaN for two infinities of opposite signs, else the infinity.
pub open spec fn infinite_sum(x: Decoded, y: Decoded, r: u64) -> bool {
    !x.is_nan() && !y.is_nan() && (x.is_infinite() || y.is_infinite()) ==> if x.is_infinite()
        && y.is_infinite() && x.negative() != y.negative() {
        r == QNAN_BITS
    } else if x.is_infinite() {
        decode(r) == x
    } else {
        decode(r) == y
    }
}

/// `decDoubleReduce` (via `Context::reduce`); a NaN is returned quiet.
#[verifier::external_body]
pub(crate) fn reduce_bits(a: u64) -> (r: (u64, Flags))
    ensures
        r.0 == dec_reduce(a),
        decode(a).is_nan() ==> decode(r.0) == quiet(decode(a)),
        decode(a).is_infinite() ==> decode(r.0) == decode(a),
        decode(a).is_zero() ==> decode(r.0) == (Decoded::Finite {
            negative: decode(a).negative(),
            coefficient: 0,
            exponent: 0,
        }),
        decode(a).is_finite() ==> decode(r.0).is_finite() && decode(r.0).negative() == decode(
            a,
        ).negative() && numeric_order(decode(r.0), decode(a)) == 0,
        decode(a).is_finite() && !decode(a).is_zero() ==> no_trailing_zeros(decode(r.0)),
        r.1 == dec_reduce_status(a),
{
    let mut cx = Context::<Decimal64>::default();
    let x = cx.reduce(Decimal64::from_le_bytes(a.to_le_bytes()));
    (u64::from_le_bytes(x.to_le_bytes()), status_flags(cx.status()))
}

/// `decDoubleCanonical` (via `Decimal64::canonical`): the same value in its
/// canonical encoding, and the operand itself where that is canonical
/// already (decCanonical only repairs non-canonical parts).
#[verifier::external_body]
pub(crate) fn canonical_bits(a: u64) -> (r: u64)
    ensures
        r == dec_canonical(a),
        decode(r) == decode(a),
        is_canonical_enc(r),
        is_canonical_enc(a) ==> r == a,
{
    let x = Decimal64::from_le_bytes(a.to_le_bytes()).canonical();
    u64::from_le_bytes(x.to_le_bytes())
}

/// `decDoubleAbs` (via `Context::abs`): a number with its sign cleared, a
/// NaN made quiet; canonical either way.
#[verifier::external_body]
pub(crate) fn abs_bits(a: u64) -> (r: (u64, Flags))
    ensures
        r.0 == dec_abs(a),
        decode(r.0) == abs_value(decode(a)),
        is_canonical_enc(r.0),
        r.1 == Flags::invalid_when(decode(a).is_signaling()),
{
    let mut cx = Context::<Decimal64>::default();
    let x = cx.abs(Decimal64::from_le_bytes(a.to_le_bytes()));
    (u64::from_le_bytes(x.to_le_bytes()), status_flags(cx.status()))
}

/// `decDoubleMinus` (via `Context::minus`): a number with its sign flipped
/// (a zero gets sign 0), a NaN made quiet; canonical either way.
#[verifier::external_body]
pub(crate) fn minus_bits(a: u64) -> (r: (u64, Flags))
    ensures
        r.0 == dec_minus(a),
        decode(r.0) == minus_value(decode(a)),
        is_canonical_enc(r.0),
        r.1 == Flags::invalid_when(decode(a).is_signaling()),
{
    let mut cx = Context::<Decimal64>::default();
    let x = cx.minus(Decimal64::from_le_bytes(a.to_le_bytes()));
    (u64::from_le_bytes(x.to_le_bytes()), status_flags(cx.status()))
}

/// `decDoubleLogB` (via `Context::logb`): the adjusted exponent as an
/// integer; +Infinity for an infinity, -Infinity for a zero, a NaN made
/// quiet; canonical either way.
#[verifier::external_body]
pub(crate) fn logb_bits(a: u64) -> (r: (u64, Flags))
    ensures
        r.0 == dec_logb(a),
        decode(r.0) == (if decode(a).is_nan() {
            quiet(decode(a))
        } else if decode(a).is_infinite() {
            Decoded::Infinite { negative: false }
        } else if decode(a).is_zero() {
            Decoded::Infinite { negative: true }
        } else {
            integer_value(decode(a).adjusted_exponent())
        }),
        is_canonical_enc(r.0),
        r.1 == (Flags {
            invalid_operation: decode(a).is_signaling(),
            division_by_zero: decode(a).is_zero(),
            ..Flags::none()
        }),
        decode(a).is_zero() ==> r.1.division_by_zero,
{
    let mut cx = Context::<Decimal64>::default();
    let x = cx.logb(Decimal64::from_le_bytes(a.to_le_bytes()));
    (u64::from_le_bytes(x.to_le_bytes()), status_flags(cx.status()))
}

/// The result of maxnum / minnum as decFloatMax and decFloatMin choose it:
/// a quiet NaN beside a number is ignored; otherwise NaNs propagate; two
/// numbers go by the total order, the left one winning a tie.
pub open spec fn chooses(a: u64, b: u64, r: u64, keep_left: bool) -> bool {
    let x = decode(a);
    let y = decode(b);
    decode(r) == (if x.is_nan() && !y.is_nan() && !x.is_signaling() {
        y
    } else if y.is_nan() && !x.is_nan() && !y.is_signaling() {
        x
    } else if x.is_nan() || y.is_nan() {
        nan_result(x, y)
    } else if keep_left {
        x
    } else {
        y
    })
}

/// `decDoubleMax` (via `Context::max`); canonical result.
#[verifier::external_body]
pub(crate) fn max_bits(a: u64, b: u64) -> (r: (u64, Flags))
    ensures
        r.0 == dec_max(a, b),
        chooses(a, b, r.0, crate::encoding::total_order(decode(a), decode(b)) >= 0),
        is_canonical_enc(r.0),
        r.1 == Flags::invalid_when(decode(a).is_signaling() || decode(b).is_signaling()),
{
    let mut cx = Context::<Decimal64>::default();
    let x = cx.max(Decimal64::from_le_bytes(a.to_le_bytes()), Decimal64::from_le_bytes(b.to_le_bytes()));
    (u64::from_le_bytes(x.to_le_bytes()), status_flags(cx.status()))
}

/// `decDoubleMin` (via `Context::min`); canonical result.
#[verifier::external_body]
pub(crate) fn min_bits(a: u64, b: u64) -> (r: (u64, Flags))
    ensures
        r.0 == dec_min(a, b),
        chooses(a, b, r.0, crate::encoding::total_order(decode(a), decode(b)) <= 0),
        is_canonical_enc(r.0),
        r.1 == Flags::invalid_when(decode(a).is_signaling() || decode(b).is_signaling()),
{
    let mut cx = Context::<Decimal64>::default();
    let x = cx.min(Decimal64::from_le_bytes(a.to_le_bytes()), Decimal64::from_le_bytes(b.to_le_bytes()));
    (u64::from_le_bytes(x.to_le_bytes()), status_flags(cx.status()))
}

/// The digitwise AND of two logical operands, or the quiet NaN.
pub open spec fn logical_and(a: u64, b: u64) -> u64 {
    if logical_enc(a) && logical_enc(b) {
        ZERO_BITS | ((a & b) & LOGICAL_DIGIT_BITS)
    } else {
        QNAN_BITS
    }
}

/// The digitwise OR of two logical operands, or the quiet NaN.
pub open spec fn logical_or(a: u64, b: u64) -> u64 {
    if logical_enc(a) && logical_enc(b) {
        ZERO_BITS | ((a | b) & LOGICAL_DIGIT_BITS)
    } else {
        QNAN_BITS
    }
}

/// The digitwise XOR of two logical operands, or the quiet NaN.
pub open spec fn logical_xor(a: u64, b: u64) -> u64 {
    if logical_enc(a) && logical_enc(b) {
        ZERO_BITS | ((a ^ b) & LOGICAL_DIGIT_BITS)
    } else {
        QNAN_BITS
    }
}

/// The digitwise inversion of a logical operand, or the quiet NaN.
pub open spec fn logical_invert(a: u64) -> u64 {
    if logical_enc(a) {
        ZERO_BITS | (!a & LOGICAL_DIGIT_BITS)
    } else {
        QNAN_BITS
    }
}

/// `decDoubleAnd` (via `Context::and`): for two logical operands the
/// digitwise AND, laid out on the encoding of zero; otherwise the quiet NaN.
#[verifier::external_body]
pub(crate) fn and_bits(a: u64, b: u64) -> (r: (u64, Flags))
    ensures
        r.0 == logical_and(a, b),
        r.1 == Flags::invalid_when(!(logical_enc(a) && logical_enc(b))),
{
    let mut cx = Context::<Decimal64>::default();
    let x = cx.and(Decimal64::from_le_bytes(a.to_le_bytes()), Decimal64::from_le_bytes(b.to_le_bytes()));
    (u64::from_le_bytes(x.to_le_bytes()), status_flags(cx.status()))
}

/// `decDoubleOr` (via `Context::or`): for two logical operands the digitwise
/// OR; otherwise the quiet NaN.
#[verifier::external_body]
pub(crate) fn or_bits(a: u64, b: u64) -> (r: (u64, Flags))
    ensures
        r.0 == logical_or(a, b),
        r.1 == Flags::invalid_when(!(logical_enc(a) && logical_enc(b))),
{
    let mut cx = Context::<Decimal64>::default();
    let x = cx.or(Decimal64::from_le_bytes(a.to_le_bytes()), Decimal64::from_le_bytes(b.to_le_bytes()));
    (u64::from_le_bytes(x.to_le_bytes()), status_flags(cx.status()))
}

/// `decDoubleXor` (via `Context::xor`): for two logical operands the
/// digitwise XOR; otherwise the quiet NaN.
#[verifier::external_body]
pub(crate) fn xor_bits(a: u64, b: u64) -> (r: (u64, Flags))
    ensures
        r.0 == logical_xor(a, b),
        r.1 == Flags::invalid_when(!(logical_enc(a) && logical_enc(b))),
{
    let mut cx = Context::<Decimal64>::default();
    let x = cx.xor(Decimal64::from_le_bytes(a.to_le_bytes()), Decimal64::from_le_bytes(b.to_le_bytes()));
    (u64::from_le_bytes(x.to_le_bytes()), status_flags(cx.status()))
}

/// `decDoubleInvert` (via `Context::invert`): for a logical operand the
/// digitwise inversion of all sixteen digits; otherwise the quiet NaN.
#[verifier::external_body]
pub(crate) fn invert_bits(a: u64) -> (r: (u64, Flags))
    ensures
        r.0 == logical_invert(a),
        r.1 == Flags::invalid_when(!logical_enc(a)),
{
    let mut cx = Context::<Decimal64>::default();
    let x = cx.invert(Decimal64::from_le_bytes(a.to_le_bytes()));
    (u64::from_le_bytes(x.to_le_bytes()), status_flags(cx.status()))
}

/// `decDoubleFromInt32` (via `From<i32> for Decimal64`): the integer itself,
/// exactly, with exponent 0 and a canonical encoding.
#[verifier::external_body]
pub(crate) fn from_i32_bits(n: i32) -> (r: u64)
    ensures
        r == dec_from_i32(n),
        decode(r) == integer_value(n as int),
        is_canonical_enc(r),
{
    u64::from_le_bytes(Decimal64::from(n).to_le_bytes())
}

/// `decDoubleFromUInt32` (via `From<u32> for Decimal64`): the integer
/// itself, exactly, with exponent 0 and a canonical encoding.
#[verifier::external_body]
pub(crate) fn from_u32_bits(n: u32) -> (r: u64)
    ensures
        r == dec_from_u32(n),
        decode(r) == integer_value(n as int),
        is_canonical_enc(r),
{
    u64::from_le_bytes(Decimal64::from(n).to_le_bytes())
}

/// `decDoubleFromString` (via `Context::parse`): the encoding of the number
/// the string spells, or nothing where decNumber raises the
/// conversion-syntax flag or the string holds a NUL (which `dec` refuses
/// before decNumber sees the string, raising nothing). A plain numeral of at
/// most sixteen significant digits reads as that integer, exactly.
#[verifier::external_body]
pub(crate) fn parse_bits(s: &str) -> (r: (Option<u64>, Flags))
    ensures
        r.0 == dec_parse(s@),
        r.1 == dec_parse_status(s@),
        r.0 is None <==> (s@.contains('\0') || r.1.conversion_syntax),
        s@.contains('\0') ==> r.1 == Flags::none(),
        is_numeral(s@) && digits_value(s@) < pow10(16) ==> r.0 is Some && decode(r.0.unwrap())
            == integer_value(digits_value(s@)),
{
    let mut cx = Context::<Decimal64>::default();
    match cx.parse(s) {
        Ok(x) => (Some(u64::from_le_bytes(x.to_le_bytes())), status_flags(cx.status())),
        Err(_) => (None, status_flags(cx.status())),
    }
}

/// `decDoubleToString` (via `Display for Decimal64`). The text is exact:
/// every digit of the coefficient, the exponent, the sign, and a NaN's kind
/// and payload, so that `decDoubleFromString` reads a canonical encoding back
/// unchanged (the conversions of the General Decimal Arithmetic are each
/// other's inverse).
#[verifier::external_body]
pub(crate) fn to_string_bits(a: u64) -> (r: String)
    ensures
        r@ == dec_to_string(a),
        is_canonical_enc(a) ==> dec_parse(r@) == Some(a),
{
    Decimal64::from_le_bytes(a.to_le_bytes()).to_string()
}

/// `decDoubleToEngString` (via the alternate form of `Display for
/// Decimal64`).
#[verifier::external_body]
pub(crate) fn to_eng_string_bits(a: u64) -> (r: String)
    ensures
        r@ == dec_to_eng_string(a),
{
    format!("{:#}", Decimal64::from_le_bytes(a.to_le_bytes()))
}

/// The context that the mathematical functions of `d64` use: sixteen
/// digits and the exponent limits of decimal64.
pub open spec fn standard_math_context(precision: usize, max_exponent: isize, min_exponent: isize) -> bool {
    precision == 16 && max_exponent == 384 && min_exponent == -383
}

/// `decNumberPower` (via `Context::<Decimal<12>>::pow`): a zero power of a
/// non-zero number or an infinity is exactly 1, and a power of exactly 1 in
/// the decimal64 context is the number itself; it works on the operands
/// widened with `decimal64ToNumber`, in a context of `precision` digits,
/// the exponent limits given and the rounding of the decimal64 default
/// context (half even), then rounded back with `decimal64FromNumber`
/// (`Context::<Decimal64>::from_decimal`). The limits are within those that
/// decNumber's mathematical functions accept.
#[verifier::external_body]
pub(crate) fn pow_bits(a: u64, b: u64, precision: usize, max_exponent: isize, min_exponent: isize) -> (r: (u64, Flags))
    requires
        1 <= precision <= 36,
        0 <= max_exponent <= 999_999,
        -999_999 <= min_exponent <= 0,
    ensures
        r.0 == dec_pow(a, b, precision, max_exponent, min_exponent),
        decode(b).is_zero() && (decode(a).is_infinite() || (decode(a).is_finite() && !decode(
            a,
        ).is_zero())) ==> decode(r.0) == integer_value(1),
        decode(b) == integer_value(1) && !decode(a).is_nan() && standard_math_context(
            precision,
            max_exponent,
            min_exponent,
        ) ==> !decode(r.0).is_nan() && numeric_order(decode(r.0), decode(a)) == 0,
        r.1 == dec_pow_status(a, b, precision, max_exponent, min_exponent),
{
    let mut cx = Context::<Decimal<12>>::default();
    let _ = (cx.set_precision(precision), cx.set_max_exponent(max_exponent), cx.set_min_exponent(min_exponent));
    cx.set_rounding(Context::<Decimal64>::default().rounding());
    let mut x = Decimal::<12>::from(Decimal64::from_le_bytes(a.to_le_bytes()));
    cx.pow(&mut x, &Decimal::<12>::from(Decimal64::from_le_bytes(b.to_le_bytes())));
    let mut narrow = Context::<Decimal64>::default();
    let y = narrow.from_decimal(&x);
    (u64::from_le_bytes(y.to_le_bytes()), status_flags(cx.status() | narrow.status()))
}

/// `decNumberExp` (via `Context::<Decimal<12>>::exp`), in the context that
/// `pow_bits` sets up.
#[verifier::external_body]
pub(crate) fn exp_bits(a: u64, precision: usize, max_exponent: isize, min_exponent: isize) -> (r: (u64, Flags))
    requires
        1 <= precision <= 36,
        0 <= max_exponent <= 999_999,
        -999_999 <= min_exponent <= 0,
    ensures
        r.0 == dec_exp(a, precision, max_exponent, min_exponent),
        decode(a).is_zero() ==> decode(r.0) == integer_value(1),
        decode(a) == (Decoded::Infinite { negative: true }) ==> decode(r.0) == integer_value(0),
        r.1 == dec_exp_status(a, precision, max_exponent, min_exponent),
        decode(a).is_zero() || decode(a) == (Decoded::Infinite { negative: true }) ==> r.1
            == Flags::none(),
{
    let mut cx = Context::<Decimal<12>>::default();
    let _ = (cx.set_precision(precision), cx.set_max_exponent(max_exponent), cx.set_min_exponent(min_exponent));
    cx.set_rounding(Context::<Decimal64>::default().rounding());
    let mut x = Decimal::<12>::from(Decimal64::from_le_bytes(a.to_le_bytes()));
    cx.exp(&mut x);
    let mut narrow = Context::<Decimal64>::default();
    let y = narrow.from_decimal(&x);
    (u64::from_le_bytes(y.to_le_bytes()), status_flags(cx.status() | narrow.status()))
}

/// `decNumberLn` (via `Context::<Decimal<12>>::ln`), in the context that
/// `pow_bits` sets up.
#[verifier::external_body]
pub(crate) fn ln_bits(a: u64, precision: usize, max_exponent: isize, min_exponent: isize) -> (r: (u64, Flags))
    requires
        1 <= precision <= 36,
        0 <= max_exponent <= 999_999,
        -999_999 <= min_exponent <= 0,
    ensures
        r.0 == dec_ln(a, precision, max_exponent, min_exponent),
        !decode(a).is_nan() && numeric_order(decode(a), integer_value(1)) == 0 ==> decode(
            r.0,
        ).is_zero(),
        r.1 == dec_ln_status(a, precision, max_exponent, min_exponent),
        !decode(a).is_nan() && numeric_order(decode(a), integer_value(1)) == 0
            && standard_math_context(precision, max_exponent, min_exponent) ==> !r.1.inexact,
{
    let mut cx = Context::<Decimal<12>>::default();
    let _ = (cx.set_precision(precision), cx.set_max_exponent(max_exponent), cx.set_min_exponent(min_exponent));
    cx.set_rounding(Context::<Decimal64>::default().rounding());
    let mut x = Decimal::<12>::from(Decimal64::from_le_bytes(a.to_le_bytes()));
    cx.ln(&mut x);
    let mut narrow = Context::<Decimal64>::default();
    let y = narrow.from_decimal(&x);
    (u64::from_le_bytes(y.to_le_bytes()), status_flags(cx.status() | narrow.status()))
}

/// `decNumberLog10` (via `Context::<Decimal<12>>::log10`), in the context that
/// `pow_bits` sets up.
#[verifier::external_body]
pub(crate) fn log10_bits(a: u64, precision: usize, max_exponent: isize, min_exponent: isize) -> (r: (u64, Flags))
    requires
        1 <= precision <= 36,
        0 <= max_exponent <= 999_999,
        -999_999 <= min_exponent <= 0,
    ensures
        r.0 == dec_log10(a, precision, max_exponent, min_exponent),
        forall|j: nat|
            #![trigger pow10(j)]
            match decode(a) {
                Decoded::Finite { negative, coefficient, exponent } => !negative && coefficient
                    == pow10(j) && standard_math_context(precision, max_exponent, min_exponent)
                    ==> decode(r.0) == integer_value(j + exponent) && r.1 == Flags::none(),
                _ => true,
            },
        r.1 == dec_log10_status(a, precision, max_exponent, min_exponent),
{
    let mut cx = Context::<Decimal<12>>::default();
    let _ = (cx.set_precision(precision), cx.set_max_exponent(max_exponent), cx.set_min_exponent(min_exponent));
    cx.set_rounding(Context::<Decimal64>::default().rounding());
    let mut x = Decimal::<12>::from(Decimal64::from_le_bytes(a.to_le_bytes()));
    cx.log10(&mut x);
    let mut narrow = Context::<Decimal64>::default();
    let y = narrow.from_decimal(&x);
    (u64::from_le_bytes(y.to_le_bytes()), status_flags(cx.status() | narrow.status()))
}

/// `String::push`: appends one character.
#[verifier::external_body]
pub(crate) fn push_char(s: &mut String, c: char)
    ensures
        final(s)@ == old(s)@.push(c),
{
    s.push(c);
}

} // verus!
