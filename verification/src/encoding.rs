//! The decimal64 interchange format (IEEE 754-2008, densely packed decimal
//! coefficient) as a mathematical model, and verified decoders for it.
//!
//! A decimal64 value is a 64-bit word: bit 63 is the sign, bits 62..58 the
//! combination field, bits 57..50 the exponent continuation and bits 49..0
//! five 10-bit declets, each holding three decimal digits.
use vstd::prelude::*;

verus! {

/// The bias of the decimal64 exponent.
pub const EXPONENT_BIAS: i32 = 398;

/// The smallest adjusted exponent of a normal decimal64 number.
pub const EMIN: i32 = -383;

/// The number of decimal digits of a decimal64 coefficient.
pub const PRECISION: u32 = 16;

/// What a decimal64 encoding stands for.
pub enum Decoded {
    /// `(-1)^negative * coefficient * 10^exponent`.
    Finite { negative: bool, coefficient: nat, exponent: int },
    /// Positive or negative infinity.
    Infinite { negative: bool },
    /// A quiet or signaling NaN with its sign and payload.
    NaN { negative: bool, signaling: bool, payload: nat },
}

impl Decoded {
    pub open spec fn is_nan(self) -> bool {
        self is NaN
    }

    pub open spec fn is_infinite(self) -> bool {
        self is Infinite
    }

    pub open spec fn is_finite(self) -> bool {
        self is Finite
    }

    pub open spec fn is_signaling(self) -> bool {
        self matches Decoded::NaN { signaling, .. } && signaling
    }

    /// The sign bit: set for negative numbers, but zeros and NaNs may carry it too.
    pub open spec fn negative(self) -> bool {
        match self {
            Decoded::Finite { negative, .. } => negative,
            Decoded::Infinite { negative } => negative,
            Decoded::NaN { negative, .. } => negative,
        }
    }

    pub open spec fn is_zero(self) -> bool {
        self matches Decoded::Finite { coefficient, .. } && coefficient == 0
    }

    /// Less than zero and not a NaN.
    pub open spec fn is_negative(self) -> bool {
        self.negative() && !self.is_zero() && !self.is_nan()
    }

    /// Greater than zero and not a NaN.
    pub open spec fn is_positive(self) -> bool {
        !self.negative() && !self.is_zero() && !self.is_nan()
    }

    /// The number of significant digits: of the coefficient of a finite
    /// number, of the payload of a NaN, and 1 for an infinity.
    pub open spec fn digits(self) -> nat {
        match self {
            Decoded::Finite { coefficient, .. } => num_digits(coefficient),
            Decoded::Infinite { .. } => 1,
            Decoded::NaN { payload, .. } => num_digits(payload),
        }
    }

    /// The exponent that the number has when the decimal point follows its
    /// first significant digit.
    pub open spec fn adjusted_exponent(self) -> int {
        match self {
            Decoded::Finite { coefficient, exponent, .. } => exponent + num_digits(coefficient) - 1,
            _ => 0,
        }
    }

    /// Finite, non-zero, and not subnormal.
    pub open spec fn is_normal(self) -> bool {
        self.is_finite() && !self.is_zero() && self.adjusted_exponent() >= EMIN
    }

    /// Finite, non-zero, with magnitude below `10^EMIN`.
    pub open spec fn is_subnormal(self) -> bool {
        self.is_finite() && !self.is_zero() && self.adjusted_exponent() < EMIN
    }

    /// Finite, non-zero, with magnitude below `10^k`.
    pub open spec fn magnitude_below(self, k: int) -> bool {
        self.is_finite() && !self.is_zero() && self.adjusted_exponent() < k
    }

    /// Finite with exponent zero.
    pub open spec fn is_integer(self) -> bool {
        self matches Decoded::Finite { exponent, .. } && exponent == 0
    }

    /// A valid operand of the digitwise logical operations: a non-negative
    /// integer (sign bit clear, exponent zero) whose digits are all 0 or 1.
    pub open spec fn is_logical(self) -> bool {
        self matches Decoded::Finite { negative, coefficient, exponent } && !negative
            && exponent == 0 && binary_digits(coefficient)
    }

    /// The same value with the sign bit given.
    pub open spec fn with_sign(self, negative: bool) -> Decoded {
        match self {
            Decoded::Finite { coefficient, exponent, .. } => Decoded::Finite {
                negative,
                coefficient,
                exponent,
            },
            Decoded::Infinite { .. } => Decoded::Infinite { negative },
            Decoded::NaN { signaling, payload, .. } => Decoded::NaN {
                negative,
                signaling,
                payload,
            },
        }
    }
}

/// `10^n`.
pub open spec fn pow10(n: nat) -> nat
    decreases n,
{
    if n == 0 {
        1
    } else {
        10 * pow10((n - 1) as nat)
    }
}

/// The number of decimal digits of `c`, at least 1.
pub open spec fn num_digits(c: nat) -> nat
    decreases c,
{
    if c < 10 {
        1
    } else {
        1 + num_digits(c / 10)
    }
}

/// Every decimal digit of `c` is 0 or 1.
pub open spec fn binary_digits(c: nat) -> bool
    decreases c,
{
    if c == 0 {
        true
    } else {
        c % 10 <= 1 && binary_digits(c / 10)
    }
}

/// The finite value `i * 10^0`.
pub open spec fn integer_value(i: int) -> Decoded {
    Decoded::Finite { negative: i < 0, coefficient: (if i < 0 { -i } else { i }) as nat, exponent: 0 }
}

/// A NaN made quiet; other values unchanged.
pub open spec fn quiet(v: Decoded) -> Decoded {
    match v {
        Decoded::NaN { negative, payload, .. } => Decoded::NaN { negative, signaling: false, payload },
        _ => v,
    }
}

/// What `abs` gives: a number with its sign cleared, a NaN made quiet.
pub open spec fn abs_value(v: Decoded) -> Decoded {
    if v.is_nan() {
        quiet(v)
    } else {
        v.with_sign(false)
    }
}

/// What negation (`0 - v`) gives: a number with its sign flipped, a zero
/// with sign 0, a NaN made quiet.
pub open spec fn minus_value(v: Decoded) -> Decoded {
    if v.is_nan() {
        quiet(v)
    } else if v.is_zero() {
        v.with_sign(false)
    } else {
        v.with_sign(!v.negative())
    }
}

/// The NaN that an operation on `a` and `b` propagates when one of them is a
/// NaN: a signaling NaN first (the left one if both are), else the left NaN,
/// made quiet.
pub open spec fn nan_result(a: Decoded, b: Decoded) -> Decoded {
    if b.is_signaling() && !a.is_signaling() {
        quiet(b)
    } else if a.is_nan() {
        quiet(a)
    } else {
        quiet(b)
    }
}

/// `(-1)^negative`.
pub open spec fn signum(negative: bool) -> int {
    if negative {
        -1
    } else {
        1
    }
}

/// -1, 0 or 1 as `x` is below, at or above `y`.
pub open spec fn sign_of_difference(x: int, y: int) -> int {
    if x < y {
        -1
    } else if x > y {
        1
    } else {
        0
    }
}

/// Numeric comparison of two numbers (not NaNs): -1, 0 or 1 as `a` is less
/// than, equal to or greater than `b`. Zeros compare equal whatever their
/// signs and exponents; infinities lie beyond every finite number.
pub open spec fn numeric_order(a: Decoded, b: Decoded) -> int {
    match (a, b) {
        (Decoded::Infinite { negative: na }, Decoded::Infinite { negative: nb }) => {
            if na == nb {
                0
            } else {
                signum(na)
            }
        },
        (Decoded::Infinite { negative: na }, _) => signum(na),
        (_, Decoded::Infinite { negative: nb }) => -signum(nb),
        (
            Decoded::Finite { negative: na, coefficient: ca, exponent: ea },
            Decoded::Finite { negative: nb, coefficient: cb, exponent: eb },
        ) => {
            let m = if ea < eb {
                ea
            } else {
                eb
            };
            sign_of_difference(
                signum(na) * (ca * pow10((ea - m) as nat)),
                signum(nb) * (cb * pow10((eb - m) as nat)),
            )
        },
        _ => 0,
    }
}

/// The rank of a value in the total order among NaNs: -2 for a negative
/// quiet NaN, -1 for a negative signaling NaN, 0 for a number, 1 for a
/// signaling NaN and 2 for a quiet NaN.
pub open spec fn nan_rank(v: Decoded) -> int {
    match v {
        Decoded::NaN { negative, signaling, .. } => signum(negative) * (if signaling {
            1int
        } else {
            2int
        }),
        _ => 0,
    }
}

/// The IEEE 754 total order: -1, 0 or 1. Numbers go by value; numerically
/// equal numbers by sign, then by exponent (the larger exponent is farther
/// from zero); NaNs go by rank, then by payload.
pub open spec fn total_order(a: Decoded, b: Decoded) -> int {
    if a.is_nan() || b.is_nan() {
        if nan_rank(a) != nan_rank(b) {
            sign_of_difference(nan_rank(a), nan_rank(b))
        } else {
            match (a, b) {
                (
                    Decoded::NaN { negative, payload: pa, .. },
                    Decoded::NaN { payload: pb, .. },
                ) => signum(negative) * sign_of_difference(pa as int, pb as int),
                _ => 0,
            }
        }
    } else if numeric_order(a, b) != 0 {
        numeric_order(a, b)
    } else if a.negative() != b.negative() {
        signum(a.negative())
    } else {
        match (a, b) {
            (
                Decoded::Finite { negative, exponent: ea, .. },
                Decoded::Finite { exponent: eb, .. },
            ) => signum(negative) * sign_of_difference(ea, eb),
            _ => 0,
        }
    }
}

/// A finite value as an integer multiple of `10^m`.
pub open spec fn scaled(v: Decoded, m: int) -> int {
    match v {
        Decoded::Finite { negative, coefficient, exponent } => signum(negative) * (coefficient
            * pow10((exponent - m) as nat)),
        _ => 0,
    }
}

/// A non-empty string of the decimal digits `0` to `9`.
pub open spec fn is_numeral(s: Seq<char>) -> bool {
    s.len() > 0 && forall|i: int| 0 <= i < s.len() ==> '0' <= #[trigger] s[i] <= '9'
}

/// The number that a string of decimal digits spells, most significant
/// first.
pub open spec fn digits_value(s: Seq<char>) -> int
    decreases s.len(),
{
    if s.len() == 0 {
        0
    } else {
        digits_value(s.drop_last()) * 10 + (s.last() as int - 48)
    }
}

/// The finite number `n * 10^m`, its sign that of `n` (+ for zero).
pub open spec fn finite_value(n: int, m: int) -> Decoded {
    Decoded::Finite {
        negative: n < 0,
        coefficient: (if n < 0 {
            -n
        } else {
            n
        }) as nat,
        exponent: m,
    }
}

/// The magnitude `coefficient * 10^exponent` rounded to an integer, half to
/// even.
pub open spec fn rounded_abs(coefficient: nat, exponent: int) -> nat {
    if exponent >= 0 {
        coefficient * pow10(exponent as nat)
    } else {
        let d = pow10((-exponent) as nat);
        let q = coefficient / d;
        let r = coefficient % d;
        if 2 * r > d || (2 * r == d && q % 2 == 1) {
            q + 1
        } else {
            q
        }
    }
}

/// `a` rounded (half to even) or padded to the exponent of `b`, both finite;
/// nothing where the coefficient would need more than sixteen digits.
pub open spec fn quantized(a: Decoded, b: Decoded) -> Option<Decoded> {
    match (a, b) {
        (
            Decoded::Finite { negative, coefficient, exponent: ea },
            Decoded::Finite { exponent: eb, .. },
        ) => {
            let c = rounded_abs(coefficient, ea - eb);
            if c < pow10(16) {
                Some(Decoded::Finite { negative, coefficient: c, exponent: eb })
            } else {
                None
            }
        },
        _ => None,
    }
}

/// The integer that `b` stands for when it is finite with exponent 0 and a
/// magnitude of at most `limit`.
pub open spec fn integer_amount(b: Decoded, limit: nat) -> Option<int> {
    match b {
        Decoded::Finite { negative, coefficient, exponent } => if exponent == 0 && coefficient
            <= limit {
            Some(signum(negative) * coefficient)
        } else {
            None
        },
        _ => None,
    }
}

/// `a` with the sixteen digits of its coefficient shifted `n` places left
/// (right for negative `n`, `|n| <= 16`), zeros coming in, sign and exponent
/// kept; a shift by all sixteen places gives a zero with exponent 0.
pub open spec fn shifted(a: Decoded, n: int) -> Decoded {
    match a {
        Decoded::Finite { negative, coefficient, exponent } => if n == 0 {
            a
        } else if n == 16 || n == -16 {
            Decoded::Finite { negative, coefficient: 0, exponent: 0 }
        } else if n > 0 {
            Decoded::Finite {
                negative,
                coefficient: (coefficient * pow10(n as nat)) % pow10(16),
                exponent,
            }
        } else {
            Decoded::Finite { negative, coefficient: coefficient / pow10((-n) as nat), exponent }
        },
        _ => a,
    }
}

/// `a` with the sixteen digits of its coefficient rotated `n` places left
/// (right for negative `n`, `|n| <= 16`), sign and exponent kept.
pub open spec fn rotated(a: Decoded, n: int) -> Decoded {
    match a {
        Decoded::Finite { negative, coefficient, exponent } => {
            let k = if n < 0 {
                16 + n
            } else {
                n
            };
            if k == 0 || k == 16 {
                a
            } else {
                Decoded::Finite {
                    negative,
                    coefficient: (coefficient * pow10(k as nat)) % pow10(16) + coefficient / pow10(
                        (16 - k) as nat,
                    ),
                    exponent,
                }
            }
        },
        _ => a,
    }
}

// ---------------------------------------------------------------------
// The fields of an encoding.
/// The sign bit.
pub open spec fn sign_bit(b: u64) -> bool {
    (b >> 63u64) == 1
}

/// The five-bit combination field.
pub open spec fn comb(b: u64) -> u64 {
    (b >> 58u64) & 0x1f
}

/// The eight-bit exponent continuation.
pub open spec fn econ(b: u64) -> u64 {
    (b >> 50u64) & 0xff
}

/// Infinity or NaN.
pub open spec fn is_special_enc(b: u64) -> bool {
    comb(b) == 0x1e || comb(b) == 0x1f
}

/// The most significant digit of a finite coefficient.
pub open spec fn msd(b: u64) -> nat {
    let c = comb(b);
    if (c >> 3u64) == 3 {
        (8 + (c & 1)) as nat
    } else {
        (c & 7) as nat
    }
}

/// The two leading bits of a finite number's biased exponent.
pub open spec fn exp_high(b: u64) -> nat {
    let c = comb(b);
    if (c >> 3u64) == 3 {
        ((c >> 1u64) & 3) as nat
    } else {
        (c >> 3u64) as nat
    }
}

pub open spec fn biased_exponent(b: u64) -> nat {
    exp_high(b) * 256 + econ(b) as nat
}

pub open spec fn declet0(b: u64) -> u64 {
    b & 0x3ff
}

pub open spec fn declet1(b: u64) -> u64 {
    (b >> 10u64) & 0x3ff
}

pub open spec fn declet2(b: u64) -> u64 {
    (b >> 20u64) & 0x3ff
}

pub open spec fn declet3(b: u64) -> u64 {
    (b >> 30u64) & 0x3ff
}

pub open spec fn declet4(b: u64) -> u64 {
    (b >> 40u64) & 0x3ff
}

/// The three-digit number that a declet `pqr stu v wxy` encodes.
pub open spec fn dpd_value(d: u64) -> nat {
    let pqr = ((d >> 7u64) & 7) as nat;
    let stu = ((d >> 4u64) & 7) as nat;
    let wxy = (d & 7) as nat;
    let pq = ((d >> 8u64) & 3) as nat;
    let st = ((d >> 5u64) & 3) as nat;
    let r = ((d >> 7u64) & 1) as nat;
    let u = ((d >> 4u64) & 1) as nat;
    let y = (d & 1) as nat;
    let wx = (d >> 1u64) & 3;
    if (d >> 3u64) & 1 == 0 {
        100 * pqr + 10 * stu + wxy
    } else if wx == 0 {
        100 * pqr + 10 * stu + 8 + y
    } else if wx == 1 {
        100 * pqr + 10 * (8 + u) + 2 * st + y
    } else if wx == 2 {
        100 * (8 + r) + 10 * stu + 2 * pq + y
    } else if (d >> 5u64) & 3 == 0 {
        100 * (8 + r) + 10 * (8 + u) + 2 * pq + y
    } else if (d >> 5u64) & 3 == 1 {
        100 * (8 + r) + 10 * (2 * pq + u) + 8 + y
    } else if (d >> 5u64) & 3 == 2 {
        100 * pqr + 10 * (8 + u) + 8 + y
    } else {
        100 * (8 + r) + 10 * (8 + u) + 8 + y
    }
}

/// The fifteen digits held by the coefficient continuation.
pub open spec fn continuation(b: u64) -> nat {
    dpd_value(declet4(b)) * 1_000_000_000_000 + dpd_value(declet3(b)) * 1_000_000_000
        + dpd_value(declet2(b)) * 1_000_000 + dpd_value(declet1(b)) * 1_000 + dpd_value(
        declet0(b),
    )
}

/// The sixteen-digit coefficient of a finite number.
pub open spec fn coefficient(b: u64) -> nat {
    msd(b) * 1_000_000_000_000_000 + continuation(b)
}

/// What the encoding `b` stands for.
pub open spec fn decode(b: u64) -> Decoded {
    let negative = sign_bit(b);
    if comb(b) == 0x1e {
        Decoded::Infinite { negative }
    } else if comb(b) == 0x1f {
        Decoded::NaN { negative, signaling: ((b >> 57u64) & 1) == 1, payload: continuation(b) }
    } else {
        Decoded::Finite {
            negative,
            coefficient: coefficient(b),
            exponent: biased_exponent(b) - EXPONENT_BIAS,
        }
    }
}

/// A declet in its preferred form: one of the 24 redundant codes for values
/// with three large digits is not.
pub open spec fn declet_canonical(d: u64) -> bool {
    (d & 0x300) == 0 || (d & 0x6e) != 0x6e
}

pub open spec fn declets_canonical(b: u64) -> bool {
    &&& declet_canonical(declet0(b))
    &&& declet_canonical(declet1(b))
    &&& declet_canonical(declet2(b))
    &&& declet_canonical(declet3(b))
    &&& declet_canonical(declet4(b))
}

/// The low fifty bits: the coefficient continuation.
pub open spec fn continuation_bits(b: u64) -> u64 {
    b & 0x3_ffff_ffff_ffff
}

/// The encoding is the preferred one for its value: an infinity has clear
/// exponent and coefficient continuations, a NaN a clear exponent
/// continuation (but for the signaling bit), and every declet is canonical.
pub open spec fn is_canonical_enc(b: u64) -> bool {
    if comb(b) == 0x1e {
        econ(b) == 0 && continuation_bits(b) == 0
    } else if comb(b) == 0x1f {
        (econ(b) & 0x7f) == 0 && (continuation_bits(b) == 0 || declets_canonical(b))
    } else {
        declets_canonical(b)
    }
}

/// The canonical encoding of +0 (exponent 0).
pub const ZERO_BITS: u64 = 0x2238_0000_0000_0000;

/// The canonical encoding of 1.
pub const ONE_BITS: u64 = 0x2238_0000_0000_0001;

/// The canonical encoding of -1.
pub const MINUS_ONE_BITS: u64 = 0xa238_0000_0000_0001;

/// The canonical quiet NaN with sign 0 and payload 0.
pub const QNAN_BITS: u64 = 0x7c00_0000_0000_0000;

/// The canonical +Infinity.
pub const INFINITY_BITS: u64 = 0x7800_0000_0000_0000;

/// The canonical -Infinity.
pub const NEG_INFINITY_BITS: u64 = 0xf800_0000_0000_0000;

/// The bits that may be set in the result of a digitwise logical operation
/// besides those of zero: the most significant digit and the low bit of each
/// of the three digits of every declet.
pub const LOGICAL_DIGIT_BITS: u64 = 0x0400_9124_4912_4491;

/// The canonical encoding of 1111111111111111, the logical operand with
/// every digit 1.
pub const ALL_ONES_BITS: u64 = 0x2638_9124_4912_4491;

/// An operand that the digitwise logical operations accept, tested on the
/// encoding: sign 0, exponent 0, most significant digit 0 or 1, and only
/// 0 or 1 digits in the declets (which then all have the v bit clear).
pub open spec fn logical_enc(b: u64) -> bool {
    (b & 0xfbfc_0000_0000_0000) == 0x2238_0000_0000_0000 && (b & !0xfffc_9124_4912_4491u64) == 0
}

// ---------------------------------------------------------------------
// Verified decoders.
/// The value of one declet.
pub fn dpd_decode(d: u64) -> (r: u64)
    requires
        d < 1024,
    ensures
        r as nat == dpd_value(d),
        r <= 999,
{
    let pqr = (d >> 7u64) & 7;
    let stu = (d >> 4u64) & 7;
    let wxy = d & 7;
    let pq = (d >> 8u64) & 3;
    let st = (d >> 5u64) & 3;
    let r = (d >> 7u64) & 1;
    let u = (d >> 4u64) & 1;
    let y = d & 1;
    let wx = (d >> 1u64) & 3;
    assert(pqr <= 7 && stu <= 7 && wxy <= 7 && pq <= 3 && st <= 3 && r <= 1 && u <= 1 && y <= 1
        && wx <= 3) by (bit_vector)
        requires
            pqr == (d >> 7u64) & 7,
            stu == (d >> 4u64) & 7,
            wxy == d & 7,
            pq == (d >> 8u64) & 3,
            st == (d >> 5u64) & 3,
            r == (d >> 7u64) & 1,
            u == (d >> 4u64) & 1,
            y == d & 1,
            wx == (d >> 1u64) & 3,
    ;
    assert(d < 1024 ==> (pq == 0 ==> pqr == r) && (pq == 1 ==> pqr == 2 + r) && (pq == 2 ==> pqr
        == 4 + r) && (pq == 3 ==> pqr == 6 + r)) by (bit_vector)
        requires
            pqr == (d >> 7u64) & 7,
            pq == (d >> 8u64) & 3,
            r == (d >> 7u64) & 1,
    ;
    if (d >> 3u64) & 1 == 0 {
        100 * pqr + 10 * stu + wxy
    } else if wx == 0 {
        100 * pqr + 10 * stu + 8 + y
    } else if wx == 1 {
        100 * pqr + 10 * (8 + u) + 2 * st + y
    } else if wx == 2 {
        100 * (8 + r) + 10 * stu + 2 * pq + y
    } else if st == 0 {
        100 * (8 + r) + 10 * (8 + u) + 2 * pq + y
    } else if st == 1 {
        100 * (8 + r) + 10 * (2 * pq + u) + 8 + y
    } else if st == 2 {
        100 * pqr + 10 * (8 + u) + 8 + y
    } else {
        100 * (8 + r) + 10 * (8 + u) + 8 + y
    }
}

/// The fifteen digits of the coefficient continuation.
pub fn decode_continuation(b: u64) -> (r: u64)
    ensures
        r as nat == continuation(b),
        r < 1_000_000_000_000_000,
{
    assert((b & 0x3ff) < 1024 && ((b >> 10u64) & 0x3ff) < 1024 && ((b >> 20u64) & 0x3ff) < 1024
        && ((b >> 30u64) & 0x3ff) < 1024 && ((b >> 40u64) & 0x3ff) < 1024) by (bit_vector);
    let d0 = dpd_decode(b & 0x3ff);
    let d1 = dpd_decode((b >> 10u64) & 0x3ff);
    let d2 = dpd_decode((b >> 20u64) & 0x3ff);
    let d3 = dpd_decode((b >> 30u64) & 0x3ff);
    let d4 = dpd_decode((b >> 40u64) & 0x3ff);
    d4 * 1_000_000_000_000 + d3 * 1_000_000_000 + d2 * 1_000_000 + d1 * 1_000 + d0
}

/// The sixteen-digit coefficient of a finite number.
pub fn decode_coefficient(b: u64) -> (r: u64)
    ensures
        r as nat == coefficient(b),
        r < 10_000_000_000_000_000,
{
    let c = (b >> 58u64) & 0x1f;
    assert(c <= 31 && (c >> 3u64) <= 3 && (c & 1) <= 1 && (c & 7) <= 7) by (bit_vector)
        requires
            c == (b >> 58u64) & 0x1f,
    ;
    let m = if (c >> 3u64) == 3 {
        8 + (c & 1)
    } else {
        c & 7
    };
    m * 1_000_000_000_000_000 + decode_continuation(b)
}

/// The unbiased exponent of a finite number.
pub fn decode_exponent(b: u64) -> (r: i32)
    ensures
        r as int == biased_exponent(b) - EXPONENT_BIAS,
        -398 <= r <= 625,
{
    let c = (b >> 58u64) & 0x1f;
    let e = (b >> 50u64) & 0xff;
    assert(c <= 31 && (c >> 3u64) <= 3 && ((c >> 1u64) & 3) <= 3 && e <= 255) by (bit_vector)
        requires
            c == (b >> 58u64) & 0x1f,
            e == (b >> 50u64) & 0xff,
    ;
    let high = if (c >> 3u64) == 3 {
        (c >> 1u64) & 3
    } else {
        c >> 3u64
    };
    let biased = high * 256 + e;
    (biased as i32) - EXPONENT_BIAS
}

/// The number of decimal digits of `c`, at least 1.
pub fn count_digits(c: u64) -> (r: u32)
    ensures
        r as nat == num_digits(c as nat),
        1 <= r <= 20,
{
    proof {
        lemma_pow10_values();
        lemma_num_digits_below(c as nat, 20);
    }
    let mut n: u64 = c;
    let mut k: u32 = 1;
    while n >= 10
        invariant
            1 <= k,
            k + num_digits(n as nat) - 1 == num_digits(c as nat),
            num_digits(c as nat) <= 20,
        decreases n,
    {
        proof {
            lemma_num_digits_positive((n / 10) as nat);
        }
        n = n / 10;
        k = k + 1;
    }
    k
}

/// `10^n` for the powers that fit a `u64`.
pub fn pow10_u64(n: u32) -> (r: u64)
    requires
        n <= 19,
    ensures
        r as nat == pow10(n as nat),
{
    let mut r: u64 = 1;
    let mut i: u32 = 0;
    while i < n
        invariant
            i <= n <= 19,
            r as nat == pow10(i as nat),
        decreases n - i,
    {
        proof {
            lemma_pow10_bounds(i as nat);
            lemma_pow10_monotonic(i as nat, 18);
            lemma_pow10_values();
        }
        r = r * 10;
        i = i + 1;
    }
    r
}

// ---------------------------------------------------------------------
// Lemmas.
pub proof fn lemma_pow10_bounds(n: nat)
    ensures
        pow10(n) >= 1,
        pow10(n + 1) == 10 * pow10(n),
    decreases n,
{
    if n > 0 {
        lemma_pow10_bounds((n - 1) as nat);
    }
}

/// The powers of ten that the decimal64 format uses.
pub proof fn lemma_pow10_values()
    ensures
        pow10(0) == 1,
        pow10(1) == 10,
        pow10(2) == 100,
        pow10(3) == 1000,
        pow10(9) == 1_000_000_000,
        pow10(15) == 1_000_000_000_000_000,
        pow10(16) == 10_000_000_000_000_000,
        pow10(17) == 100_000_000_000_000_000,
        pow10(18) == 1_000_000_000_000_000_000,
        pow10(19) == 10_000_000_000_000_000_000,
        pow10(20) == 100_000_000_000_000_000_000,
{
    reveal_with_fuel(pow10, 21);
}

/// A declet holds a value below 1000.
pub proof fn lemma_dpd_bound(d: u64)
    requires
        d < 1024,
    ensures
        dpd_value(d) <= 999,
{
    let pqr = (d >> 7u64) & 7;
    let stu = (d >> 4u64) & 7;
    let wxy = d & 7;
    let pq = (d >> 8u64) & 3;
    let st = (d >> 5u64) & 3;
    assert(pqr <= 7 && stu <= 7 && wxy <= 7 && pq <= 3 && st <= 3 && ((d >> 7u64) & 1) <= 1 && ((d
        >> 4u64) & 1) <= 1 && (d & 1) <= 1) by (bit_vector)
        requires
            pqr == (d >> 7u64) & 7,
            stu == (d >> 4u64) & 7,
            wxy == d & 7,
            pq == (d >> 8u64) & 3,
            st == (d >> 5u64) & 3,
    ;
}

/// A declet below 8 holds its own value.
pub proof fn lemma_dpd_small(d: u64)
    requires
        d < 8,
    ensures
        dpd_value(d) == d as nat,
{
    assert((d >> 3u64) & 1 == 0 && (d >> 7u64) & 7 == 0 && (d >> 4u64) & 7 == 0 && d & 7 == d)
        by (bit_vector)
        requires
            d < 8,
    ;
}

/// What the constant encodings stand for.
pub proof fn lemma_decode_constants()
    ensures
        decode(ZERO_BITS) == integer_value(0),
        decode(ONE_BITS) == integer_value(1),
        decode(MINUS_ONE_BITS) == integer_value(-1),
        decode(QNAN_BITS) == (Decoded::NaN { negative: false, signaling: false, payload: 0 }),
        decode(INFINITY_BITS) == (Decoded::Infinite { negative: false }),
        decode(NEG_INFINITY_BITS) == (Decoded::Infinite { negative: true }),
        is_canonical_enc(ZERO_BITS),
        is_canonical_enc(ONE_BITS),
        is_canonical_enc(MINUS_ONE_BITS),
        is_canonical_enc(QNAN_BITS),
        is_canonical_enc(INFINITY_BITS),
        is_canonical_enc(NEG_INFINITY_BITS),
{
    let z: u64 = 0x2238_0000_0000_0000;
    let o: u64 = 0x2238_0000_0000_0001;
    let m: u64 = 0xa238_0000_0000_0001;
    let q: u64 = 0x7c00_0000_0000_0000;
    let i: u64 = 0x7800_0000_0000_0000;
    let n: u64 = 0xf800_0000_0000_0000;
    assert(comb(z) == 8 && econ(z) == 0x8e && !sign_bit(z) && declet0(z) == 0 && declet1(z) == 0
        && declet2(z) == 0 && declet3(z) == 0 && declet4(z) == 0) by (bit_vector)
        requires z == 0x2238_0000_0000_0000u64;
    assert(comb(o) == 8 && econ(o) == 0x8e && !sign_bit(o) && declet0(o) == 1 && declet1(o) == 0
        && declet2(o) == 0 && declet3(o) == 0 && declet4(o) == 0) by (bit_vector)
        requires o == 0x2238_0000_0000_0001u64;
    assert(comb(m) == 8 && econ(m) == 0x8e && sign_bit(m) && declet0(m) == 1 && declet1(m) == 0
        && declet2(m) == 0 && declet3(m) == 0 && declet4(m) == 0) by (bit_vector)
        requires m == 0xa238_0000_0000_0001u64;
    assert(comb(q) == 0x1f && econ(q) == 0 && !sign_bit(q) && (q >> 57u64) & 1 == 0 && declet0(q)
        == 0 && declet1(q) == 0 && declet2(q) == 0 && declet3(q) == 0 && declet4(q) == 0
        && continuation_bits(q) == 0) by (bit_vector)
        requires q == 0x7c00_0000_0000_0000u64;
    assert(comb(i) == 0x1e && econ(i) == 0 && !sign_bit(i) && continuation_bits(i) == 0) by (bit_vector)
        requires i == 0x7800_0000_0000_0000u64;
    assert(comb(n) == 0x1e && econ(n) == 0 && sign_bit(n) && continuation_bits(n) == 0) by (bit_vector)
        requires n == 0xf800_0000_0000_0000u64;
    assert((8u64 >> 3u64) == 1 && (8u64 & 7) == 0) by (bit_vector);
    assert((0u64 & 0x300) == 0 && (1u64 & 0x300) == 0 && (0u64 & 0x7f) == 0) by (bit_vector);
    lemma_dpd_small(0);
    lemma_dpd_small(1);
}

pub proof fn lemma_num_digits_positive(c: nat)
    ensures
        num_digits(c) >= 1,
    decreases c,
{
    if c >= 10 {
        lemma_num_digits_positive(c / 10);
    }
}

/// A number below `10^j` has at most `j` digits.
pub proof fn lemma_num_digits_below(c: nat, j: nat)
    requires
        j >= 1,
        c < pow10(j),
    ensures
        num_digits(c) <= j,
    decreases j,
{
    if c >= 10 {
        lemma_pow10_bounds((j - 1) as nat);
        if j == 1 {
            lemma_pow10_values();
        } else {
            assert(c / 10 < pow10((j - 1) as nat));
            lemma_num_digits_below(c / 10, (j - 1) as nat);
        }
    }
}

pub proof fn lemma_pow10_monotonic(m: nat, n: nat)
    requires
        m <= n,
    ensures
        pow10(m) <= pow10(n),
    decreases n - m,
{
    if m < n {
        lemma_pow10_monotonic(m, (n - 1) as nat);
        lemma_pow10_bounds((n - 1) as nat);
    }
}

/// Powers of ten multiply by adding their exponents.
pub proof fn lemma_pow10_add(a: nat, b: nat)
    ensures
        pow10(a + b) == pow10(a) * pow10(b),
    decreases a,
{
    if a > 0 {
        let a1 = (a - 1) as nat;
        lemma_pow10_add(a1, b);
        assert((a1 + b) as nat == (a + b - 1) as nat);
        assert(pow10(a + b) == 10 * pow10(a1 + b));
        assert(pow10(a) == 10 * pow10(a1));
        let p = pow10(a1);
        let q = pow10(b);
        assert(10 * (p * q) == (10 * p) * q) by (nonlinear_arith);
    } else {
        assert(pow10(a) == 1);
    }
}

/// The coefficient of a finite encoding has at most sixteen digits.
pub proof fn lemma_coefficient_bound(b: u64)
    ensures
        coefficient(b) < pow10(16),
        continuation(b) < 1_000_000_000_000_000,
{
    lemma_pow10_values();
    let c = comb(b);
    assert(c == (b >> 58u64) & 0x1f ==> (c >> 3u64) == 3 ==> (c & 1) <= 1) by (bit_vector);
    assert(c & 7 <= 7) by (bit_vector);
    assert(declet0(b) < 1024 && declet1(b) < 1024 && declet2(b) < 1024 && declet3(b) < 1024
        && declet4(b) < 1024) by (bit_vector);
    lemma_dpd_bound(declet0(b));
    lemma_dpd_bound(declet1(b));
    lemma_dpd_bound(declet2(b));
    lemma_dpd_bound(declet3(b));
    lemma_dpd_bound(declet4(b));
}

} // verus!
