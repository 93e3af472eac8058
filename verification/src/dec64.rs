//! The `d64` type: a decimal64 number held as its 64-bit encoding, with the
//! queries that read the encoding directly.
use vstd::prelude::*;
use crate::encoding::{
    decode, decode_coefficient, decode_continuation, decode_exponent, count_digits, num_digits,
    binary_digits, is_canonical_enc, declet_canonical, declets_canonical, continuation_bits,
    econ, comb, Decoded, EMIN, ZERO_BITS, QNAN_BITS, INFINITY_BITS, NEG_INFINITY_BITS,
    lemma_num_digits_positive,
};

verus! {

/// A 64-bit decimal floating point type.
#[derive(Clone, Copy, Debug, Hash)]
pub struct d64 {
    bits: u64,
}

/// The class of a decimal64 value, in the order of decNumber's `decClass`.
#[derive(Clone, Copy, Debug, PartialEq, Eq, Structural)]
pub enum Class {
    Snan,
    Qnan,
    NegInf,
    NegNormal,
    NegSubnormal,
    NegZero,
    PosZero,
    PosSubnormal,
    PosNormal,
    PosInf,
}

/// The floating point categories of `std::num::FpCategory`.
#[derive(Clone, Copy, Debug, PartialEq, Eq, Structural)]
pub enum FpCategory {
    Nan,
    Infinite,
    Zero,
    Subnormal,
    Normal,
}

/// A `d64` operand given by value or by reference, as the methods with a
/// second operand take it.
pub trait DecimalOperand {
    /// The operand.
    spec fn operand_view(&self) -> d64;

    fn operand(&self) -> (r: d64)
        ensures
            r == self.operand_view(),
    ;
}

impl DecimalOperand for d64 {
    open spec fn operand_view(&self) -> d64 {
        *self
    }

    fn operand(&self) -> (r: d64) {
        *self
    }
}

impl<'a> DecimalOperand for &'a d64 {
    open spec fn operand_view(&self) -> d64 {
        **self
    }

    fn operand(&self) -> (r: d64) {
        **self
    }
}

impl AsRef<d64> for d64 {
    fn as_ref(&self) -> (r: &d64)
        ensures
            *r == *self,
    {
        self
    }
}

/// The adjusted exponent below which the documentation calls a finite,
/// non-zero number subnormal: magnitudes under 10^-6143.
pub const SUBNORMAL_LIMIT: i32 = -6143;

/// The class of a decoded value.
pub open spec fn class_of(v: Decoded) -> Class {
    match v {
        Decoded::NaN { signaling, .. } => if signaling {
            Class::Snan
        } else {
            Class::Qnan
        },
        Decoded::Infinite { negative } => if negative {
            Class::NegInf
        } else {
            Class::PosInf
        },
        Decoded::Finite { negative, .. } => if v.is_zero() {
            if negative {
                Class::NegZero
            } else {
                Class::PosZero
            }
        } else if v.is_normal() {
            if negative {
                Class::NegNormal
            } else {
                Class::PosNormal
            }
        } else if negative {
            Class::NegSubnormal
        } else {
            Class::PosSubnormal
        },
    }
}

/// The category that `classify` gives to each class.
pub open spec fn category_of(c: Class) -> FpCategory {
    match c {
        Class::Snan | Class::Qnan => FpCategory::Nan,
        Class::NegInf | Class::PosInf => FpCategory::Infinite,
        Class::NegZero | Class::PosZero => FpCategory::Zero,
        Class::NegNormal | Class::PosNormal => FpCategory::Normal,
        Class::NegSubnormal | Class::PosSubnormal => FpCategory::Subnormal,
    }
}

/// The word whose little-endian bytes are `b`.
pub open spec fn le_word(b: [u8; 8]) -> u64 {
    (b[0] as u64) | ((b[1] as u64) << 8u64) | ((b[2] as u64) << 16u64) | ((b[3] as u64) << 24u64)
        | ((b[4] as u64) << 32u64) | ((b[5] as u64) << 40u64) | ((b[6] as u64) << 48u64) | ((
    b[7] as u64) << 56u64)
}

/// The little-endian bytes of `x`.
pub open spec fn le_bytes(x: u64) -> [u8; 8] {
    [
        (x & 0xff) as u8,
        ((x >> 8u64) & 0xff) as u8,
        ((x >> 16u64) & 0xff) as u8,
        ((x >> 24u64) & 0xff) as u8,
        ((x >> 32u64) & 0xff) as u8,
        ((x >> 40u64) & 0xff) as u8,
        ((x >> 48u64) & 0xff) as u8,
        ((x >> 56u64) & 0xff) as u8,
    ]
}

impl d64 {
    /// The encoding of `self`.
    pub closed spec fn raw(self) -> u64 {
        self.bits
    }

    /// The `d64` with encoding `b`.
    pub closed spec fn from_raw_spec(b: u64) -> d64 {
        d64 { bits: b }
    }

    /// What `self` stands for.
    pub open spec fn value(self) -> Decoded {
        decode(self.raw())
    }

    pub broadcast proof fn lemma_raw_of_from_raw(b: u64)
        ensures
            #[trigger] d64::from_raw_spec(b).raw() == b,
    {
    }

    pub broadcast proof fn lemma_from_raw_of_raw(x: d64)
        ensures
            #[trigger] d64::from_raw_spec(x.raw()) == x,
    {
    }

    pub proof fn lemma_raw_injective(x: d64, y: d64)
        requires
            x.raw() == y.raw(),
        ensures
            x == y,
    {
    }

    pub(crate) fn from_bits(b: u64) -> (r: d64)
        ensures
            r == d64::from_raw_spec(b),
            r.raw() == b,
    {
        d64 { bits: b }
    }

    pub(crate) fn bits(&self) -> (r: u64)
        ensures
            r == self.raw(),
    {
        self.bits
    }

    /// Creates a d64 from raw bytes, least significant byte first (the byte
    /// order of the little-endian hosts on which the encoding is stored).
    pub fn from_raw_bytes(bytes: [u8; 8]) -> (r: d64)
        ensures
            r.raw() == le_word(bytes),
    {
        let w = (bytes[0] as u64) | ((bytes[1] as u64) << 8u64) | ((bytes[2] as u64) << 16u64) | ((
        bytes[3] as u64) << 24u64) | ((bytes[4] as u64) << 32u64) | ((bytes[5] as u64) << 40u64)
            | ((bytes[6] as u64) << 48u64) | ((bytes[7] as u64) << 56u64);
        d64 { bits: w }
    }

    /// Returns raw bytes for this d64, least significant byte first.
    pub fn to_raw_bytes(&self) -> (r: [u8; 8])
        ensures
            r == le_bytes(self.raw()),
    {
        let x = self.bits;
        [
            (x & 0xff) as u8,
            ((x >> 8u64) & 0xff) as u8,
            ((x >> 16u64) & 0xff) as u8,
            ((x >> 24u64) & 0xff) as u8,
            ((x >> 32u64) & 0xff) as u8,
            ((x >> 40u64) & 0xff) as u8,
            ((x >> 48u64) & 0xff) as u8,
            ((x >> 56u64) & 0xff) as u8,
        ]
    }

    /// Returns the d64 representing +0.
    pub fn zero() -> (r: d64)
        ensures
            r.raw() == ZERO_BITS,
            r.value() == (Decoded::Finite { negative: false, coefficient: 0, exponent: 0 }),
    {
        proof {
            crate::encoding::lemma_decode_constants();
        }
        d64 { bits: ZERO_BITS }
    }

    /// Returns the d64 representing +Infinity.
    pub fn infinity() -> (r: d64)
        ensures
            r.raw() == INFINITY_BITS,
            r.value() == (Decoded::Infinite { negative: false }),
    {
        proof {
            crate::encoding::lemma_decode_constants();
        }
        d64 { bits: INFINITY_BITS }
    }

    /// Returns the d64 representing -Infinity.
    pub fn neg_infinity() -> (r: d64)
        ensures
            r.raw() == NEG_INFINITY_BITS,
            r.value() == (Decoded::Infinite { negative: true }),
    {
        proof {
            crate::encoding::lemma_decode_constants();
        }
        d64 { bits: NEG_INFINITY_BITS }
    }

    /// The canonical quiet NaN.
    pub(crate) fn qnan() -> (r: d64)
        ensures
            r.raw() == QNAN_BITS,
            r.value() == (Decoded::NaN { negative: false, signaling: false, payload: 0 }),
    {
        proof {
            crate::encoding::lemma_decode_constants();
        }
        d64 { bits: QNAN_BITS }
    }

    // Non-computational.
    /// Returns `true` if `self` is a NaN (quiet or signaling), or `false` otherwise.
    pub fn is_nan(&self) -> (r: bool)
        ensures
            r == self.value().is_nan(),
    {
        ((self.bits >> 58u64) & 0x1f) == 0x1f
    }

    /// Returns `true` if the encoding of `self` is an infinity, or `false` otherwise.
    pub fn is_infinite(&self) -> (r: bool)
        ensures
            r == self.value().is_infinite(),
    {
        ((self.bits >> 58u64) & 0x1f) == 0x1e
    }

    /// Returns `true` if `self` is neither infinite nor a NaN, or `false` otherwise.
    pub fn is_finite(&self) -> (r: bool)
        ensures
            r == self.value().is_finite(),
    {
        let c = (self.bits >> 58u64) & 0x1f;
        c != 0x1e && c != 0x1f
    }

    /// Returns `true` if `self` is a signaling NaN, or `false` otherwise.
    pub fn is_signaling(&self) -> (r: bool)
        ensures
            r == self.value().is_signaling(),
    {
        ((self.bits >> 58u64) & 0x1f) == 0x1f && ((self.bits >> 57u64) & 1) == 1
    }

    /// Returns `true` if `self` has a minus sign, or `false` otherwise. Note that zeros and NaNs
    /// may have a minus sign.
    pub fn is_signed(&self) -> (r: bool)
        ensures
            r == self.value().negative(),
    {
        (self.bits >> 63u64) == 1
    }

    /// Returns `true` if `self` is zero, or `false` otherwise.
    pub fn is_zero(&self) -> (r: bool)
        ensures
            r == self.value().is_zero(),
    {
        self.is_finite() && decode_coefficient(self.bits) == 0
    }

    /// Returns `true` if `self` is less than zero and not a NaN, or `false` otherwise.
    pub fn is_negative(&self) -> (r: bool)
        ensures
            r == self.value().is_negative(),
    {
        self.is_signed() && !self.is_zero() && !self.is_nan()
    }

    /// Returns `true` if `self` is greater than zero and not a NaN, or `false` otherwise.
    pub fn is_positive(&self) -> (r: bool)
        ensures
            r == self.value().is_positive(),
    {
        !self.is_signed() && !self.is_zero() && !self.is_nan()
    }

    /// Returns the number of significant digits in `self`. If `self` is a zero or is infinite, 1
    /// is returned. If `self` is a NaN then the number of digits in the payload is returned.
    pub fn digits(&self) -> (r: u32)
        ensures
            r as nat == self.value().digits(),
            1 <= r <= 16,
    {
        proof {
            crate::encoding::lemma_pow10_values();
        }
        if self.is_infinite() {
            1
        } else if self.is_nan() {
            let p = decode_continuation(self.bits);
            proof {
                crate::encoding::lemma_num_digits_below(p as nat, 16);
            }
            count_digits(p)
        } else {
            let c = decode_coefficient(self.bits);
            proof {
                crate::encoding::lemma_num_digits_below(c as nat, 16);
            }
            count_digits(c)
        }
    }

    /// Returns `true` if `self` is finite and its exponent is zero, or `false` otherwise.
    pub fn is_integer(&self) -> (r: bool)
        ensures
            r == self.value().is_integer(),
    {
        self.is_finite() && decode_exponent(self.bits) == 0
    }

    /// Finite, non-zero and with an adjusted exponent of at least `EMIN`:
    /// what sets a normal class apart from a subnormal one.
    fn in_normal_range(&self) -> (r: bool)
        ensures
            r == self.value().is_normal(),
    {
        if !self.is_finite() || self.is_zero() {
            false
        } else {
            let e = decode_exponent(self.bits);
            let d = self.digits();
            e + (d as i32) - 1 >= EMIN
        }
    }

    /// Returns `true` if `self` is a normal number (that is, is finite, non-zero, and not
    /// subnormal), or `false` otherwise.
    pub fn is_normal(&self) -> (r: bool)
        ensures
            r == (self.value().is_finite() && !self.value().is_zero()
                && !self.value().magnitude_below(SUBNORMAL_LIMIT as int)),
    {
        self.is_finite() && !self.is_zero() && !self.is_subnormal()
    }

    /// Returns `true` if `self` is subnormal (that is, finite, non-zero, and with magnitude less
    /// than 10<sup>-6143</sup>), or `false` otherwise.
    pub fn is_subnormal(&self) -> (r: bool)
        ensures
            r == self.value().magnitude_below(SUBNORMAL_LIMIT as int),
    {
        if !self.is_finite() || self.is_zero() {
            false
        } else {
            let e = decode_exponent(self.bits);
            let d = self.digits();
            e + (d as i32) - 1 < SUBNORMAL_LIMIT
        }
    }

    /// Returns `true` if `self`  is a valid argument for logical operations (that is, `self` is
    /// zero or positive, an integer (finite with a zero exponent) and comprises only zeros and/or
    /// ones), or `false` otherwise.
    pub fn is_logical(&self) -> (r: bool)
        ensures
            r == self.value().is_logical(),
    {
        self.is_finite() && !self.is_signed() && decode_exponent(self.bits) == 0
            && has_binary_digits(decode_coefficient(self.bits))
    }

    /// Returns `true` if the encoding of `self` is canonical, or `false` otherwise.
    pub fn is_canonical(&self) -> (r: bool)
        ensures
            r == is_canonical_enc(self.raw()),
    {
        let b = self.bits;
        let c = (b >> 58u64) & 0x1f;
        let e = (b >> 50u64) & 0xff;
        let cc = b & 0x3_ffff_ffff_ffff;
        if c == 0x1e {
            e == 0 && cc == 0
        } else if c == 0x1f {
            (e & 0x7f) == 0 && (cc == 0 || all_declets_canonical(b))
        } else {
            all_declets_canonical(b)
        }
    }

    /// Returns the class of `self`.
    pub fn class(&self) -> (r: Class)
        ensures
            r == class_of(self.value()),
    {
        let neg = self.is_signed();
        if self.is_nan() {
            if self.is_signaling() {
                Class::Snan
            } else {
                Class::Qnan
            }
        } else if self.is_infinite() {
            if neg {
                Class::NegInf
            } else {
                Class::PosInf
            }
        } else if self.is_zero() {
            if neg {
                Class::NegZero
            } else {
                Class::PosZero
            }
        } else if self.in_normal_range() {
            if neg {
                Class::NegNormal
            } else {
                Class::PosNormal
            }
        } else if neg {
            Class::NegSubnormal
        } else {
            Class::PosSubnormal
        }
    }

    /// Same as `class()` but returns the floating point category.
    pub fn classify(&self) -> (r: FpCategory)
        ensures
            r == category_of(class_of(self.value())),
    {
        match self.class() {
            Class::Qnan | Class::Snan => FpCategory::Nan,
            Class::PosInf | Class::NegInf => FpCategory::Infinite,
            Class::PosZero | Class::NegZero => FpCategory::Zero,
            Class::PosNormal | Class::NegNormal => FpCategory::Normal,
            Class::PosSubnormal | Class::NegSubnormal => FpCategory::Subnormal,
        }
    }
}

/// The default d64 is +0.
impl Default for d64 {
    fn default() -> (r: d64)
        ensures
            r.raw() == ZERO_BITS,
    {
        d64::zero()
    }
}

/// Whether every decimal digit of `c` is 0 or 1.
fn has_binary_digits(c: u64) -> (r: bool)
    ensures
        r == binary_digits(c as nat),
    decreases c,
{
    if c == 0 {
        true
    } else {
        c % 10 <= 1 && has_binary_digits(c / 10)
    }
}

/// Whether all five declets of `b` are canonical.
fn all_declets_canonical(b: u64) -> (r: bool)
    ensures
        r == declets_canonical(b),
{
    let d0 = b & 0x3ff;
    let d1 = (b >> 10u64) & 0x3ff;
    let d2 = (b >> 20u64) & 0x3ff;
    let d3 = (b >> 30u64) & 0x3ff;
    let d4 = (b >> 40u64) & 0x3ff;
    ((d0 & 0x300) == 0 || (d0 & 0x6e) != 0x6e) && ((d1 & 0x300) == 0 || (d1 & 0x6e) != 0x6e) && ((d2
        & 0x300) == 0 || (d2 & 0x6e) != 0x6e) && ((d3 & 0x300) == 0 || (d3 & 0x6e) != 0x6e) && ((d4
        & 0x300) == 0 || (d4 & 0x6e) != 0x6e)
}

} // verus!
