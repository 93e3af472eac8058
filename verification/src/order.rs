//! Comparisons of `d64` values: numeric comparison, the total order, and the
//! `==` and `<` operators built on them.
use vstd::prelude::*;
use core::cmp::Ordering;
use crate::dec64::{d64, DecimalOperand};
use crate::encoding::{
    decode, numeric_order, total_order, nan_result, integer_value, quiet, comb, sign_bit,
    continuation, continuation_bits, is_canonical_enc, econ, declet0, declet1, declet2, declet3, declet4, Decoded, ZERO_BITS,
    ONE_BITS, MINUS_ONE_BITS,
};
use crate::bindings::canonical_bits;
use dec::{Context, Decimal64};

verus! {

broadcast use {d64::lemma_raw_of_from_raw, d64::lemma_from_raw_of_raw};

/// The ordering that -1, 0 or 1 stands for.
pub open spec fn ordering_of(k: int) -> Ordering {
    if k < 0 {
        Ordering::Less
    } else if k == 0 {
        Ordering::Equal
    } else {
        Ordering::Greater
    }
}

/// The encoding of -1, 0 or 1.
pub open spec fn unit_bits(k: int) -> u64 {
    if k < 0 {
        MINUS_ONE_BITS
    } else if k == 0 {
        ZERO_BITS
    } else {
        ONE_BITS
    }
}

/// What `compare` returns: the NaN that propagates if either operand is a
/// NaN, else -1, 0 or 1 by numeric comparison.
pub open spec fn compare_value(a: Decoded, b: Decoded) -> Decoded {
    if a.is_nan() || b.is_nan() {
        nan_result(a, b)
    } else {
        integer_value(numeric_order(a, b))
    }
}

/// `decDoubleCompare`, as `dec::Context::<Decimal64>::partial_cmp` reports
/// it: no ordering if either operand is a NaN, else the numeric comparison.
#[verifier::external_body]
fn numeric_ordering(a: u64, b: u64) -> (r: Option<Ordering>)
    ensures
        r == (if decode(a).is_nan() || decode(b).is_nan() {
            None
        } else {
            Some(ordering_of(numeric_order(decode(a), decode(b))))
        }),
{
    Context::<Decimal64>::default().partial_cmp(Decimal64::from_le_bytes(a.to_le_bytes()), Decimal64::from_le_bytes(b.to_le_bytes()))
}

/// `decDoubleCompareTotal`, as `dec::Decimal64::total_cmp` reports it: the
/// IEEE 754 total order.
#[verifier::external_body]
fn total_ordering(a: u64, b: u64) -> (r: Ordering)
    ensures
        r == ordering_of(total_order(decode(a), decode(b))),
{
    Decimal64::from_le_bytes(a.to_le_bytes()).total_cmp(&Decimal64::from_le_bytes(b.to_le_bytes()))
}

/// Clearing the signaling bit of a NaN encoding makes it quiet and changes
/// nothing else it stands for.
proof fn lemma_quieted(c: u64)
    requires
        decode(c).is_nan(),
    ensures
        decode(c & 0xfdff_ffff_ffff_ffff) == quiet(decode(c)),
        is_canonical_enc(c) ==> is_canonical_enc(c & 0xfdff_ffff_ffff_ffff),
{
    let q = c & 0xfdff_ffff_ffff_ffff;
    assert(comb(q) == comb(c) && sign_bit(q) == sign_bit(c) && (q >> 57u64) & 1 == 0 && declet0(q)
        == declet0(c) && declet1(q) == declet1(c) && declet2(q) == declet2(c) && declet3(q)
        == declet3(c) && declet4(q) == declet4(c) && econ(q) & 0x7f == econ(c) & 0x7f
        && continuation_bits(q) == continuation_bits(c)) by (bit_vector)
        requires
            q == c & 0xfdff_ffff_ffff_ffff,
    ;
}

impl d64 {
    // Comparisons.
    /// Compares `self` and `other` numerically and returns the result. The result may be –1, 0, 1,
    /// or NaN (unordered); –1 indicates that `self` is less than `other`, 0 indicates that they
    /// are numerically equal, and 1 indicates that `self` is greater than `other`. NaN is returned
    /// only if `self` or `other` is a NaN.
    pub fn compare<O: DecimalOperand>(&self, other: O) -> (r: d64)
        ensures
            r.value() == compare_value(self.value(), other.operand_view().value()),
            !self.value().is_nan() && !other.operand_view().value().is_nan() ==> r.raw()
                == unit_bits(numeric_order(self.value(), other.operand_view().value())),
            self.value().is_nan() || other.operand_view().value().is_nan() ==> is_canonical_enc(
                r.raw(),
            ),
    {
        let o = other.operand();
        let x = self.bits();
        let y = o.bits();
        proof {
            crate::encoding::lemma_decode_constants();
        }
        match numeric_ordering(x, y) {
            Some(Ordering::Less) => d64::from_bits(MINUS_ONE_BITS),
            Some(Ordering::Equal) => d64::from_bits(ZERO_BITS),
            Some(Ordering::Greater) => d64::from_bits(ONE_BITS),
            None => {
                let pick = if o.is_signaling() && !self.is_signaling() {
                    y
                } else if self.is_nan() {
                    x
                } else {
                    y
                };
                let c = canonical_bits(pick);
                proof {
                    lemma_quieted(c);
                }
                d64::from_bits(c & 0xfdff_ffff_ffff_ffff)
            },
        }
    }

    /// Compares `self` and `other` using the IEEE 754 total ordering (which takes into account the
    /// exponent) and returns the result. No status is set (a signaling NaN is ordered between
    /// Infinity and NaN). The result will be –1, 0, or 1.
    pub fn compare_total<O: DecimalOperand>(&self, other: O) -> (r: d64)
        ensures
            r.raw() == unit_bits(total_order(self.value(), other.operand_view().value())),
            r.value() == integer_value(total_order(self.value(), other.operand_view().value())),
    {
        let o = other.operand();
        proof {
            crate::encoding::lemma_decode_constants();
        }
        match total_ordering(self.bits(), o.bits()) {
            Ordering::Less => d64::from_bits(MINUS_ONE_BITS),
            Ordering::Equal => d64::from_bits(ZERO_BITS),
            Ordering::Greater => d64::from_bits(ONE_BITS),
        }
    }
}

impl vstd::std_specs::cmp::PartialEqSpecImpl for d64 {
    open spec fn obeys_eq_spec() -> bool {
        true
    }

    /// Numerically equal, neither being a NaN.
    open spec fn eq_spec(&self, other: &d64) -> bool {
        !self.value().is_nan() && !other.value().is_nan() && numeric_order(
            self.value(),
            other.value(),
        ) == 0
    }
}

/// Numeric equality: `self.compare(other)` is zero.
impl PartialEq for d64 {
    fn eq(&self, other: &d64) -> (r: bool) {
        self.compare(other).is_zero()
    }
}

impl vstd::std_specs::cmp::PartialOrdSpecImpl for d64 {
    open spec fn obeys_partial_cmp_spec() -> bool {
        true
    }

    /// No ordering if either is a NaN, else the numeric comparison.
    open spec fn partial_cmp_spec(&self, other: &d64) -> Option<Ordering> {
        if self.value().is_nan() || other.value().is_nan() {
            None
        } else {
            Some(ordering_of(numeric_order(self.value(), other.value())))
        }
    }
}

/// The numeric order, from `self.compare(other)`.
impl PartialOrd for d64 {
    fn partial_cmp(&self, other: &d64) -> (r: Option<Ordering>) {
        let v = self.compare(other);
        if v.is_nan() {
            None
        } else if v.is_zero() {
            Some(Ordering::Equal)
        } else if v.is_positive() {
            Some(Ordering::Greater)
        } else {
            Some(Ordering::Less)
        }
    }
}

} // verus!
