//! Conversions of `d64` to and from integers and text.
use vstd::prelude::*;
use crate::dec64::d64;
use crate::encoding::{is_canonical_enc, is_numeral, digits_value, integer_value, 
    decode, decode_coefficient, rounded_abs, decode_exponent, pow10, pow10_u64, signum, Decoded, QNAN_BITS,
    lemma_pow10_values, lemma_pow10_monotonic, lemma_pow10_bounds,
};
use crate::bindings::{
    dec_from_i32, dec_from_u32, dec_parse, dec_to_string, dec_to_eng_string, dec_minus,
    from_i32_bits, from_u32_bits, parse_bits, to_string_bits, to_eng_string_bits, minus_bits,
    push_char,
};
use std::str::FromStr;

verus! {

broadcast use {d64::lemma_raw_of_from_raw, d64::lemma_from_raw_of_raw};

// ---------------------------------------------------------------------
// Text.
/// The hexadecimal digit for `d < 16`, lower case.
pub open spec fn hex_char(d: u64) -> char {
    if d < 10 {
        ((48 + d) as u8) as char
    } else {
        ((87 + d) as u8) as char
    }
}

/// The value of a hexadecimal digit of either case.
pub open spec fn hex_value(c: char) -> Option<u64> {
    let v = c as u32;
    if 48 <= v <= 57 {
        Some((v - 48) as u64)
    } else if 97 <= v <= 102 {
        Some((v - 87) as u64)
    } else if 65 <= v <= 70 {
        Some((v - 55) as u64)
    } else {
        None
    }
}

/// The sixteen lower-case hexadecimal digits of `b`, most significant first.
pub open spec fn hex_string(b: u64) -> Seq<char> {
    Seq::new(16, |i: int| hex_char((b >> ((60 - 4 * i) as u64)) & 0xf))
}

/// The word spelled by the first `k` hexadecimal digits of `s`.
pub open spec fn hex_prefix(s: Seq<char>, k: nat) -> u64
    decreases k,
{
    if k == 0 {
        0
    } else {
        (hex_prefix(s, (k - 1) as nat) << 4u64) | (match hex_value(s[k - 1]) {
            Some(v) => v,
            None => 0,
        })
    }
}

/// The word that sixteen hexadecimal digits spell; nothing for any other text.
pub open spec fn parse_hex(s: Seq<char>) -> Option<u64> {
    if s.len() == 16 && forall|i: int| 0 <= i < 16 ==> (#[trigger] hex_value(s[i])) is Some {
        Some(hex_prefix(s, 16))
    } else {
        None
    }
}

/// The decimal digit character for `d < 10`.
pub open spec fn digit_char(d: nat) -> char {
    ((48 + d) as u8) as char
}

/// The decimal numeral of `n`, without leading zeros.
pub open spec fn decimal_string(n: nat) -> Seq<char>
    decreases n,
{
    if n < 10 {
        seq![digit_char(n)]
    } else {
        decimal_string(n / 10).push(digit_char(n % 10))
    }
}

/// The numeral of `n` consists of decimal digits and spells `n`.
pub proof fn law_decimal_numeral(n: nat)
    ensures
        is_numeral(decimal_string(n)),
        digits_value(decimal_string(n)) == n,
    decreases n,
{
    let s = decimal_string(n);
    let d = n % 10;
    assert(d < 10);
    assert(digit_char(d) as int == 48 + d);
    if n < 10 {
        assert(d == n);
        assert(s.drop_last() =~= Seq::<char>::empty());
        assert(s.last() == digit_char(d));
        assert(digits_value(s.drop_last()) == 0);
        assert(digits_value(s) == digits_value(s.drop_last()) * 10 + (s.last() as int - 48));
    } else {
        law_decimal_numeral(n / 10);
        let t = decimal_string(n / 10);
        assert(s.drop_last() =~= t);
        assert(forall|i: int| 0 <= i < t.len() ==> s[i] == t[i]);
        vstd::arithmetic::div_mod::lemma_fundamental_div_mod(n as int, 10);
        assert(s.last() == digit_char(d));
        assert(digits_value(s) == digits_value(t) * 10 + (s.last() as int - 48));
        assert(digits_value(t) == n / 10);
    }
}

/// The encoding that parsing `s` gives: the number it spells, or the quiet
/// NaN where its syntax is invalid.
pub open spec fn parsed(s: Seq<char>) -> u64 {
    match dec_parse(s) {
        Some(b) => b,
        None => QNAN_BITS,
    }
}

/// What `d64::from(n)` gives for an unsigned 64-bit integer: its decimal
/// numeral, parsed.
pub open spec fn from_u64_bits(n: u64) -> u64 {
    parsed(decimal_string(n as nat))
}

fn hex_digit(d: u64) -> (c: char)
    requires
        d < 16,
    ensures
        c == hex_char(d),
{
    if d < 10 {
        ((48 + d) as u8) as char
    } else {
        ((87 + d) as u8) as char
    }
}

fn hex_digit_value(c: char) -> (r: Option<u64>)
    ensures
        r == hex_value(c),
{
    let v = c as u32;
    if 48 <= v && v <= 57 {
        Some((v - 48) as u64)
    } else if 97 <= v && v <= 102 {
        Some((v - 87) as u64)
    } else if 65 <= v && v <= 70 {
        Some((v - 55) as u64)
    } else {
        None
    }
}

/// Appends the decimal numeral of `n`.
fn push_decimal(s: &mut String, n: u64)
    ensures
        final(s)@ == old(s)@ + decimal_string(n as nat),
    decreases n,
{
    if n >= 10 {
        push_decimal(s, n / 10);
    }
    push_char(s, ((48 + n % 10) as u8) as char);
    proof {
        assert(old(s)@ + decimal_string(n as nat) =~= (if n >= 10 {
            old(s)@ + decimal_string((n / 10) as nat)
        } else {
            old(s)@
        }).push(digit_char((n % 10) as nat)));
    }
}

impl d64 {
    /// Formats the hexadecimal binary representation: the sixteen lower-case
    /// hexadecimal digits of the encoding, most significant first.
    pub fn to_hex(&self) -> (r: String)
        ensures
            r@ == hex_string(self.raw()),
    {
        let b = self.bits();
        let mut s = String::new();
        let mut i: u64 = 0;
        while i < 16
            invariant
                i <= 16,
                b == self.raw(),
                s@ == hex_string(b).take(i as int),
            decreases 16 - i,
        {
            let sh: u64 = 60 - 4 * i;
            let d = (b >> sh) & 0xf;
            assert(d < 16) by (bit_vector)
                requires
                    d == (b >> sh) & 0xf,
            ;
            push_char(&mut s, hex_digit(d));
            assert(s@ =~= hex_string(b).take(i + 1));
            i = i + 1;
        }
        assert(hex_string(b).take(16) =~= hex_string(b));
        s
    }

    /// Reads the hex binary representation from a string: the reverse of
    /// `to_hex`. Sixteen hexadecimal digits of either case give the encoding
    /// they spell; any other string gives the quiet NaN.
    pub fn from_hex(s: &str) -> (r: d64)
        ensures
            r.raw() == (match parse_hex(s@) {
                Some(b) => b,
                None => QNAN_BITS,
            }),
    {
        let n = s.unicode_len();
        if n != 16 {
            return d64::from_bits(QNAN_BITS);
        }
        let mut acc: u64 = 0;
        let mut i: usize = 0;
        while i < 16
            invariant
                i <= 16,
                s@.len() == 16,
                acc == hex_prefix(s@, i as nat),
                forall|j: int| 0 <= j < i ==> (#[trigger] hex_value(s@[j])) is Some,
            decreases 16 - i,
        {
            match hex_digit_value(s.get_char(i)) {
                Some(v) => {
                    acc = (acc << 4u64) | v;
                },
                None => {
                    return d64::from_bits(QNAN_BITS);
                },
            }
            i = i + 1;
        }
        d64::from_bits(acc)
    }

    /// Formats `self` as decDoubleToString does: exponential notation when
    /// the exponent is positive or more than five zeros would follow the
    /// decimal point; Infinity, -Infinity, NaN and sNaN (with any payload)
    /// otherwise.
    /// A canonical encoding reads back from its string unchanged.
    pub fn to_string(&self) -> (r: String)
        ensures
            r@ == dec_to_string(self.raw()),
            is_canonical_enc(self.raw()) ==> parsed(r@) == self.raw(),
    {
        to_string_bits(self.bits())
    }

    /// Formats `self` with engineering notation: as `to_string`, but an
    /// exponent, where one is shown, is a multiple of 3.
    pub fn to_eng_string(&self) -> (r: String)
        ensures
            r@ == dec_to_eng_string(self.raw()),
    {
        to_eng_string_bits(self.bits())
    }

    /// Converts a string to d64, rounding to 16 digits where needed. A string
    /// whose syntax is invalid gives a quiet NaN; the result is always `Ok`.
    pub fn from_str(s: &str) -> (r: Result<d64, ()>)
        ensures
            r matches Ok(x) && x.raw() == parsed(s@),
            s@.contains('\0') ==> (r matches Ok(x) && x.raw() == QNAN_BITS),
            is_numeral(s@) && digits_value(s@) < pow10(16) ==> (r matches Ok(x) && x.value()
                == integer_value(digits_value(s@))),
    {
        match parse_bits(s).0 {
            Some(b) => Ok(d64::from_bits(b)),
            None => Ok(d64::from_bits(QNAN_BITS)),
        }
    }

    /// Converts this d64 to an `i32`, rounding half to even; a NaN, an
    /// infinity or a value out of range gives 0.
    pub(crate) fn to_i32(&self) -> (r: i32)
        ensures
            r == to_i32_value(self.value()),
    {
        match rounded_magnitude(self) {
            None => 0,
            Some(m) => {
                if self.is_signed() {
                    if m <= 2147483648 {
                        (-(m as i64)) as i32
                    } else {
                        0
                    }
                } else if m <= 2147483647 {
                    m as i32
                } else {
                    0
                }
            },
        }
    }

    /// Converts this d64 to a `u32`, rounding half to even; a NaN, an
    /// infinity or a value out of range gives 0.
    pub(crate) fn to_u32(&self) -> (r: u32)
        ensures
            r == to_u32_value(self.value()),
    {
        match rounded_magnitude(self) {
            None => 0,
            Some(m) => {
                if self.is_signed() {
                    0
                } else if m <= 4294967295 {
                    m as u32
                } else {
                    0
                }
            },
        }
    }
}

/// The value rounded to an integer, half to even; 0 for a NaN or infinity.
pub open spec fn rounded_integer(v: Decoded) -> int {
    match v {
        Decoded::Finite { negative, coefficient, exponent } => signum(negative) * rounded_abs(
            coefficient,
            exponent,
        ),
        _ => 0,
    }
}

/// What the conversion to `i32` gives.
pub open spec fn to_i32_value(v: Decoded) -> i32 {
    if v.is_finite() && i32::MIN <= rounded_integer(v) <= i32::MAX {
        rounded_integer(v) as i32
    } else {
        0
    }
}

/// What the conversion to `u32` gives.
pub open spec fn to_u32_value(v: Decoded) -> u32 {
    if v.is_finite() && 0 <= rounded_integer(v) <= u32::MAX {
        rounded_integer(v) as u32
    } else {
        0
    }
}

/// The rounded magnitude of a finite `x` where it is at most 2^32; `None`
/// for a NaN, an infinity or a larger magnitude.
fn rounded_magnitude(x: &d64) -> (r: Option<u64>)
    ensures
        match r {
            Some(m) => x.value() matches Decoded::Finite { coefficient, exponent, .. } && m
                == rounded_abs(coefficient, exponent) && m <= 4294967296,
            None => !x.value().is_finite() || (x.value() matches Decoded::Finite {
                coefficient,
                exponent,
                ..
            } && rounded_abs(coefficient, exponent) > 4294967296),
        },
{
    if !x.is_finite() {
        return None;
    }
    let c = decode_coefficient(x.bits());
    let e = decode_exponent(x.bits());
    proof {
        lemma_pow10_values();
    }
    if e >= 0 {
        if c == 0 {
            assert(0 * pow10(e as nat) == 0);
            Some(0)
        } else if e > 9 || c > 4294967296 {
            proof {
                lemma_pow10_bounds(e as nat);
                if e > 9 {
                    lemma_pow10_monotonic(10, e as nat);
                    assert(pow10(10) == 10_000_000_000) by {
                        lemma_pow10_bounds(9);
                    }
                    assert(c * pow10(e as nat) >= pow10(e as nat)) by (nonlinear_arith)
                        requires c >= 1;
                } else {
                    assert(c * pow10(e as nat) >= c) by (nonlinear_arith)
                        requires pow10(e as nat) >= 1;
                }
            }
            None
        } else {
            let p = pow10_u64(e as u32);
            proof {
                lemma_pow10_monotonic(e as nat, 9);
                assert(c * p <= 4294967296 * 1_000_000_000) by (nonlinear_arith)
                    requires c <= 4294967296, p <= 1_000_000_000;
            }
            let m = c * p;
            if m > 4294967296 {
                None
            } else {
                Some(m)
            }
        }
    } else if e < -17 {
        proof {
            let d = pow10((-e) as nat);
            lemma_pow10_monotonic(18, (-e) as nat);
            assert(c as nat / d == 0 && c as nat % d == c) by (nonlinear_arith)
                requires c < 10_000_000_000_000_000, d >= 1_000_000_000_000_000_000;
        }
        Some(0)
    } else {
        let d = pow10_u64((-e) as u32);
        proof {
            lemma_pow10_bounds((-e) as nat);
            lemma_pow10_monotonic((-e) as nat, 17);
        }
        let q = c / d;
        let r = c % d;
        let m = if 2 * r > d || (2 * r == d && q % 2 == 1) {
            q + 1
        } else {
            q
        };
        proof {
            assert(q <= c) by (nonlinear_arith)
                requires q == c / d, d >= 1;
        }
        if m > 4294967296 {
            None
        } else {
            Some(m)
        }
    }
}

impl vstd::std_specs::convert::FromSpecImpl<i32> for d64 {
    open spec fn obeys_from_spec() -> bool {
        true
    }

    open spec fn from_spec(v: i32) -> d64 {
        d64::from_raw_spec(dec_from_i32(v))
    }
}

/// Converts an i32 to d64. The result is exact and no error is possible.
impl From<i32> for d64 {
    fn from(val: i32) -> (r: d64)
        ensures
            r.value() == crate::encoding::integer_value(val as int),
    {
        d64::from_bits(from_i32_bits(val))
    }
}

impl vstd::std_specs::convert::FromSpecImpl<u32> for d64 {
    open spec fn obeys_from_spec() -> bool {
        true
    }

    open spec fn from_spec(v: u32) -> d64 {
        d64::from_raw_spec(dec_from_u32(v))
    }
}

/// Converts an u32 to d64. The result is exact and no error is possible.
impl From<u32> for d64 {
    fn from(val: u32) -> (r: d64)
        ensures
            r.value() == crate::encoding::integer_value(val as int),
    {
        d64::from_bits(from_u32_bits(val))
    }
}

impl vstd::std_specs::convert::FromSpecImpl<u64> for d64 {
    open spec fn obeys_from_spec() -> bool {
        true
    }

    open spec fn from_spec(v: u64) -> d64 {
        d64::from_raw_spec(from_u64_bits(v))
    }
}

/// Converts an u64 to d64 through its decimal numeral. The result may be
/// inexact/rounded.
impl From<u64> for d64 {
    fn from(val: u64) -> (r: d64)
        ensures
            (val as int) < pow10(16) ==> r.value() == integer_value(val as int),
    {
        let mut s = String::new();
        push_decimal(&mut s, val);
        assert(s@ =~= decimal_string(val as nat));
        proof {
            law_decimal_numeral(val as nat);
        }
        match d64::from_str(s.as_str()) {
            Ok(x) => x,
            Err(_) => d64::from_bits(QNAN_BITS),
        }
    }
}

impl vstd::std_specs::convert::FromSpecImpl<i64> for d64 {
    open spec fn obeys_from_spec() -> bool {
        true
    }

    open spec fn from_spec(v: i64) -> d64 {
        if v < 0 {
            d64::from_raw_spec(dec_minus(from_u64_bits((-v) as u64)))
        } else {
            d64::from_raw_spec(from_u64_bits(v as u64))
        }
    }
}

/// Converts an i64 to d64: the magnitude through `From<u64>`, negated for a
/// negative value. The result is maybe inexact.
impl From<i64> for d64 {
    fn from(val: i64) -> (r: d64)
        ensures
            -pow10(16) < val < pow10(16) ==> r.value() == integer_value(val as int),
    {
        if val < 0 {
            let m = (-(val as i128)) as u64;
            let x = d64::from(m);
            d64::from_bits(minus_bits(x.bits()).0)
        } else {
            d64::from(val as u64)
        }
    }
}

impl vstd::std_specs::convert::FromSpecImpl<d64> for i32 {
    open spec fn obeys_from_spec() -> bool {
        true
    }

    open spec fn from_spec(v: d64) -> i32 {
        to_i32_value(v.value())
    }
}

/// Converts a d64 to an i32, rounding half to even.
impl From<d64> for i32 {
    fn from(val: d64) -> (r: i32) {
        val.to_i32()
    }
}

impl vstd::std_specs::convert::FromSpecImpl<d64> for u32 {
    open spec fn obeys_from_spec() -> bool {
        true
    }

    open spec fn from_spec(v: d64) -> u32 {
        to_u32_value(v.value())
    }
}

/// Converts a d64 to a u32, rounding half to even.
impl From<d64> for u32 {
    fn from(val: d64) -> (r: u32) {
        val.to_u32()
    }
}

/// Parses as `d64::from_str`; never fails.
impl FromStr for d64 {
    type Err = ();

    fn from_str(s: &str) -> (r: Result<d64, ()>)
        ensures
            r matches Ok(x) && x.raw() == parsed(s@),
            s@.contains('\0') ==> (r matches Ok(x) && x.raw() == QNAN_BITS),
    {
        d64::from_str(s)
    }
}

} // verus!
