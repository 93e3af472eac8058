//! Properties that hold across the operations of the library.
use vstd::prelude::*;
use crate::dec64::{d64, le_word, le_bytes, class_of, category_of, Class, FpCategory};
use crate::encoding::{
    numeric_order, total_order, nan_rank, integer_value, abs_value, minus_value, quiet,
    sign_of_difference, signum, pow10, Decoded, lemma_pow10_values, lemma_pow10_add, scaled,
};
use crate::convert::{hex_char, hex_value, hex_string, hex_prefix, parse_hex, to_i32_value, to_u32_value};
use crate::encoding::{
    rounded_abs, decode, dpd_value, binary_digits, logical_enc, comb, econ, sign_bit, msd,
    continuation, coefficient, exp_high, biased_exponent, declet0, declet1, declet2, declet3,
    declet4,
};
use crate::order::{compare_value, ordering_of};
use crate::bindings::{next_up, next_down, dec_add, dec_add_status};
use crate::arith::sum_raw;
use crate::reporting::sum_status;
use crate::encoding::{ZERO_BITS, QNAN_BITS, ALL_ONES_BITS};
use crate::bindings::{logical_and, logical_or, logical_xor, logical_invert};
use vstd::std_specs::cmp::{PartialEqSpec, PartialOrdSpec};
use core::cmp::Ordering;

verus! {

/// `from_raw_bytes` undoes `to_raw_bytes`: the encoding read back from its
/// bytes is the encoding.
pub proof fn law_raw_bytes_round_trip(x: u64)
    ensures
        le_word(le_bytes(x)) == x,
{
    let b = le_bytes(x);
    let b0 = b[0];
    let b1 = b[1];
    let b2 = b[2];
    let b3 = b[3];
    let b4 = b[4];
    let b5 = b[5];
    let b6 = b[6];
    let b7 = b[7];
    assert((b0 as u64) | ((b1 as u64) << 8u64) | ((b2 as u64) << 16u64) | ((b3 as u64) << 24u64)
        | ((b4 as u64) << 32u64) | ((b5 as u64) << 40u64) | ((b6 as u64) << 48u64) | ((b7 as u64)
        << 56u64) == x) by (bit_vector)
        requires
            b0 == (x & 0xff) as u8,
            b1 == ((x >> 8u64) & 0xff) as u8,
            b2 == ((x >> 16u64) & 0xff) as u8,
            b3 == ((x >> 24u64) & 0xff) as u8,
            b4 == ((x >> 32u64) & 0xff) as u8,
            b5 == ((x >> 40u64) & 0xff) as u8,
            b6 == ((x >> 48u64) & 0xff) as u8,
            b7 == ((x >> 56u64) & 0xff) as u8,
    ;
}

/// `to_raw_bytes` undoes `from_raw_bytes`: the bytes of the word that eight
/// bytes make are those bytes.
pub proof fn law_raw_word_round_trip(b: [u8; 8])
    ensures
        le_bytes(le_word(b)) == b,
{
    let x = le_word(b);
    let b0 = b[0];
    let b1 = b[1];
    let b2 = b[2];
    let b3 = b[3];
    let b4 = b[4];
    let b5 = b[5];
    let b6 = b[6];
    let b7 = b[7];
    assert(b0 == (x & 0xff) as u8 && b1 == ((x >> 8u64) & 0xff) as u8 && b2 == ((x >> 16u64) & 0xff)
        as u8 && b3 == ((x >> 24u64) & 0xff) as u8 && b4 == ((x >> 32u64) & 0xff) as u8 && b5 == ((x
        >> 40u64) & 0xff) as u8 && b6 == ((x >> 48u64) & 0xff) as u8 && b7 == ((x >> 56u64) & 0xff)
        as u8) by (bit_vector)
        requires
            x == (b0 as u64) | ((b1 as u64) << 8u64) | ((b2 as u64) << 16u64) | ((b3 as u64)
                << 24u64) | ((b4 as u64) << 32u64) | ((b5 as u64) << 40u64) | ((b6 as u64)
                << 48u64) | ((b7 as u64) << 56u64),
    ;
    assert(le_bytes(x) =~= b);
}

/// The hexadecimal digit of a nibble (0 to 15).
pub open spec fn nibble_char(n: u8) -> char {
    hex_char(n as u64)
}

/// The sixteen hexadecimal digits of eight bytes, two per byte, the last
/// byte first and its high nibble before its low one.
pub open spec fn bytes_hex(b: [u8; 8]) -> Seq<char> {
    Seq::new(
        16,
        |i: int|
            if i % 2 == 0 {
                nibble_char(b[7 - i / 2] >> 4u8)
            } else {
                nibble_char(b[7 - i / 2] & 0xfu8)
            },
    )
}

/// `to_hex` of the number that `from_raw_bytes` makes of eight bytes spells
/// those bytes in hexadecimal, the last byte first.
pub proof fn law_hex_of_bytes(b: [u8; 8])
    ensures
        hex_string(le_word(b)) == bytes_hex(b),
{
    let x = le_word(b);
    let b0 = b[0];
    let b1 = b[1];
    let b2 = b[2];
    let b3 = b[3];
    let b4 = b[4];
    let b5 = b[5];
    let b6 = b[6];
    let b7 = b[7];
    assert((x >> 60u64) & 0xf == (b7 >> 4u8) as u64 && (x >> 56u64) & 0xf == (b7 & 0xfu8) as u64
        && (x >> 52u64) & 0xf == (b6 >> 4u8) as u64 && (x >> 48u64) & 0xf == (b6 & 0xfu8) as u64
        && (x >> 44u64) & 0xf == (b5 >> 4u8) as u64 && (x >> 40u64) & 0xf == (b5 & 0xfu8) as u64
        && (x >> 36u64) & 0xf == (b4 >> 4u8) as u64 && (x >> 32u64) & 0xf == (b4 & 0xfu8) as u64
        && (x >> 28u64) & 0xf == (b3 >> 4u8) as u64 && (x >> 24u64) & 0xf == (b3 & 0xfu8) as u64
        && (x >> 20u64) & 0xf == (b2 >> 4u8) as u64 && (x >> 16u64) & 0xf == (b2 & 0xfu8) as u64
        && (x >> 12u64) & 0xf == (b1 >> 4u8) as u64 && (x >> 8u64) & 0xf == (b1 & 0xfu8) as u64
        && (x >> 4u64) & 0xf == (b0 >> 4u8) as u64 && (x >> 0u64) & 0xf == (b0 & 0xfu8) as u64)
        by (bit_vector)
        requires
            x == (b0 as u64) | ((b1 as u64) << 8u64) | ((b2 as u64) << 16u64) | ((b3 as u64)
                << 24u64) | ((b4 as u64) << 32u64) | ((b5 as u64) << 40u64) | ((b6 as u64)
                << 48u64) | ((b7 as u64) << 56u64),
    ;
    let h = hex_string(x);
    let g = bytes_hex(b);
    assert forall|i: int| 0 <= i < 16 implies h[i] == g[i] by {
        if i == 0 {} else if i == 1 {} else if i == 2 {} else if i == 3 {} else if i == 4 {
        } else if i == 5 {} else if i == 6 {} else if i == 7 {} else if i == 8 {} else if i == 9 {
        } else if i == 10 {} else if i == 11 {} else if i == 12 {} else if i == 13 {
        } else if i == 14 {} else {}
    }
    assert(h =~= g);
}

/// Every hexadecimal digit reads back as its value.
proof fn lemma_hex_digit(d: u64)
    requires
        d < 16,
    ensures
        hex_value(hex_char(d)) == Some(d),
{
}

/// The first `k` digits of `hex_string(b)` spell the top `4k` bits of `b`.
proof fn lemma_hex_prefix(b: u64, k: nat)
    requires
        1 <= k <= 16,
    ensures
        hex_prefix(hex_string(b), k) == b >> ((64 - 4 * k) as u64),
    decreases k,
{
    let s = hex_string(b);
    let sh = (64 - 4 * k) as u64;
    let d = (b >> sh) & 0xf;
    assert(s[k - 1] == hex_char(d));
    assert(d < 16) by (bit_vector)
        requires
            d == (b >> sh) & 0xf,
    ;
    lemma_hex_digit(d);
    if k == 1 {
        assert(hex_prefix(s, 0) == 0);
        assert(((0u64 << 4u64) | ((b >> 60u64) & 0xf)) == b >> 60u64) by (bit_vector);
    } else {
        lemma_hex_prefix(b, (k - 1) as nat);
        assert(((b >> ((sh + 4) as u64)) << 4u64) | ((b >> sh) & 0xf) == b >> sh) by (bit_vector)
            requires
                sh <= 56,
        ;
    }
}

/// `from_hex` is the reverse of `to_hex`: the sixteen digits that `to_hex`
/// writes for an encoding spell that encoding.
pub proof fn law_hex_round_trip(b: u64)
    ensures
        parse_hex(hex_string(b)) == Some(b),
{
    let s = hex_string(b);
    assert forall|i: int| 0 <= i < 16 implies (#[trigger] hex_value(s[i])) is Some by {
        let sh = (60 - 4 * i) as u64;
        let d = (b >> sh) & 0xf;
        assert(d < 16) by (bit_vector)
            requires
                d == (b >> sh) & 0xf,
        ;
        lemma_hex_digit(d);
    }
    lemma_hex_prefix(b, 16);
    assert(b >> 0u64 == b) by (bit_vector);
}

/// Numeric comparison is antisymmetric: comparing the other way round
/// gives the opposite answer.
pub proof fn law_numeric_order_antisymmetric(a: Decoded, b: Decoded)
    requires
        !a.is_nan(),
        !b.is_nan(),
    ensures
        numeric_order(a, b) == -numeric_order(b, a),
{
}

/// A number is numerically equal to itself.
pub proof fn law_numeric_order_reflexive(a: Decoded)
    requires
        !a.is_nan(),
    ensures
        numeric_order(a, a) == 0,
{
}

proof fn lemma_scaled_down(v: Decoded, m0: int, m: int)
    requires
        v matches Decoded::Finite { exponent, .. } && m <= m0 <= exponent,
    ensures
        scaled(v, m) == scaled(v, m0) * pow10((m0 - m) as nat),
{
    if let Decoded::Finite { negative, coefficient, exponent } = v {
        let k = (m0 - m) as nat;
        let j = (exponent - m0) as nat;
        lemma_pow10_add(j, k);
        assert((exponent - m) as nat == j + k);
        let c = coefficient as int;
        let sg = signum(negative);
        assert(sg * (c * (pow10(j) * pow10(k))) == (sg * (c * pow10(j))) * pow10(k)) by (nonlinear_arith);
    }
}

proof fn lemma_order_scaled(x: int, y: int, p: int)
    requires
        p > 0,
    ensures
        sign_of_difference(x * p, y * p) == sign_of_difference(x, y),
{
    assert(x < y ==> x * p < y * p) by (nonlinear_arith)
        requires p > 0;
    assert(x > y ==> x * p > y * p) by (nonlinear_arith)
        requires p > 0;
}

/// Two finite values compare as their multiples of any common power of ten
/// at or below both exponents.
proof fn lemma_numeric_order_at(a: Decoded, b: Decoded, m: int)
    requires
        a matches Decoded::Finite { exponent, .. } && m <= exponent,
        b matches Decoded::Finite { exponent, .. } && m <= exponent,
    ensures
        numeric_order(a, b) == sign_of_difference(scaled(a, m), scaled(b, m)),
{
    if let (Decoded::Finite { exponent: ea, .. }, Decoded::Finite { exponent: eb, .. }) = (a, b) {
        let m0 = if ea < eb {
            ea
        } else {
            eb
        };
        lemma_scaled_down(a, m0, m);
        lemma_scaled_down(b, m0, m);
        crate::encoding::lemma_pow10_bounds((m0 - m) as nat);
        lemma_order_scaled(scaled(a, m0), scaled(b, m0), pow10((m0 - m) as nat) as int);
    }
}

/// Numeric comparison is transitive, so `==` and `<` on d64 (leaving NaNs
/// aside) are an equivalence and a strict order.
pub proof fn law_numeric_order_transitive(a: Decoded, b: Decoded, c: Decoded)
    requires
        !a.is_nan(),
        !b.is_nan(),
        !c.is_nan(),
    ensures
        numeric_order(a, b) <= 0 && numeric_order(b, c) <= 0 ==> numeric_order(a, c) <= 0,
        numeric_order(a, b) == 0 && numeric_order(b, c) == 0 ==> numeric_order(a, c) == 0,
        numeric_order(a, b) < 0 && numeric_order(b, c) <= 0 ==> numeric_order(a, c) < 0,
        numeric_order(a, b) <= 0 && numeric_order(b, c) < 0 ==> numeric_order(a, c) < 0,
{
    if let (
        Decoded::Finite { exponent: ea, .. },
        Decoded::Finite { exponent: eb, .. },
        Decoded::Finite { exponent: ec, .. },
    ) = (a, b, c) {
        let m = if ea <= eb && ea <= ec {
            ea
        } else if eb <= ec {
            eb
        } else {
            ec
        };
        lemma_numeric_order_at(a, b, m);
        lemma_numeric_order_at(b, c, m);
        lemma_numeric_order_at(a, c, m);
    }
}

/// `==` is transitive.
pub proof fn law_eq_transitive(x: d64, y: d64, z: d64)
    ensures
        x.eq_spec(&y) && y.eq_spec(&z) ==> x.eq_spec(&z),
{
    if x.eq_spec(&y) && y.eq_spec(&z) {
        law_numeric_order_transitive(x.value(), y.value(), z.value());
    }
}

/// `<` is transitive, and so is `<=`.
pub proof fn law_lt_transitive(x: d64, y: d64, z: d64)
    ensures
        x.partial_cmp_spec(&y) == Some(Ordering::Less) && y.partial_cmp_spec(&z) == Some(
            Ordering::Less,
        ) ==> x.partial_cmp_spec(&z) == Some(Ordering::Less),
        x.partial_cmp_spec(&y) is Some && x.partial_cmp_spec(&y) != Some(Ordering::Greater)
            && y.partial_cmp_spec(&z) is Some && y.partial_cmp_spec(&z) != Some(Ordering::Greater)
            ==> x.partial_cmp_spec(&z) is Some && x.partial_cmp_spec(&z) != Some(
            Ordering::Greater,
        ),
{
    if !x.value().is_nan() && !y.value().is_nan() && !z.value().is_nan() {
        law_numeric_order_transitive(x.value(), y.value(), z.value());
    }
}

/// `next` and `previous` undo each other: stepping up from a number (other
/// than +Infinity) and then down gives a number equal to it, and stepping
/// down (from other than -Infinity) and then up does too.
pub proof fn law_next_previous(x: d64, n: d64, p: d64)
    requires
        !x.value().is_nan(),
    ensures
        x.value() != (Decoded::Infinite { negative: false }) && next_up(x.value(), n.value())
            && next_down(n.value(), p.value()) ==> numeric_order(p.value(), x.value()) == 0,
        x.value() != (Decoded::Infinite { negative: true }) && next_down(x.value(), n.value())
            && next_up(n.value(), p.value()) ==> numeric_order(p.value(), x.value()) == 0,
{
    let vx = x.value();
    let vn = n.value();
    let vp = p.value();
    if !vp.is_nan() && !vn.is_nan() {
        law_numeric_order_antisymmetric(vp, vx);
        law_numeric_order_antisymmetric(vx, vn);
        law_numeric_order_antisymmetric(vp, vn);
        assert(decode(x.raw()) == vx);
        assert(decode(p.raw()) == vp);
        if next_up(vx, vn) && next_down(vn, vp) {
            law_numeric_order_transitive(vp, vx, vn);
            law_numeric_order_transitive(vx, vp, vn);
        }
        if next_down(vx, vn) && next_up(vn, vp) {
            law_numeric_order_transitive(vn, vx, vp);
            law_numeric_order_transitive(vn, vp, vx);
        }
    }
}

/// `partial_cmp` is the numeric comparison and agrees with `==`: two numbers
/// compare `Equal` exactly when they are equal, `Less` exactly when the
/// first is numerically below the second, and `Greater` exactly when above.
pub proof fn law_partial_cmp_numeric(x: d64, y: d64)
    requires
        !x.value().is_nan(),
        !y.value().is_nan(),
    ensures
        (x.partial_cmp_spec(&y) == Some(Ordering::Equal)) == x.eq_spec(&y),
        (x.partial_cmp_spec(&y) == Some(Ordering::Less)) == (numeric_order(x.value(), y.value())
            == -1),
        (x.partial_cmp_spec(&y) == Some(Ordering::Greater)) == (numeric_order(x.value(), y.value())
            == 1),
{
    lemma_numeric_order_unit(x.value(), y.value());
}

/// Numeric comparison gives -1, 0 or 1.
proof fn lemma_numeric_order_unit(a: Decoded, b: Decoded)
    ensures
        numeric_order(a, b) == -1 || numeric_order(a, b) == 0 || numeric_order(a, b) == 1,
{
}

/// Summing a list and then one more value is adding that value, as it is,
/// to the sum of the list; the empty sum is +0, and a one-element sum is
/// the element added to +0.
pub proof fn law_sum_fold(s: Seq<d64>, x: d64)
    ensures
        sum_raw(s.push(x)) == dec_add(sum_raw(s), x.raw()),
        sum_raw(Seq::<d64>::empty()) == ZERO_BITS,
        sum_raw(seq![x]) == dec_add(ZERO_BITS, x.raw()),
        sum_status(s.push(x)) == sum_status(s).join(dec_add_status(sum_raw(s), x.raw())),
{
    assert(s.push(x).drop_last() =~= s);
    assert(seq![x].drop_last() =~= Seq::<d64>::empty());
}

/// The identities of the digitwise logical operations on logical operands:
/// 0 annihilates `&` and is the identity of `|` and `^`; `&` and `|` are
/// idempotent and `x ^ x` is 0; `!` swaps 0 and the all-ones operand; and any
/// other operand gives the quiet NaN.
pub proof fn law_logical_identities(a: u64, b: u64)
    ensures
        logical_enc(ZERO_BITS),
        logical_enc(ALL_ONES_BITS),
        logical_enc(a) && logical_enc(b) && (a == ZERO_BITS || b == ZERO_BITS) ==> logical_and(a, b)
            == ZERO_BITS,
        logical_enc(a) ==> logical_and(a, a) == a && logical_or(a, a) == a && logical_xor(a, a)
            == ZERO_BITS,
        logical_enc(b) ==> logical_or(ZERO_BITS, b) == b && logical_xor(ZERO_BITS, b) == b,
        logical_enc(a) ==> logical_or(a, ZERO_BITS) == a && logical_xor(a, ZERO_BITS) == a,
        logical_invert(ZERO_BITS) == ALL_ONES_BITS,
        logical_invert(ALL_ONES_BITS) == ZERO_BITS,
        !(logical_enc(a) && logical_enc(b)) ==> logical_and(a, b) == QNAN_BITS && logical_or(a, b)
            == QNAN_BITS && logical_xor(a, b) == QNAN_BITS,
        !logical_enc(a) ==> logical_invert(a) == QNAN_BITS,
{
    assert(ALL_ONES_BITS == 0x2638_9124_4912_4491u64);
    assert(0x2638_9124_4912_4491u64 == (0x2238_0000_0000_0000u64 | 0x0400_9124_4912_4491u64)
        && (0x2638_9124_4912_4491u64 & 0xfbfc_0000_0000_0000u64) == 0x2238_0000_0000_0000u64
        && (0x2638_9124_4912_4491u64 & !0xfffc_9124_4912_4491u64) == 0) by (bit_vector);
    assert(((0x2238_0000_0000_0000u64 & 0xfbfc_0000_0000_0000u64) == 0x2238_0000_0000_0000u64
        && (0x2238_0000_0000_0000u64 & !0xfffc_9124_4912_4491u64) == 0) && ((0x2238_0000_0000_0000u64
        | 0x0400_9124_4912_4491u64) & 0xfbfc_0000_0000_0000u64) == 0x2238_0000_0000_0000u64 && ((
    0x2238_0000_0000_0000u64 | 0x0400_9124_4912_4491u64) & !0xfffc_9124_4912_4491u64) == 0)
        by (bit_vector);
    assert(0x2238_0000_0000_0000u64 | (!0x2238_0000_0000_0000u64 & 0x0400_9124_4912_4491u64)
        == (0x2238_0000_0000_0000u64 | 0x0400_9124_4912_4491u64) && 0x2238_0000_0000_0000u64 | (
    !(0x2238_0000_0000_0000u64 | 0x0400_9124_4912_4491u64) & 0x0400_9124_4912_4491u64)
        == 0x2238_0000_0000_0000u64) by (bit_vector);
    assert(((a & 0xfbfc_0000_0000_0000u64) == 0x2238_0000_0000_0000u64 && (a
        & !0xfffc_9124_4912_4491u64) == 0) ==> (0x2238_0000_0000_0000u64 | ((a & a)
        & 0x0400_9124_4912_4491u64)) == a && (0x2238_0000_0000_0000u64 | ((a | a)
        & 0x0400_9124_4912_4491u64)) == a && (0x2238_0000_0000_0000u64 | ((a ^ a)
        & 0x0400_9124_4912_4491u64)) == 0x2238_0000_0000_0000u64 && (0x2238_0000_0000_0000u64 | ((a
        | 0x2238_0000_0000_0000u64) & 0x0400_9124_4912_4491u64)) == a && (0x2238_0000_0000_0000u64
        | ((a ^ 0x2238_0000_0000_0000u64) & 0x0400_9124_4912_4491u64)) == a && (
    0x2238_0000_0000_0000u64 | ((0x2238_0000_0000_0000u64 | a) & 0x0400_9124_4912_4491u64)) == a
        && (0x2238_0000_0000_0000u64 | ((0x2238_0000_0000_0000u64 ^ a) & 0x0400_9124_4912_4491u64))
        == a && (0x2238_0000_0000_0000u64 | ((a & 0x2238_0000_0000_0000u64)
        & 0x0400_9124_4912_4491u64)) == 0x2238_0000_0000_0000u64 && (0x2238_0000_0000_0000u64 | ((
    0x2238_0000_0000_0000u64 & a) & 0x0400_9124_4912_4491u64)) == 0x2238_0000_0000_0000u64)
        by (bit_vector);
    assert(((b & 0xfbfc_0000_0000_0000u64) == 0x2238_0000_0000_0000u64 && (b
        & !0xfffc_9124_4912_4491u64) == 0) ==> (0x2238_0000_0000_0000u64 | ((0x2238_0000_0000_0000u64
        | b) & 0x0400_9124_4912_4491u64)) == b && (0x2238_0000_0000_0000u64 | ((
    0x2238_0000_0000_0000u64 ^ b) & 0x0400_9124_4912_4491u64)) == b && (0x2238_0000_0000_0000u64
        | ((0x2238_0000_0000_0000u64 & b) & 0x0400_9124_4912_4491u64)) == 0x2238_0000_0000_0000u64)
        by (bit_vector);
}

/// `==` is symmetric.
pub proof fn law_eq_symmetric(x: d64, y: d64)
    ensures
        x.eq_spec(&y) == y.eq_spec(&x),
{
    if !x.value().is_nan() && !y.value().is_nan() {
        law_numeric_order_antisymmetric(x.value(), y.value());
    }
}

/// A NaN equals nothing, not even itself; every other value equals itself.
pub proof fn law_eq_nan(x: d64, y: d64)
    ensures
        x.value().is_nan() ==> !x.eq_spec(&y) && !y.eq_spec(&x),
        !x.value().is_nan() ==> x.eq_spec(&x),
{
}

/// `partial_cmp` the other way round gives the reversed ordering, and no
/// ordering exactly when a NaN is involved.
pub proof fn law_partial_cmp_reversed(x: d64, y: d64)
    ensures
        x.partial_cmp_spec(&y) == (match y.partial_cmp_spec(&x) {
            Some(Ordering::Less) => Some(Ordering::Greater),
            Some(Ordering::Greater) => Some(Ordering::Less),
            Some(Ordering::Equal) => Some(Ordering::Equal),
            None => None,
        }),
        x.partial_cmp_spec(&y) is None <==> x.value().is_nan() || y.value().is_nan(),
{
    if !x.value().is_nan() && !y.value().is_nan() {
        law_numeric_order_antisymmetric(x.value(), y.value());
    }
}

/// `compare` the other way round gives the opposite number when neither
/// operand is a NaN.
pub proof fn law_compare_antisymmetric(a: Decoded, b: Decoded)
    requires
        !a.is_nan(),
        !b.is_nan(),
    ensures
        compare_value(a, b) == integer_value(-numeric_order(b, a)),
{
    law_numeric_order_antisymmetric(a, b);
}

/// The total order is antisymmetric.
pub proof fn law_total_order_antisymmetric(a: Decoded, b: Decoded)
    ensures
        total_order(a, b) == -total_order(b, a),
{
    if !a.is_nan() && !b.is_nan() {
        law_numeric_order_antisymmetric(a, b);
    }
}

/// The total order is transitive, strictly and not.
pub proof fn law_total_order_transitive(a: Decoded, b: Decoded, c: Decoded)
    ensures
        total_order(a, b) <= 0 && total_order(b, c) <= 0 ==> total_order(a, c) <= 0,
        total_order(a, b) < 0 && total_order(b, c) <= 0 ==> total_order(a, c) < 0,
        total_order(a, b) <= 0 && total_order(b, c) < 0 ==> total_order(a, c) < 0,
{
    lemma_total_order_le_transitive(a, b, c);
    lemma_total_order_le_transitive(b, c, a);
    lemma_total_order_le_transitive(c, a, b);
    law_total_order_antisymmetric(a, b);
    law_total_order_antisymmetric(b, c);
    law_total_order_antisymmetric(a, c);
}

proof fn lemma_total_order_le_transitive(a: Decoded, b: Decoded, c: Decoded)
    ensures
        total_order(a, b) <= 0 && total_order(b, c) <= 0 ==> total_order(a, c) <= 0,
{
    if !a.is_nan() && !b.is_nan() && !c.is_nan() {
        law_numeric_order_transitive(a, b, c);
        law_numeric_order_antisymmetric(a, b);
        law_numeric_order_antisymmetric(b, c);
        law_numeric_order_antisymmetric(a, c);
    }
}

/// The total order agrees with numeric comparison wherever the numbers
/// differ, and puts every value level with itself only.
pub proof fn law_total_order_refines_numeric(a: Decoded, b: Decoded)
    ensures
        !a.is_nan() && !b.is_nan() && numeric_order(a, b) != 0 ==> total_order(a, b)
            == numeric_order(a, b),
        total_order(a, a) == 0,
{
}

/// `max` and `min` of two numbers give one of them, by value, and it lies
/// numerically at or above (at or below) both.
pub proof fn law_max_min_bounds(a: Decoded, b: Decoded)
    requires
        !a.is_nan(),
        !b.is_nan(),
    ensures
        total_order(a, b) >= 0 ==> numeric_order(a, b) >= 0 && numeric_order(a, a) == 0,
        total_order(a, b) < 0 ==> numeric_order(b, a) >= 0 && numeric_order(b, b) == 0,
        total_order(a, b) <= 0 ==> numeric_order(a, b) <= 0,
        total_order(a, b) > 0 ==> numeric_order(b, a) <= 0,
{
    law_numeric_order_antisymmetric(a, b);
}

/// Negating twice gives back a non-zero number; a zero comes back as +0,
/// and a NaN quiet.
pub proof fn law_minus_twice(v: Decoded)
    ensures
        minus_value(minus_value(v)) == (if v.is_nan() {
            quiet(v)
        } else if v.is_zero() {
            v.with_sign(false)
        } else {
            v
        }),
{
}

/// The absolute value of an absolute value is itself, and that of a
/// negated number is its absolute value.
pub proof fn law_abs(v: Decoded)
    ensures
        abs_value(abs_value(v)) == abs_value(v),
        !v.is_nan() ==> abs_value(minus_value(v)) == abs_value(v),
{
}

/// Every value is in exactly one of the categories NaN, infinite, zero,
/// normal and subnormal, and `classify` names that category.
pub proof fn law_classification(v: Decoded)
    ensures
        v.is_nan() || v.is_infinite() || v.is_zero() || v.is_normal() || v.is_subnormal(),
        !(v.is_nan() && v.is_infinite()),
        v.is_zero() ==> !v.is_normal() && !v.is_subnormal() && v.is_finite(),
        !(v.is_normal() && v.is_subnormal()),
        (category_of(class_of(v)) == FpCategory::Nan) == v.is_nan(),
        (category_of(class_of(v)) == FpCategory::Infinite) == v.is_infinite(),
        (category_of(class_of(v)) == FpCategory::Zero) == v.is_zero(),
        (category_of(class_of(v)) == FpCategory::Normal) == v.is_normal(),
        (category_of(class_of(v)) == FpCategory::Subnormal) == v.is_subnormal(),
{
}

/// A sign bit is set on exactly the classes that start with `Neg`, the
/// negative numbers, and on negative zeros and NaNs.
pub proof fn law_class_sign(v: Decoded)
    ensures
        v.is_negative() <==> (class_of(v) == Class::NegInf || class_of(v) == Class::NegNormal
            || class_of(v) == Class::NegSubnormal),
        v.is_positive() <==> (class_of(v) == Class::PosInf || class_of(v) == Class::PosNormal
            || class_of(v) == Class::PosSubnormal),
{
}

/// Converting an `i32` to a d64 and back gives the `i32`.
pub proof fn law_i32_round_trip(n: i32)
    ensures
        to_i32_value(integer_value(n as int)) == n,
{
    lemma_pow10_values();
    let c: nat = (if n < 0 {
        -n
    } else {
        n as int
    }) as nat;
    assert(c * pow10(0) == c) by (nonlinear_arith)
        requires pow10(0) == 1;
    assert(rounded_abs(c, 0) == c);
}

/// Converting a `u32` to a d64 and back gives the `u32`.
pub proof fn law_u32_round_trip(n: u32)
    ensures
        to_u32_value(integer_value(n as int)) == n,
{
    lemma_pow10_values();
    assert((n as nat) * pow10(0) == n) by (nonlinear_arith)
        requires pow10(0) == 1;
    assert(rounded_abs(n as nat, 0) == n);
}

/// The three digits of a number below 1000 are all 0 or 1.
pub open spec fn binary3(v: nat) -> bool {
    v / 100 <= 1 && (v / 10) % 10 <= 1 && v % 10 <= 1
}

proof fn lemma_three_digits(a: nat, b: nat, c: nat)
    requires
        a < 10,
        b < 10,
        c < 10,
    ensures
        (100 * a + 10 * b + c) / 100 == a,
        ((100 * a + 10 * b + c) / 10) % 10 == b,
        (100 * a + 10 * b + c) % 10 == c,
{
    assert((100 * a + 10 * b + c) / 100 == a) by (nonlinear_arith)
        requires a < 10, b < 10, c < 10;
    assert((100 * a + 10 * b + c) / 10 == 10 * a + b) by (nonlinear_arith)
        requires a < 10, b < 10, c < 10;
    assert((10 * a + b) % 10 == b) by (nonlinear_arith)
        requires b < 10;
    assert((100 * a + 10 * b + c) % 10 == c) by (nonlinear_arith)
        requires a < 10, b < 10, c < 10;
}

/// A declet holds three binary digits exactly when only its bits 7, 4
/// and 0 may be set.
proof fn lemma_declet_binary(d: u64)
    requires
        d < 1024,
    ensures
        binary3(dpd_value(d)) <==> (d & 0x36e) == 0,
{
    let pqr = (d >> 7u64) & 7;
    let stu = (d >> 4u64) & 7;
    let wxy = d & 7;
    let pq = (d >> 8u64) & 3;
    let st = (d >> 5u64) & 3;
    let r = (d >> 7u64) & 1;
    let u = (d >> 4u64) & 1;
    let y = d & 1;
    let wx = (d >> 1u64) & 3;
    let v = (d >> 3u64) & 1;
    assert(pqr <= 7 && stu <= 7 && wxy <= 7 && pq <= 3 && st <= 3 && r <= 1 && u <= 1 && y <= 1
        && wx <= 3 && v <= 1) by (bit_vector)
        requires
            pqr == (d >> 7u64) & 7,
            stu == (d >> 4u64) & 7,
            wxy == d & 7,
            pq == (d >> 8u64) & 3,
            st == (d >> 5u64) & 3,
            r == (d >> 7u64) & 1,
            u == (d >> 4u64) & 1,
            y == d & 1,
            wx == (d >> 1u64) & 3,
            v == (d >> 3u64) & 1,
    ;
    assert(((d & 0x36e) == 0) <==> (v == 0 && pqr <= 1 && stu <= 1 && wxy <= 1)) by (bit_vector)
        requires
            d < 1024,
            pqr == (d >> 7u64) & 7,
            stu == (d >> 4u64) & 7,
            wxy == d & 7,
            v == (d >> 3u64) & 1,
    ;
    if v == 0 {
        lemma_three_digits(pqr as nat, stu as nat, wxy as nat);
    } else if wx == 0 {
        lemma_three_digits(pqr as nat, stu as nat, (8 + y) as nat);
    } else if wx == 1 {
        lemma_three_digits(pqr as nat, (8 + u) as nat, (2 * st + y) as nat);
    } else if wx == 2 {
        lemma_three_digits((8 + r) as nat, stu as nat, (2 * pq + y) as nat);
    } else if st == 0 {
        lemma_three_digits((8 + r) as nat, (8 + u) as nat, (2 * pq + y) as nat);
    } else if st == 1 {
        lemma_three_digits((8 + r) as nat, (2 * pq + u) as nat, (8 + y) as nat);
    } else if st == 2 {
        lemma_three_digits(pqr as nat, (8 + u) as nat, (8 + y) as nat);
    } else {
        lemma_three_digits((8 + r) as nat, (8 + u) as nat, (8 + y) as nat);
    }
}

proof fn lemma_binary_digits_step(n: nat)
    ensures
        binary_digits(n) == (n % 10 <= 1 && binary_digits(n / 10)),
{
    if n == 0 {
        assert(binary_digits(0));
    }
}

/// Appending three digits `b` to `a`.
proof fn lemma_binary_digits_append(a: nat, b: nat)
    requires
        b < 1000,
    ensures
        binary_digits(a * 1000 + b) == (binary_digits(a) && binary3(b)),
{
    let n = a * 1000 + b;
    assert(n % 10 == b % 10 && n / 10 == a * 100 + b / 10) by (nonlinear_arith)
        requires n == a * 1000 + b, b < 1000;
    let n1 = a * 100 + b / 10;
    assert(n1 % 10 == (b / 10) % 10 && n1 / 10 == a * 10 + b / 100) by (nonlinear_arith)
        requires n1 == a * 100 + b / 10, b < 1000;
    let n2 = a * 10 + b / 100;
    assert(n2 % 10 == b / 100 && n2 / 10 == a) by (nonlinear_arith)
        requires n2 == a * 10 + b / 100, b < 1000;
    lemma_binary_digits_step(n);
    lemma_binary_digits_step(n1);
    lemma_binary_digits_step(n2);
}

/// `is_logical` names exactly the operands that the digitwise logical
/// operators (`&`, `|`, `^`, `!`) accept: a d64 whose value is a
/// non-negative integer with exponent 0 and only 0 and 1 digits is one whose
/// encoding passes decNumber's test, and the other way round.
pub proof fn law_logical_operands(b: u64)
    ensures
        decode(b).is_logical() <==> logical_enc(b),
{
    let c = comb(b);
    let e = econ(b);
    let d0 = declet0(b);
    let d1 = declet1(b);
    let d2 = declet2(b);
    let d3 = declet3(b);
    let d4 = declet4(b);
    assert(c <= 31 && e <= 255 && d0 < 1024 && d1 < 1024 && d2 < 1024 && d3 < 1024 && d4 < 1024
        && (c >> 3u64) <= 3 && ((c >> 1u64) & 3) <= 3 && (c & 7) <= 7 && (c & 1) <= 1)
        by (bit_vector)
        requires
            c == (b >> 58u64) & 0x1f,
            e == (b >> 50u64) & 0xff,
            d0 == b & 0x3ff,
            d1 == (b >> 10u64) & 0x3ff,
            d2 == (b >> 20u64) & 0x3ff,
            d3 == (b >> 30u64) & 0x3ff,
            d4 == (b >> 40u64) & 0x3ff,
    ;
    assert(logical_enc(b) <==> ((b >> 63u64) == 0 && (c == 8 || c == 9) && e == 0x8e && (d0
        & 0x36e) == 0 && (d1 & 0x36e) == 0 && (d2 & 0x36e) == 0 && (d3 & 0x36e) == 0 && (d4
        & 0x36e) == 0)) by (bit_vector)
        requires
            c == (b >> 58u64) & 0x1f,
            e == (b >> 50u64) & 0xff,
            d0 == b & 0x3ff,
            d1 == (b >> 10u64) & 0x3ff,
            d2 == (b >> 20u64) & 0x3ff,
            d3 == (b >> 30u64) & 0x3ff,
            d4 == (b >> 40u64) & 0x3ff,
    ;
    assert((c == 8 || c == 9) ==> (c >> 3u64) == 1 && (c & 7) <= 1) by (bit_vector);
    assert(((c >> 3u64) == 1 && (c & 7) <= 1) ==> (c == 8 || c == 9)) by (bit_vector);
    assert(((c >> 3u64) == 3 && c != 0x1e && c != 0x1f) ==> ((c >> 1u64) & 3) <= 2) by (bit_vector);
    lemma_declet_binary(d0);
    lemma_declet_binary(d1);
    lemma_declet_binary(d2);
    lemma_declet_binary(d3);
    lemma_declet_binary(d4);
    let m = msd(b);
    let v0 = dpd_value(d0);
    let v1 = dpd_value(d1);
    let v2 = dpd_value(d2);
    let v3 = dpd_value(d3);
    let v4 = dpd_value(d4);
    crate::encoding::lemma_dpd_bound(d0);
    crate::encoding::lemma_dpd_bound(d1);
    crate::encoding::lemma_dpd_bound(d2);
    crate::encoding::lemma_dpd_bound(d3);
    crate::encoding::lemma_dpd_bound(d4);
    assert(coefficient(b) == ((((m * 1000 + v4) * 1000 + v3) * 1000 + v2) * 1000 + v1) * 1000
        + v0);
    lemma_binary_digits_append((((m * 1000 + v4) * 1000 + v3) * 1000 + v2) * 1000 + v1, v0);
    lemma_binary_digits_append(((m * 1000 + v4) * 1000 + v3) * 1000 + v2, v1);
    lemma_binary_digits_append((m * 1000 + v4) * 1000 + v3, v2);
    lemma_binary_digits_append(m * 1000 + v4, v3);
    lemma_binary_digits_append(m, v4);
    lemma_binary_digits_step(m);
    assert(m <= 9);
    assert(m / 10 == 0 && m % 10 == m) by (nonlinear_arith)
        requires m <= 9;
    assert(binary_digits(0));
    assert(binary_digits(m) == (m <= 1));
    assert(binary_digits(coefficient(b)) == (m <= 1 && binary3(v4) && binary3(v3) && binary3(v2)
        && binary3(v1) && binary3(v0)));
    if logical_enc(b) {
        assert(!sign_bit(b));
        assert(c >> 3u64 == 1);
        assert(exp_high(b) == 1);
        assert(biased_exponent(b) == 398);
        assert(decode(b).is_logical());
    }
    if decode(b).is_logical() {
        assert(c != 0x1e && c != 0x1f);
        assert(biased_exponent(b) == 398);
        assert(m <= 1);
        if c >> 3u64 == 3 {
            assert(m >= 8);
        }
        assert(exp_high(b) == (c >> 3u64) as nat);
        assert(c >> 3u64 == 1);
        assert(c == 8 || c == 9);
        assert(e == 0x8e);
        assert((b >> 63u64) <= 1) by (bit_vector);
        assert((b >> 63u64) == 0);
        assert(logical_enc(b));
    }
}

} // verus!
