use decimal::{d64, Flags};
use dec::Decimal64;

fn raw(x: &d64) -> u64 {
    u64::from_le_bytes(x.to_raw_bytes())
}

fn of_raw(b: u64) -> d64 {
    d64::from_raw_bytes(b.to_le_bytes())
}

fn dec_of(x: &d64) -> Decimal64 {
    Decimal64::from_le_bytes(x.to_raw_bytes())
}

/// Sign, coefficient and exponent of a finite number.
fn parts(x: &d64) -> (bool, i64, i32) {
    let y = dec_of(x);
    (x.is_signed(), y.coefficient().abs(), y.exponent())
}

fn samples() -> Vec<d64> {
    let mut v = Vec::new();
    for s in ["0", "-0", "1", "-1", "1.5", "-2.50", "123456789", "9999999999999999", "1E+369",
              "-7E-398", "0.001", "1E-390", "101", "110", "1111", "Infinity", "-Infinity",
              "NaN", "-NaN12", "sNaN", "-sNaN7", "12E+2", "0E+5", "-0E-5"] {
        v.push(d64::from_str(s).unwrap());
    }
    let mut x: u64 = 0x2545_f491_4f6c_dd1d;
    for _ in 0..1500 {
        x ^= x << 13;
        x ^= x >> 7;
        x ^= x << 17;
        v.push(of_raw(x));
    }
    v
}

fn logical_enc(b: u64) -> bool {
    (b & 0xfbfc_0000_0000_0000) == 0x2238_0000_0000_0000 && (b & !0xfffc_9124_4912_4491u64) == 0
}

#[test]
fn logical_operators_follow_the_bit_formula() {
    let mask = 0x0400_9124_4912_4491u64;
    let mut operands: Vec<d64> = samples();
    for s in ["0", "1", "10", "11", "1011", "1111111111111111", "1000000000000001"] {
        operands.push(d64::from_str(s).unwrap());
    }
    for a in &operands {
        assert_eq!(a.is_logical(), logical_enc(raw(a)), "{:x}", raw(a));
        let expected_not = if logical_enc(raw(a)) { 0x2238_0000_0000_0000 | (!raw(a) & mask) } else { 0x7c00_0000_0000_0000 };
        assert_eq!(raw(&!*a), expected_not);
        for b in operands.iter().take(40) {
            let ok = logical_enc(raw(a)) && logical_enc(raw(b));
            let and = if ok { 0x2238_0000_0000_0000 | (raw(a) & raw(b) & mask) } else { 0x7c00_0000_0000_0000 };
            let or = if ok { 0x2238_0000_0000_0000 | ((raw(a) | raw(b)) & mask) } else { 0x7c00_0000_0000_0000 };
            let xor = if ok { 0x2238_0000_0000_0000 | ((raw(a) ^ raw(b)) & mask) } else { 0x7c00_0000_0000_0000 };
            assert_eq!(raw(&(*a & *b)), and);
            assert_eq!(raw(&(*a | *b)), or);
            assert_eq!(raw(&(*a ^ *b)), xor);
        }
    }
}

#[test]
fn sign_operations_keep_the_number() {
    for x in samples() {
        let a = x.abs();
        let m = -x;
        assert!(a.is_canonical() && m.is_canonical());
        if x.is_nan() {
            assert!(a.is_nan() && !a.is_signaling() && a.is_signed() == x.is_signed());
            assert!(m.is_nan() && !m.is_signaling() && m.is_signed() == x.is_signed());
            assert_eq!(a.digits(), x.digits());
        } else {
            assert!(!a.is_signed());
            assert_eq!(m.is_signed(), !x.is_zero() && !x.is_signed());
            if x.is_finite() {
                let (_, c, e) = parts(&x);
                assert_eq!((parts(&a).1, parts(&a).2), (c, e));
                assert_eq!((parts(&m).1, parts(&m).2), (c, e));
            } else {
                assert!(a.is_infinite() && m.is_infinite());
            }
        }
    }
}

#[test]
fn logb_is_the_adjusted_exponent() {
    for x in samples() {
        let l = x.logb();
        assert!(l.is_canonical());
        if x.is_nan() {
            assert!(l.is_nan() && !l.is_signaling());
        } else if x.is_infinite() {
            assert_eq!(raw(&l), raw(&d64::infinity()));
        } else if x.is_zero() {
            assert_eq!(raw(&l), raw(&d64::neg_infinity()));
        } else {
            let (_, _, e) = parts(&x);
            let adjusted = e + x.digits() as i32 - 1;
            assert_eq!(raw(&l), raw(&d64::from(adjusted)));
        }
    }
}

#[test]
fn compare_gives_unit_or_nan() {
    let v = samples();
    for x in v.iter().take(200) {
        for y in v.iter().take(60) {
            let c = x.compare(y);
            if x.is_nan() || y.is_nan() {
                assert!(c.is_nan() && !c.is_signaling());
                assert!(x.partial_cmp(y).is_none());
                assert!(x != y);
            } else {
                let expected = match dec_of(x).partial_cmp(&dec_of(y)).unwrap() {
                    std::cmp::Ordering::Less => 0xa238_0000_0000_0001u64,
                    std::cmp::Ordering::Equal => 0x2238_0000_0000_0000,
                    std::cmp::Ordering::Greater => 0x2238_0000_0000_0001,
                };
                assert_eq!(raw(&c), expected);
                assert_eq!(x == y, expected == 0x2238_0000_0000_0000);
                assert_eq!(y.compare(x).is_signed(), c.is_positive());
            }
            let t = x.compare_total(y);
            let expected = match dec_of(x).total_cmp(&dec_of(y)) {
                std::cmp::Ordering::Less => 0xa238_0000_0000_0001u64,
                std::cmp::Ordering::Equal => 0x2238_0000_0000_0000,
                std::cmp::Ordering::Greater => 0x2238_0000_0000_0001,
            };
            assert_eq!(raw(&t), expected);
            assert_eq!(raw(&y.compare_total(x)) ^ raw(&t), if expected == 0x2238_0000_0000_0000 { 0 } else { 0x8000_0000_0000_0000 });
        }
    }
}

#[test]
fn max_min_choose_an_operand() {
    let v = samples();
    for x in v.iter().take(120) {
        for y in v.iter().take(40) {
            let hi = x.max(y);
            let lo = x.min(y);
            assert!(hi.is_canonical() && lo.is_canonical());
            if !x.is_nan() && !y.is_nan() {
                assert!(raw(&hi) == raw(&x.canonical()) || raw(&hi) == raw(&y.canonical()));
                assert!(raw(&lo) == raw(&x.canonical()) || raw(&lo) == raw(&y.canonical()));
                assert!(!(hi < *x) && !(hi < *y));
                assert!(!(lo > *x) && !(lo > *y));
            } else if x.is_nan() && !y.is_nan() && !x.is_signaling() {
                assert_eq!(raw(&hi), raw(&y.canonical()));
            }
        }
    }
}

#[test]
fn next_moves_strictly() {
    for x in samples() {
        if x.is_nan() {
            continue;
        }
        let up = x.next();
        let down = x.previous();
        if raw(&x.canonical()) != raw(&d64::infinity()) {
            assert!(up > x, "{:x}", raw(&x));
        }
        if raw(&x.canonical()) != raw(&d64::neg_infinity()) {
            assert!(down < x, "{:x}", raw(&x));
        }
    }
}

#[test]
fn reduce_and_canonical_keep_the_value() {
    for x in samples() {
        if x.is_nan() {
            continue;
        }
        let r = x.reduce();
        assert!(r == x);
        assert_eq!(r.is_signed(), x.is_signed());
        if x.is_zero() {
            assert_eq!(parts(&r).2, 0);
        }
    }
}

#[test]
fn shifts_follow_the_digit_formula() {
    for x in samples().iter().filter(|x| x.is_finite()).take(300) {
        let (neg, c, e) = parts(x);
        for n in 0..=34usize {
            let l = *x << n;
            let r = *x >> n;
            if n >= 16 {
                assert!(l.is_zero() && r.is_zero());
                assert_eq!(parts(&l), (neg, 0, e));
                assert_eq!(parts(&r), (neg, 0, e));
                continue;
            }
            let p = 10i64.pow(n as u32);
            let left = ((c as i128 * p as i128) % 10_000_000_000_000_000i128) as i64;
            assert_eq!(parts(&l), (neg, left, e));
            assert_eq!(parts(&r), (neg, c / p, e));
        }
        assert_eq!(raw(&(*x << 35)), raw(&d64::from_str("NaN").unwrap()));
        assert!((*x >> 35).is_nan());
        assert!((*x << 4294967298usize).is_nan());
    }
}

#[test]
fn infinities_bound_the_order() {
    let lo = d64::neg_infinity();
    let hi = d64::infinity();
    assert!(lo < hi);
    assert!(hi > lo);
    assert_eq!(lo.compare(&hi), d64::from_str("-1").unwrap());
    assert_eq!(hi.compare(&lo), d64::from_str("1").unwrap());
    assert_eq!(raw(&lo.compare_total(&hi)), raw(&d64::from_str("-1").unwrap()));
    assert!(lo < d64::from_str("-9.999999999999999E+384").unwrap());
    assert!(d64::from_str("9.999999999999999E+384").unwrap() < hi);
}

#[test]
fn order_is_transitive_on_samples() {
    let v: Vec<d64> = samples().into_iter().take(60).collect();
    for x in &v {
        for y in &v {
            for z in &v {
                if x < y && y < z {
                    assert!(x < z);
                }
                if x == y && y == z {
                    assert!(x == z);
                }
                if x <= y && y <= z {
                    assert!(x <= z);
                }
            }
        }
    }
}

#[test]
fn total_order_is_transitive_on_samples() {
    let v: Vec<d64> = samples().into_iter().take(40).collect();
    let minus_one = raw(&d64::from_str("-1").unwrap());
    let one = raw(&d64::from_str("1").unwrap());
    for x in &v {
        for y in &v {
            assert_eq!(raw(&x.compare_total(y)) == minus_one, raw(&y.compare_total(x)) == one);
            for z in &v {
                if raw(&x.compare_total(y)) != one && raw(&y.compare_total(z)) != one {
                    assert!(raw(&x.compare_total(z)) != one);
                }
            }
        }
    }
}

#[test]
fn subnormal_bound_is_ten_to_minus_6143() {
    assert!(!d64::from_str("1E-390").unwrap().is_subnormal());
    assert!(d64::from_str("1E-390").unwrap().is_normal());
    assert!(!d64::from_str("1").unwrap().is_subnormal());
    assert!(!d64::zero().is_subnormal());
    assert!(!d64::zero().is_normal());
    assert_eq!(d64::from_str("1E-390").unwrap().classify(), decimal::FpCategory::Subnormal);
}

#[test]
fn string_round_trip_of_canonical_encodings() {
    let mut n = 0;
    for x in samples() {
        if x.is_canonical() {
            let y = d64::from_str(&x.to_string()).unwrap();
            assert_eq!(raw(&y), raw(&x), "{}", x.to_string());
            n += 1;
        }
    }
    assert!(n > 100);
}

#[test]
fn reduce_strips_trailing_zeros() {
    assert_eq!(d64::from_str("1.200").unwrap().reduce().to_string(), "1.2");
    assert_eq!(d64::from_str("100").unwrap().reduce().to_string(), "1E+2");
    assert_eq!(d64::from_str("-0.00").unwrap().reduce().to_string(), "-0");
    assert_eq!(d64::from_str("1000E+367").unwrap().reduce().to_string(), "1.0E+370");
    for x in samples().iter().filter(|x| x.is_finite() && !x.is_zero()) {
        let (_, c, e) = parts(&x.reduce());
        assert!(c % 10 != 0 || e == 369);
    }
}

#[test]
fn exact_mathematical_results() {
    let one = d64::from_str("1").unwrap();
    assert_eq!(raw(&d64::from_str("5").unwrap().exp(d64::zero())), raw(&one));
    assert_eq!(raw(&one.exp(d64::neg_infinity())), raw(&d64::zero()));
    assert_eq!(raw(&d64::from_str("1000").unwrap().log10()), raw(&d64::from_str("3").unwrap()));
    assert_eq!(raw(&d64::from_str("0.001").unwrap().log10()), raw(&d64::from_str("-3").unwrap()));
    assert_eq!(raw(&d64::from_str("1.000").unwrap().log10()), raw(&d64::zero()));
}

#[test]
fn infinities_absorb_finite_addends() {
    let inf = d64::infinity();
    let one = d64::from_str("1").unwrap();
    assert_eq!(raw(&(inf + one)), raw(&inf));
    assert_eq!(raw(&(one - inf)), raw(&d64::neg_infinity()));
    assert_eq!(raw(&(inf - d64::neg_infinity())), raw(&inf));
    assert!((inf + d64::neg_infinity()).is_nan());
    assert!((inf - inf).is_nan());
}

#[test]
fn operations_report_their_flags() {
    let (x, f) = d64::from_str_with_status("abc");
    assert!(x.is_nan() && !x.is_signaling());
    assert!(f.conversion_syntax);
    let (x, f) = d64::from_str_with_status("1\u{0}2");
    assert!(x.is_nan() && !x.is_signaling());
    assert!(f.conversion_syntax);
    let (x, f) = d64::from_str_with_status("1E+1000");
    assert!(x.is_infinite() && !x.is_negative());
    assert!(f.overflow && f.inexact && !f.conversion_syntax);
    let (x, f) = d64::from_str_with_status("1.5");
    assert_eq!(x.to_string(), "1.5");
    assert!(!f.any());
    let zero = d64::zero();
    let one = d64::from_str("1").unwrap();
    let (x, f) = zero.logb_with_status();
    assert_eq!(raw(&x), raw(&d64::neg_infinity()));
    assert!(f.division_by_zero);
    let (x, f) = one.div_with_status(zero);
    assert_eq!(raw(&x), raw(&d64::infinity()));
    assert!(f.division_by_zero);
    let (x, f) = d64::from_str("5").unwrap().exp_with_status(zero);
    assert_eq!(raw(&x), raw(&one));
    assert_eq!(f, Flags::empty());
    let (x, f) = d64::from_str("1000").unwrap().log10_with_status();
    assert_eq!(raw(&x), raw(&d64::from_str("3").unwrap()));
    assert!(!f.inexact);
    let (_, f) = one.exp_with_status(one);
    assert!(f.inexact && f.rounded);
    let (x, f) = one.shl_with_status(35);
    assert!(x.is_nan() && f.invalid_operation);
    let (_, f) = one.shl_with_status(20);
    assert!(!f.any());
    let (_, f) = d64::from_str("sNaN").unwrap().add_with_status(one);
    assert!(f.invalid_operation);
    let (x, f) = d64::infinity().add_with_status(one);
    assert_eq!(raw(&x), raw(&d64::infinity()));
    assert!(!f.any());
    let (_, f) = one.div_with_status(d64::from_str("3").unwrap());
    assert!(f.inexact);
}

#[test]
fn a_nul_in_a_string_gives_a_quiet_nan() {
    let x = d64::from_str("1\u{0}2").unwrap();
    assert_eq!(raw(&x), raw(&d64::from_str("NaN").unwrap()));
    let y: d64 = "\u{0}".parse().unwrap();
    assert!(y.is_nan() && !y.is_signaling());
}

#[test]
fn next_and_previous_are_adjacent() {
    let one = d64::from_str("1").unwrap();
    assert_eq!(raw(&one.next()), raw(&d64::from_str("1.000000000000001").unwrap()));
    assert_eq!(raw(&one.previous()), raw(&d64::from_str("0.9999999999999999").unwrap()));
    assert_eq!(raw(&d64::zero().next()), raw(&d64::from_str("1E-398").unwrap()));
    for x in samples().iter().filter(|x| !x.is_nan()) {
        if !(x.is_infinite() && !x.is_signed()) {
            assert!(x.next().previous() == *x);
        }
        if !(x.is_infinite() && x.is_signed()) {
            assert!(x.previous().next() == *x);
        }
    }
}

#[test]
fn ln_of_one_is_exact() {
    let (x, f) = d64::from_str("1").unwrap().ln_with_status();
    assert!(x.is_zero());
    assert!(!f.inexact);
    let (x, f) = d64::from_str("1.000").unwrap().ln_with_status();
    assert!(x.is_zero());
    assert!(!f.inexact);
}

#[test]
fn hex_spells_the_bytes_last_first() {
    let b = [0xefu8, 0xcd, 0xab, 0x89, 0x67, 0x45, 0x23, 0x01];
    assert_eq!(d64::from_raw_bytes(b).to_hex(), "0123456789abcdef");
}

#[test]
fn sum_reports_the_flags_of_its_additions() {
    let big = d64::from_str("1E+16").unwrap();
    let one = d64::from_str("1").unwrap();
    let (s, f) = d64::sum_with_status(&[big, one]);
    assert_eq!(raw(&s), raw(&d64::sum(&[big, one])));
    assert!(f.inexact);
    let (_, f) = d64::sum_with_status(&[d64::from_str("1").unwrap(), d64::from_str("2").unwrap()]);
    assert!(!f.any());
    let (_, f) = d64::from_str_with_status("1\u{0}2");
    assert!(f.conversion_syntax);
}

#[test]
fn flags_of_the_quiet_operations() {
    for x in samples() {
        let s = x.is_signaling();
        for f in [x.abs_with_status().1, x.neg_with_status().1, x.next_with_status().1,
                  x.previous_with_status().1] {
            assert_eq!(f.invalid_operation, s);
            assert!(!(f.inexact || f.overflow || f.underflow || f.division_by_zero));
        }
        let f = x.logb_with_status().1;
        assert_eq!(f.invalid_operation, s);
        assert_eq!(f.division_by_zero, x.is_zero());
        let g = x.not_with_status().1;
        assert_eq!(g.invalid_operation, !x.is_logical());
    }
}
