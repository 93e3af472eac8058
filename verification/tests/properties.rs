use decimal::{d64, Class, FpCategory};
use dec::Decimal64;

fn d(s: &str) -> d64 {
    d64::from_str(s).unwrap()
}

fn raw(x: &d64) -> u64 {
    u64::from_le_bytes(x.to_raw_bytes())
}

fn of_raw(b: u64) -> d64 {
    d64::from_raw_bytes(b.to_le_bytes())
}

/// A spread of encodings: every combination field and sign with varied
/// exponent continuations and declets, plus pseudo-random words.
fn sample_encodings() -> Vec<u64> {
    let mut v = Vec::new();
    let declets: [u64; 12] = [0, 1, 0x3ff, 0x16e, 0x36e, 0x07e, 0x00e, 0x2ff, 0x0a5, 0x39c, 0x200, 0x091];
    for sign in 0..2u64 {
        for comb in 0..32u64 {
            for (k, dl) in declets.iter().enumerate() {
                let econ = (k as u64 * 37 + comb * 11) & 0xff;
                let cont = (dl << 40) | (dl << 30) | (dl << 20) | (dl << 10) | dl;
                v.push((sign << 63) | (comb << 58) | (econ << 50) | cont);
                v.push((sign << 63) | (comb << 58) | (econ << 50) | *dl);
            }
        }
    }
    let mut x: u64 = 0x9e37_79b9_7f4a_7c15;
    for _ in 0..4000 {
        x ^= x << 13;
        x ^= x >> 7;
        x ^= x << 17;
        v.push(x);
    }
    v
}

fn dec_of(b: u64) -> Decimal64 {
    Decimal64::from_le_bytes(b.to_le_bytes())
}

#[test]
fn queries_agree_with_decnumber() {
    for b in sample_encodings() {
        let x = of_raw(b);
        let y = dec_of(b);
        assert_eq!(x.is_nan(), y.is_nan(), "{:x}", b);
        assert_eq!(x.is_infinite(), y.is_infinite(), "{:x}", b);
        assert_eq!(x.is_finite(), y.is_finite(), "{:x}", b);
        assert_eq!(x.is_signaling(), y.is_signaling_nan(), "{:x}", b);
        assert_eq!(x.is_signed(), y.is_signed(), "{:x}", b);
        assert_eq!(x.is_zero(), y.is_zero(), "{:x}", b);
        assert_eq!(x.is_negative(), y.is_negative(), "{:x}", b);
        assert_eq!(x.is_positive(), y.is_positive(), "{:x}", b);
        assert_eq!(x.digits(), y.digits(), "{:x}", b);
        assert_eq!(x.is_integer(), y.is_integer(), "{:x}", b);
        assert!(!x.is_subnormal(), "{:x}", b);
        assert_eq!(x.is_normal(), y.is_finite() && !y.is_zero(), "{:x}", b);
        assert_eq!(x.is_canonical(), y.is_canonical(), "{:x}", b);
        let expected = match y.class() {
            dec::Class::SignalingNan => Class::Snan,
            dec::Class::QuietNan => Class::Qnan,
            dec::Class::NegInfinity => Class::NegInf,
            dec::Class::NegNormal => Class::NegNormal,
            dec::Class::NegSubnormal => Class::NegSubnormal,
            dec::Class::NegZero => Class::NegZero,
            dec::Class::PosZero => Class::PosZero,
            dec::Class::PosSubnormal => Class::PosSubnormal,
            dec::Class::PosNormal => Class::PosNormal,
            dec::Class::PosInfinity => Class::PosInf,
        };
        assert_eq!(x.class(), expected, "{:x}", b);
        if y.is_finite() {
            assert_eq!(x.is_zero(), y.coefficient() == 0, "{:x}", b);
        }
    }
}

#[test]
fn canonical_keeps_value() {
    for b in sample_encodings() {
        let x = of_raw(b);
        let c = x.canonical();
        assert!(c.is_canonical(), "{:x}", b);
        assert_eq!(c.digits(), x.digits());
        assert_eq!(c.class(), x.class());
        if x.is_canonical() {
            assert_eq!(raw(&c), b);
        }
        if !x.is_nan() {
            assert!(x == c, "{:x}", b);
        }
    }
}

#[test]
fn logical_operands() {
    assert!(d("1011").is_logical());
    assert!(d("0").is_logical());
    assert!(!d("1012").is_logical());
    assert!(!d("-101").is_logical());
    assert!(!d("1.01").is_logical());
    assert!(!d("1E+3").is_logical());
    assert_eq!(d("1100") & d("1010"), d("1000"));
    assert_eq!(d("1100") | d("1010"), d("1110"));
    assert_eq!(d("1100") ^ d("1010"), d("110"));
    assert_eq!(!d("1100"), d("1111111111110011"));
    assert!((d("2") & d("1")).is_nan());
    assert!((!d("-1")).is_nan());
}

#[test]
fn hex_round_trip() {
    for b in sample_encodings() {
        let x = of_raw(b);
        let h = x.to_hex();
        assert_eq!(h, format!("{:016x}", b));
        assert_eq!(raw(&d64::from_hex(&h)), b);
        assert_eq!(raw(&d64::from_hex(&h.to_uppercase())), b);
    }
    assert_eq!(d64::zero().to_hex(), "2238000000000000");
    assert!(d64::from_hex("2238").is_nan());
    assert!(d64::from_hex("223800000000000g").is_nan());
    assert!(d64::from_hex("22380000000000000000000000000000").is_nan());
}

#[test]
fn raw_bytes_round_trip() {
    let bytes = [1u8, 2, 3, 4, 5, 6, 7, 8];
    assert_eq!(d64::from_raw_bytes(bytes).to_raw_bytes(), bytes);
    assert_eq!(d64::zero().to_raw_bytes(), [0, 0, 0, 0, 0, 0, 0x38, 0x22]);
    assert_eq!(d64::zero().to_raw_bytes(), Decimal64::ZERO.to_le_bytes());
}

#[test]
fn constants() {
    assert!(d64::zero().is_zero());
    assert!(!d64::zero().is_signed());
    assert_eq!(d64::zero().class(), Class::PosZero);
    assert_eq!(d64::infinity().class(), Class::PosInf);
    assert_eq!(d64::neg_infinity().class(), Class::NegInf);
    assert_eq!(d64::infinity().to_string(), "Infinity");
    assert_eq!(d64::neg_infinity().to_string(), "-Infinity");
    assert_eq!(d64::zero().to_string(), "0");
}

#[test]
fn parse_and_format() {
    assert_eq!(d("1.23").to_string(), "1.23");
    assert_eq!(d("-0.000001").to_string(), "-0.000001");
    assert_eq!(d("0.0000001").to_string(), "1E-7");
    assert_eq!(d("1E+3").to_string(), "1E+3");
    assert_eq!(d("1.2E+4").to_eng_string(), "12E+3");
    assert_eq!(d("12345678901234567").to_string(), "1.234567890123457E+16");
    let n = d("not a number");
    assert!(n.is_nan());
    assert!(!n.is_signaling());
    assert!(!n.is_signed());
    assert!(d("a\0b").is_nan());
    assert!(d("sNaN").is_signaling());
    assert_eq!(d("NaN123").digits(), 3);
}

#[test]
fn integer_conversions() {
    assert_eq!(d64::from(-123i32).to_string(), "-123");
    assert_eq!(d64::from(4000000000u32).to_string(), "4000000000");
    assert_eq!(i32::from(d("2.5")), 2);
    assert_eq!(i32::from(d("3.5")), 4);
    assert_eq!(i32::from(d("-2.5")), -2);
    assert_eq!(i32::from(d("-2.51")), -3);
    assert_eq!(i32::from(d("2147483647")), 2147483647);
    assert_eq!(i32::from(d("-2147483648")), -2147483648);
    assert_eq!(i32::from(d("2147483648")), 0);
    assert_eq!(i32::from(d("1E+10")), 0);
    assert_eq!(i32::from(d("123E-30")), 0);
    assert_eq!(i32::from(d("NaN")), 0);
    assert_eq!(i32::from(d64::infinity()), 0);
    assert_eq!(i32::from(d("12E+2")), 1200);
    assert_eq!(u32::from(d("4294967295")), 4294967295);
    assert_eq!(u32::from(d("4294967296")), 0);
    assert_eq!(u32::from(d("-1")), 0);
    assert_eq!(u32::from(d("-0.4")), 0);
    assert_eq!(u32::from(d("0.5")), 0);
    assert_eq!(u32::from(d("1.5")), 2);
    for n in [0i32, 1, -1, 42, -99999, i32::MAX, i32::MIN] {
        assert_eq!(i32::from(d64::from(n)), n);
    }
    for n in [0u32, 1, 42, u32::MAX] {
        assert_eq!(u32::from(d64::from(n)), n);
    }
    assert_eq!(d64::from(12345u64).to_string(), "12345");
    assert_eq!(d64::from(-12345i64).to_string(), "-12345");
}

#[test]
fn comparisons() {
    assert_eq!(d("1").compare(d("2")), d("-1"));
    assert_eq!(d("2").compare(&d("1")), d("1"));
    assert_eq!(d("1.0").compare(d("1")), d("0"));
    assert_eq!(raw(&d("1").compare(d("2"))), 0xa238_0000_0000_0001);
    assert!(d("NaN").compare(d("1")).is_nan());
    assert!(!d("sNaN").compare(d("1")).is_signaling());
    assert_eq!(d("-0"), d("0"));
    assert!(d("NaN") != d("NaN"));
    assert!(d("1") < d("2"));
    assert!(d("-Infinity") < d("-1E+300"));
    assert_eq!(d("1").partial_cmp(&d("NaN")), None);
    assert_eq!(d("1.0").compare_total(d("1")), d("-1"));
    assert_eq!(d("-0").compare_total(d("0")), d("-1"));
    assert_eq!(d("NaN").compare_total(d("Infinity")), d("1"));
    assert_eq!(d("sNaN").compare_total(d("NaN")), d("-1"));
    assert_eq!(d("1").compare_total(d("1")), d("0"));
}

#[test]
fn max_min() {
    assert_eq!(d("3").max(d("2")), d("3"));
    assert_eq!(d("3").min(d("2")), d("2"));
    assert_eq!(d("NaN").max(d("2")), d("2"));
    assert_eq!(d("2").min(&d("NaN")), d("2"));
    assert!(d("sNaN").max(d("2")).is_nan());
    assert!(!d("-0").max(d("0")).is_signed());
    assert!(d("-0").min(d("0")).is_signed());
}

#[test]
fn computations() {
    assert_eq!(d("-1.5").abs(), d("1.5"));
    assert!(!d("-0").abs().is_signed());
    assert_eq!(d("2").mul_add(d("3"), d("4")), d("10"));
    assert_eq!(d("123").logb(), d("2"));
    assert_eq!(d("1").logb(), d("0"));
    assert_eq!(d("0.001").logb(), d("-3"));
    assert_eq!(d("0").logb(), d64::neg_infinity());
    assert_eq!(d("-Infinity").logb(), d64::infinity());
    assert_eq!(d("1").next(), d("1.000000000000001"));
    assert_eq!(d("1").previous(), d("0.9999999999999999"));
    assert_eq!(d("1").towards(d("2")), d("1.000000000000001"));
    assert_eq!(d("2").pow(d("10")), d("1024"));
    assert_eq!(d("100").log10(), d("2"));
    assert_eq!(d("1").ln(), d("0"));
    assert_eq!(d("5").exp(d("0")), d("1"));
    assert_eq!(d("5").exp(d("1")).to_string(), "2.718281828459045");
    assert_eq!(d("1.2345").quantize(d("0.01")).to_string(), "1.23");
    assert_eq!(d("1.2000").reduce().to_string(), "1.2");
    assert_eq!(d("1234").rotate(d("2")).to_string(), "123400");
    assert_eq!(d("1.5").scaleb(d("3")), d("1500"));
    assert_eq!(d("7") % d("3"), d("1"));
    assert_eq!(d("1") / d("0"), d64::infinity());
    assert!((d64::infinity() - d64::infinity()).is_nan());
    assert!((d("NaN") + d("1")).is_nan());
    assert_eq!(-d("0"), d("0"));
    assert!(!(-d("0")).is_signed());
}

#[test]
fn classify() {
    assert_eq!(d("NaN").classify(), FpCategory::Nan);
    assert_eq!(d("-Infinity").classify(), FpCategory::Infinite);
    assert_eq!(d("-0").classify(), FpCategory::Zero);
    assert_eq!(d("1").classify(), FpCategory::Normal);
    assert_eq!(d("1E-390").classify(), FpCategory::Subnormal);
    assert_eq!(d("1E-390").class(), Class::PosSubnormal);
    assert_eq!(d("-1E-383").class(), Class::NegNormal);
    assert_eq!(d("1234.5").digits(), 5);
    assert_eq!(d("0").digits(), 1);
    assert_eq!(d64::infinity().digits(), 1);
}

#[test]
fn sum_of_nothing_is_zero() {
    assert_eq!(raw(&d64::sum(&[])), raw(&d64::zero()));
    assert_eq!(d64::sum(&[d("0.1"), d("0.2")]), d("0.3"));
}

#[test]
fn quantize_rounds_half_even() {
    assert_eq!(d("1.235").quantize(d("0.01")).to_string(), "1.24");
    assert_eq!(d("1.245").quantize(d("0.01")).to_string(), "1.24");
    assert_eq!(d("-1.2451").quantize(d("0.01")).to_string(), "-1.25");
    assert_eq!(d("7").quantize(d("0.001")).to_string(), "7.000");
    assert_eq!(d("0.4").quantize(d("1")).to_string(), "0");
    assert_eq!(d("-0.4").quantize(d("1")).to_string(), "-0");
    assert!(d("1234567890123456").quantize(d("0.1")).is_nan());
    assert!(d("1").quantize(d("Infinity")).is_nan());
    assert_eq!(d("-Infinity").quantize(d("Infinity")), d64::neg_infinity());
    assert_eq!(raw(&d("1").quantize(d("Infinity"))), 0x7c00_0000_0000_0000);
}

#[test]
fn shift_and_rotate_digits() {
    assert_eq!((d("123") << 2).to_string(), "12300");
    assert_eq!((d("12345") >> 2).to_string(), "123");
    assert_eq!((d("1.5") << 1).to_string(), "15.0");
    assert_eq!((d("1234567890123456") << 1).to_string(), "2345678901234560");
    assert_eq!((d("-123") << 16).to_string(), "-0");
    assert_eq!((d("-1.23") << 16).to_string(), "-0.00");
    assert_eq!((d("1.23") >> 20).to_string(), "0.00");
    assert!(!(d("1") << 17).is_nan());
    assert!((d("1") << 35).is_nan());
    let mut y = d("0.5");
    y <<= 2;
    assert_eq!(y.to_string(), "50.0");
    y >>= 1;
    assert_eq!(y.to_string(), "5.0");
    assert_eq!(d64::infinity() << 3, d64::infinity());
    assert_eq!(d("1234567890123456").rotate(d("1")).to_string(), "2345678901234561");
    assert_eq!(d("1234567890123456").rotate(d("-1")).to_string(), "6123456789012345");
    assert_eq!(d("1234").rotate(d("16")).to_string(), "1234");
    assert!(d("1234").rotate(d("17")).is_nan());
    assert!(d("1234").rotate(d("1.5")).is_nan());
}

#[test]
fn scaleb_moves_exponent() {
    assert_eq!(d("1.5").scaleb(d("-3")).to_string(), "0.0015");
    assert_eq!(d("7E+10").scaleb(d("2")).to_string(), "7E+12");
    assert!(d("1").scaleb(d("801")).is_nan());
    assert!(d("1").scaleb(d("0.5")).is_nan());
    assert_eq!(d("-Infinity").scaleb(d("5")), d64::neg_infinity());
}

#[test]
fn next_and_towards() {
    assert!(d("1").next() > d("1"));
    assert!(d("1").previous() < d("1"));
    assert_eq!(d64::infinity().next(), d64::infinity());
    assert_eq!(d64::neg_infinity().previous(), d64::neg_infinity());
    assert_eq!(d("0").next().to_string(), "1E-398");
    assert_eq!(d64::neg_infinity().next().to_string(), "-9.999999999999999E+384");
    assert_eq!(d("1").towards(d("0")), d("0.9999999999999999"));
    let t = d("1.0").towards(d("-1.00").abs());
    assert_eq!(t.to_string(), "1.0");
    assert!(d("0").towards(d("-0")).is_signed());
}

#[test]
fn reduce_keeps_value() {
    assert_eq!(d("-0.000").reduce().to_string(), "-0");
    assert_eq!(d("1200").reduce().to_string(), "1.2E+3");
    assert_eq!(d("1200").reduce(), d("1200"));
    assert_eq!(d("Infinity").reduce(), d64::infinity());
}

#[test]
fn mathematical_functions() {
    assert_eq!(d("0").exp(d("0")), d("1"));
    assert_eq!(d("3").exp(d("0")), d("1"));
    assert!(d("3").exp(d("-Infinity")).is_zero());
    assert!(d("1.000").ln().is_zero());
    assert_eq!(d("1000").log10(), d("3"));
    assert_eq!(d("0.01").log10(), d("-2"));
    assert_eq!(d("1E+20").log10(), d("20"));
    assert_eq!(d("2").log10().to_string(), "0.3010299956639812");
    assert_eq!(d("2").ln().to_string(), "0.6931471805599453");
    assert_eq!(d("2").pow(d("0.5")).to_string(), "1.414213562373095");
    assert!(d("-1").ln().is_nan());
}
