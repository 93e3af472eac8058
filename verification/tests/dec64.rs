use decimal::d64;

fn d(s: &str) -> d64 {
    d64::from_str(s).unwrap()
}

#[test]
fn default() {
    assert_eq!(d64::zero(), d64::default());
    assert_eq!(d64::zero(), Default::default());
}

#[test]
fn special() {
    assert!(d64::infinity().is_infinite());
    assert!(!d64::infinity().is_negative());

    assert!(d64::neg_infinity().is_infinite());
    assert!(d64::neg_infinity().is_negative());

    assert_eq!(d64::infinity() + d("1"), d64::infinity());
}

#[test]
fn unary_op() {
    assert_eq!(d("-1.1"), -d("1.1"));
    assert_eq!(d("-1.1"), -&d("1.1"));
}

#[test]
fn binary_op() {
    assert_eq!(d("3.33"), d("1.11") + d("2.22"));
    assert_eq!(d("3.33"), &d("1.11") + d("2.22"));
    assert_eq!(d("3.33"), d("1.11") + &d("2.22"));
    assert_eq!(d("3.33"), &d("1.11") + &d("2.22"));
    assert_eq!(d("5") << 2, d("500"));
    assert_eq!(d("500") >> 1, d("50"));
}

#[test]
fn assign_op() {
    let mut x = d("1");
    x += d("2");
    assert_eq!(x, d("3"));
    x *= d("3");
    assert_eq!(x, d("9"));
    x -= d("1");
    assert_eq!(x, d("8"));
    x /= d("16");
    assert_eq!(x, d("0.5"));
    x <<= 2;
    assert_eq!(x, d("50"));
    x >>= 1;
    assert_eq!(x, d("5"));
}

#[test]
fn as_ref_operand() {
    assert_eq!(d("1.1"), d("1.1").min(d("2.2")));
    assert_eq!(d("1.1"), d("1.1").min(&d("2.2")));
}

#[test]
fn from_i64() {
    assert_eq!(d64::from_str(&::std::i64::MAX.to_string()).unwrap(),
               d64::from(::std::i64::MAX));
    assert_eq!(d64::from(0i32), d64::from(0i64));
    assert_eq!(d64::from_str(&(::std::i64::MIN).to_string()).unwrap(),
               d64::from(::std::i64::MIN));
}

#[test]
fn from_u64() {
    assert_eq!(d64::from_str(&::std::u64::MAX.to_string()).unwrap(),
               d64::from(::std::u64::MAX));
    assert_eq!(d64::from(0i32), d64::from(0u64));
    assert_eq!(d64::from_str(&(::std::u64::MIN).to_string()).unwrap(),
               d64::from(::std::u64::MIN));
}

#[test]
fn test_sum() {
    let decimals = vec![d("1"), d("2"), d("3"), d("4")];

    assert_eq!(d("10"), d64::sum(&decimals));

    let owned: Vec<d64> = decimals.into_iter().collect();
    assert_eq!(d("10"), d64::sum(&owned));
}
