use market_stats::rat::Rat;

fn rf(n: i64, d: i64) -> Rat {
    Rat::new(n, d).unwrap()
}

#[test]
fn new_reduces_to_lowest_terms() {
    let x = Rat::new(108, 100).unwrap();
    assert_eq!(x.num(), 27);
    assert_eq!(x.den(), 25);
}

#[test]
fn new_rejects_zero_denominator() {
    assert!(Rat::new(1, 0).is_none());
}

#[test]
fn new_fixes_negative_denominator() {
    let x = Rat::new(1, -2).unwrap();
    assert_eq!(x.num(), -1);
    assert_eq!(x.den(), 2);
}

#[test]
fn add_is_exact() {
    let s = rf(1, 2).add(&rf(1, 3)).unwrap();
    assert_eq!(s.num(), 5);
    assert_eq!(s.den(), 6);
}

#[test]
fn sub_is_exact() {
    let s = rf(1, 2).sub(&rf(1, 3)).unwrap();
    assert_eq!(s.num(), 1);
    assert_eq!(s.den(), 6);
}

#[test]
fn mul_reduces() {
    let s = rf(1, 2).mul(&rf(2, 3)).unwrap();
    assert_eq!(s.num(), 1);
    assert_eq!(s.den(), 3);
}

#[test]
fn div_is_exact() {
    let s = rf(1, 2).div(&rf(1, 4)).unwrap();
    assert_eq!(s.num(), 2);
    assert_eq!(s.den(), 1);
}

#[test]
fn div_by_zero_is_none() {
    assert!(rf(1, 2).div(&Rat::zero()).is_none());
}

#[test]
fn add_overflow_is_none() {
    let big = Rat::from_int(i64::MAX);
    assert!(big.add(&big).is_none());
}

#[test]
fn comparisons_follow_the_values() {
    assert!(rf(1, 3).lt(&rf(1, 2)));
    assert!(rf(1, 2).le(&rf(2, 4)));
    assert!(rf(1, 2).eq_val(&rf(2, 4)));
    assert!(!rf(1, 2).lt(&rf(1, 3)));
    assert!(rf(-1, 2).lt(&Rat::zero()));
}
