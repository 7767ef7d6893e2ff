use fsbench::statistician::{Ratio, Statistician};

fn fed(values: &[u64]) -> Statistician {
    let mut s = Statistician::new();
    for &v in values {
        assert!(s.can_update(v));
        s.update(v);
    }
    s
}

fn value(r: Ratio) -> f64 {
    r.num as f64 / r.den as f64
}

fn pstdev(s: &Statistician) -> f64 {
    value(s.pvariance()).sqrt()
}

fn sstdev(s: &Statistician) -> f64 {
    value(s.svariance()).sqrt()
}

#[test]
fn single_observation() {
    let s = fed(&[42]);
    assert_eq!(s.size(), 1);
    assert_eq!(s.mean(), Ratio { num: 42, den: 1 });
    assert_eq!(s.max(), 42);
    assert_eq!(s.min(), 42);
    assert_eq!(sstdev(&s), 0.0);
    assert_eq!(pstdev(&s), 0.0);
}

#[test]
fn single_zero_observation() {
    let s = fed(&[0]);
    assert_eq!(s.max(), 0);
    assert_eq!(s.min(), 0);
    assert_eq!(value(s.mean()), 0.0);
}

#[test]
fn order_does_not_matter() {
    let a = fed(&[5, 1, 9, 3, 3, 12]);
    let b = fed(&[3, 12, 3, 9, 1, 5]);
    assert_eq!(a.mean(), b.mean());
    assert_eq!(a.pvariance(), b.pvariance());
    assert_eq!(a.svariance(), b.svariance());
    assert_eq!(pstdev(&a), pstdev(&b));
}

#[test]
fn one_two_three() {
    let s = fed(&[1, 2, 3]);
    assert_eq!(value(s.mean()), 2.0);
    assert_eq!(s.svariance(), Ratio { num: 6, den: 6 });
    assert_eq!(sstdev(&s), 1.0);
}

#[test]
fn population_example() {
    let s = fed(&[2, 4, 4, 4, 5, 5, 7, 9]);
    assert_eq!(value(s.mean()), 5.0);
    assert_eq!(s.pvariance(), Ratio { num: 256, den: 64 });
    assert_eq!(pstdev(&s), 2.0);
}

#[test]
fn extrema_follow_the_values() {
    let mut s = Statistician::new();
    s.update(7);
    assert_eq!((s.max(), s.min()), (7, 7));
    s.update(3);
    assert_eq!((s.max(), s.min()), (7, 3));
    s.update(11);
    assert_eq!((s.max(), s.min()), (11, 3));
    s.update(5);
    assert_eq!((s.max(), s.min()), (11, 3));
}

#[test]
fn size_counts_updates() {
    let mut s = Statistician::new();
    for i in 0..25u64 {
        assert_eq!(s.size(), i);
        s.update(i * 3);
    }
    assert_eq!(s.size(), 25);
    assert_eq!(s.sum(), 3 * 300);
}

#[test]
fn no_observations() {
    let s = Statistician::new();
    assert_eq!(s.size(), 0);
    assert_eq!(value(s.mean()), 0.0);
    assert_eq!(s.mean(), Ratio { num: 0, den: 1 });
    assert_eq!(sstdev(&s), 0.0);
    assert_eq!(pstdev(&s), 0.0);
    assert_eq!(s.max(), u64::MIN);
    assert_eq!(s.min(), u64::MAX);
    let d = Statistician::default();
    assert_eq!(d.size(), 0);
    assert_eq!(d.max(), u64::MIN);
}

#[test]
fn two_observations() {
    let s = fed(&[10, 20]);
    assert_eq!(s.pvariance(), Ratio { num: 100, den: 4 });
    assert_eq!(s.svariance(), Ratio { num: 100, den: 2 });
    assert_eq!(pstdev(&s), 5.0);
}

#[test]
fn capacity_limit() {
    let s = fed(&[u64::MAX]);
    assert_eq!(s.sum(), u64::MAX as u128);
    assert!(!s.can_update(u64::MAX));
    assert!(!s.can_update(0));
    let half = 1u64 << 63;
    let t = fed(&[half]);
    assert!(t.can_update(0));
    let u = fed(&[half, 0]);
    assert_eq!(u.mean(), Ratio { num: half as u128, den: 2 });
    assert!(u.can_update(0));
    assert!(!u.can_update(half));
}
