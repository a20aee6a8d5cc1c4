use grouphug::fee::{FeeRate, bucket_of};

#[test]
fn exact_rational_comparison() {
    // 1.5 <= 2 but not 2 <= 1.5
    let a = FeeRate::new(3, 2);
    let b = FeeRate::new(2, 1);
    assert!(a.le(&b));
    assert!(!b.le(&a));
    // 1/2 and 2/4 are the same rate
    let c = FeeRate::new(1, 2);
    let d = FeeRate::new(2, 4);
    assert!(c.le(&d));
    assert!(d.le(&c));
}

#[test]
fn bucketing_is_deterministic_on_equal_floors() {
    // 1.5 sat/vB and 1.99 sat/vB share floor 1 at width 1, so they share
    // the bucket
    let r1 = FeeRate::new(3, 2);
    let r2 = FeeRate::new(199, 100);
    assert_eq!(bucket_of(&r1, 1), 1);
    assert_eq!(bucket_of(&r2, 1), 1);
    // 7 sat/vB at width 2 falls into bucket 6
    let r3 = FeeRate::new(7, 1);
    assert_eq!(bucket_of(&r3, 2), 6);
}

#[test]
fn boundary_rate_falls_into_its_own_bucket() {
    // a rate of exactly 6 sat/vB at width 2 buckets as 6, not 4
    let r = FeeRate::new(6, 1);
    assert_eq!(bucket_of(&r, 2), 6);
    // the same boundary written as a non-trivial rational: 12/2
    let r2 = FeeRate::new(12, 2);
    assert_eq!(bucket_of(&r2, 2), 6);
    // just below the boundary falls into the bucket below
    let r3 = FeeRate::new(11, 2);
    assert_eq!(bucket_of(&r3, 2), 4);
}

#[test]
fn zero_rate_buckets_at_zero() {
    let r = FeeRate::new(0, 1);
    assert_eq!(bucket_of(&r, 5), 0);
}
