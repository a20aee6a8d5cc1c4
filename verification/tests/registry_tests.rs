use grouphug::fee::{FeeRate, bucket_of};
use grouphug::group::Group;
use grouphug::registry::GroupRegistry;
use grouphug::validation::{ValidatedSubmission, validate_tx_query_one_to_one_single_anyone_can_pay};

const TX_VALID: &str = "0200000000010136740240418792cf35e8dea54f9ec215170594ecef73740bd001392a7b464d110100000000fdffffff0129260000000000001600149664e4a54e7f04f09799d2e61268057a033876780247304402204bb811853c6e0f8e49b0bab3ced01da988afc3a08bf127962ab24129be555f1c0220026f413918a7f9fdc02968271e7c730cadb5a3a5476505bc106a87ff1e1f23c3832102fc889ef1d04e7c489f225a718b3742893d88e1e3f6662c1e5e84c7489252968c80552700";

/// A validated submission whose real fee is `prev_value` minus the
/// transaction's 9_769-sat output, spread over its virtual size.
fn submission(prev_value: u64) -> ValidatedSubmission {
    let declared = FeeRate::new(0, 1);
    validate_tx_query_one_to_one_single_anyone_can_pay(&declared, TX_VALID, prev_value, true)
        .unwrap()
}

#[test]
fn group_reports_close_exactly_at_target() {
    let mut g = Group::new(7, 2);
    assert!(!g.add_tx(submission(10_000)));
    assert!(g.add_tx(submission(10_000)));
    assert_eq!(g.submissions.len(), 2);
    assert_eq!(g.bucket, 7);
}

#[test]
fn same_bucket_submissions_share_one_group() {
    let mut reg = GroupRegistry::new(1, 3);
    let v1 = submission(10_000);
    let v2 = submission(10_000);
    assert!(reg.admit_tx(v1).is_none());
    assert!(reg.admit_tx(v2).is_none());
    assert_eq!(reg.groups.len(), 1);
    assert_eq!(reg.groups[0].submissions.len(), 2);
}

#[test]
fn different_buckets_get_different_groups() {
    let mut reg = GroupRegistry::new(1, 3);
    let low = submission(10_000);
    let high = submission(11_000);
    let b_low = bucket_of(&low.real_fee, 1);
    let b_high = bucket_of(&high.real_fee, 1);
    assert_ne!(b_low, b_high);
    assert!(reg.admit_tx(low).is_none());
    assert!(reg.admit_tx(high).is_none());
    assert_eq!(reg.groups.len(), 2);
}

#[test]
fn group_is_evicted_the_moment_it_closes() {
    let mut reg = GroupRegistry::new(1, 2);
    let v1 = submission(10_000);
    let v2 = submission(10_000);
    assert!(reg.admit_tx(v1).is_none());
    let closed = reg.admit_tx(v2).expect("second submission closes the group");
    assert_eq!(closed.submissions.len(), 2);
    assert_eq!(reg.groups.len(), 0);
}

#[test]
fn closed_bucket_restarts_with_a_fresh_group() {
    // once the closing target evicts a bucket's group, a later submission
    // for the same bucket starts over from one submission
    let mut reg = GroupRegistry::new(1, 2);
    assert!(reg.admit_tx(submission(10_000)).is_none());
    assert!(reg.admit_tx(submission(10_000)).is_some());
    assert_eq!(reg.groups.len(), 0);
    assert!(reg.admit_tx(submission(10_000)).is_none());
    assert_eq!(reg.groups.len(), 1);
    assert_eq!(reg.groups[0].submissions.len(), 1);
}

#[test]
fn no_submission_is_lost() {
    // five admissions to one bucket at target 3: one closed batch of
    // three plus an open group of two
    let mut reg = GroupRegistry::new(1, 3);
    let mut closed_total = 0;
    for _ in 0..5 {
        if let Some(g) = reg.admit_tx(submission(10_000)) {
            closed_total += g.submissions.len();
        }
    }
    let open_total: usize = reg.groups.iter().map(|g| g.submissions.len()).sum();
    assert_eq!(closed_total, 3);
    assert_eq!(open_total, 2);
}

#[test]
fn target_of_one_closes_immediately() {
    let mut reg = GroupRegistry::new(1, 1);
    let closed = reg.admit_tx(submission(10_000)).expect("closes at once");
    assert_eq!(closed.submissions.len(), 1);
    assert_eq!(reg.groups.len(), 0);
}
