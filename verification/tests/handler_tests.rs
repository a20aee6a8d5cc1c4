use grouphug::fee::FeeRate;
use grouphug::handler::{SubmissionOutcome, handle_submission};
use grouphug::registry::GroupRegistry;
use grouphug::tx::parse_transaction_hex;
use grouphug::validation::RejectReason;

const TX_VALID: &str = "0200000000010136740240418792cf35e8dea54f9ec215170594ecef73740bd001392a7b464d110100000000fdffffff0129260000000000001600149664e4a54e7f04f09799d2e61268057a033876780247304402204bb811853c6e0f8e49b0bab3ced01da988afc3a08bf127962ab24129be555f1c0220026f413918a7f9fdc02968271e7c730cadb5a3a5476505bc106a87ff1e1f23c3832102fc889ef1d04e7c489f225a718b3742893d88e1e3f6662c1e5e84c7489252968c80552700";

#[test]
fn submit_then_double_spend() {
    // declare 1.5 sat/vB against an oracle holding 10_000 sats unspent:
    // admitted, into the bucket of the real rate; resubmitting once the
    // previous output is reported spent is a double spend and changes
    // nothing
    let mut reg = GroupRegistry::new(1, 2);
    let min = FeeRate::new(3, 2);
    let tx = parse_transaction_hex(TX_VALID).unwrap();
    let prev_value: u64 = 10_000;
    let fee = prev_value - tx.outputs[0];
    let expected_bucket = fee / tx.vsize;
    match handle_submission(&mut reg, &min, TX_VALID, prev_value, true) {
        SubmissionOutcome::Admitted { bucket } => assert_eq!(bucket, expected_bucket),
        _ => panic!("expected the submission to be admitted"),
    }
    assert_eq!(reg.groups.len(), 1);
    match handle_submission(&mut reg, &min, TX_VALID, prev_value, false) {
        SubmissionOutcome::Rejected(e) => assert_eq!(e, RejectReason::DoubleSpend),
        _ => panic!("expected a double-spend rejection"),
    }
    assert_eq!(reg.groups.len(), 1);
    assert_eq!(reg.groups[0].submissions.len(), 1);
}

#[test]
fn handler_reports_the_closed_batch() {
    let mut reg = GroupRegistry::new(1, 2);
    let min = FeeRate::new(1, 1);
    match handle_submission(&mut reg, &min, TX_VALID, 10_000, true) {
        SubmissionOutcome::Admitted { .. } => {},
        _ => panic!("expected the first submission to be admitted"),
    }
    match handle_submission(&mut reg, &min, TX_VALID, 10_000, true) {
        SubmissionOutcome::Closed { batch, .. } => assert_eq!(batch.len(), 2),
        _ => panic!("expected the second submission to close the group"),
    }
    assert_eq!(reg.groups.len(), 0);
}

#[test]
fn handler_rejection_leaves_the_registry_alone() {
    let mut reg = GroupRegistry::new(1, 2);
    let min = FeeRate::new(1, 1);
    match handle_submission(&mut reg, &min, "zz", 10_000, true) {
        SubmissionOutcome::Rejected(e) => assert_eq!(e, RejectReason::MalformedTransaction),
        _ => panic!("expected a rejection"),
    }
    // declaring more than the transaction pays is fee cheating
    let greedy = FeeRate::new(1_000, 1);
    match handle_submission(&mut reg, &greedy, TX_VALID, 10_000, true) {
        SubmissionOutcome::Rejected(e) => assert_eq!(e, RejectReason::FeeBelowDeclared),
        _ => panic!("expected a rejection"),
    }
    assert_eq!(reg.groups.len(), 0);
}
