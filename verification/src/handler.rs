//! The submission handler: glues validation, bucketing and the registry
//! together and owns no state of its own.
//!
//! A rejection is resolved entirely here and mutates nothing; an accepted
//! submission is quantized into its fee bucket and handed to the
//! registry's atomic admission step.

use vstd::prelude::*;
use crate::fee::{FeeRate, bucket_of, spec_bucket_of};
use crate::group::GroupModel;
use crate::registry::{GroupRegistry, find_bucket, lemma_find_bucket_props, spec_admit_tx};
use crate::validation::{
    RejectReason, SubmissionModel, ValidatedSubmission, spec_validate,
    validate_tx_query_one_to_one_single_anyone_can_pay,
};

verus! {

/// The one outcome a submitter is answered with.
pub enum SubmissionOutcome {
    /// The submission failed validation; the registry is untouched.
    Rejected(RejectReason),
    /// The submission was accepted into its bucket's open group.
    Admitted { bucket: u64 },
    /// The submission completed its bucket's group: the group was evicted
    /// and its ordered batch is handed over for assembly.
    Closed { bucket: u64, batch: Vec<ValidatedSubmission> },
}

/// Handle one submission end to end, the oracle's two answers given as
/// plain values: run the validation pipeline, quantize the real fee rate
/// into its bucket, and run the registry's atomic admission step.
pub fn handle_submission(
    registry: &mut GroupRegistry,
    min_fee_rate: &FeeRate,
    tx_hex: &str,
    prev_value: u64,
    prev_unspent: bool,
) -> (r: SubmissionOutcome)
    requires
        old(registry).wf(),
        min_fee_rate.wf(),
    ensures
        final(registry).wf(),
        final(registry).bucket_width == old(registry).bucket_width,
        final(registry).close_target == old(registry).close_target,
        match spec_validate(*min_fee_rate, tx_hex@, prev_value, prev_unspent) {
            Err(e) => r == SubmissionOutcome::Rejected(e) && *final(registry) == *old(registry),
            Ok(tf) => ({
                let v = SubmissionModel {
                    tx: tf.0,
                    real_fee: tf.1,
                    declared_min: *min_fee_rate,
                };
                let b = spec_bucket_of(tf.1, old(registry).bucket_width) as u64;
                let step = spec_admit_tx(
                    old(registry).model(),
                    b,
                    v,
                    old(registry).close_target as int,
                );
                &&& final(registry).model() == step.0
                &&& match r {
                    SubmissionOutcome::Rejected(_) => false,
                    SubmissionOutcome::Admitted { bucket } => bucket == b && step.1 is None,
                    SubmissionOutcome::Closed { bucket, batch } => bucket == b && step.1 == Some(
                        (GroupModel {
                            bucket: b,
                            subs: batch@.map_values(|s: ValidatedSubmission| s@),
                        }),
                    ),
                }
            }),
        },
{
    let v = match validate_tx_query_one_to_one_single_anyone_can_pay(
        min_fee_rate,
        tx_hex,
        prev_value,
        prev_unspent,
    ) {
        Err(e) => {
            return SubmissionOutcome::Rejected(e);
        },
        Ok(v) => v,
    };
    let bucket = bucket_of(&v.real_fee, registry.bucket_width);
    proof {
        lemma_find_bucket_props(registry.model(), bucket);
    }
    match registry.admit_tx(v) {
        None => SubmissionOutcome::Admitted { bucket },
        Some(g) => {
            proof {
                match find_bucket(old(registry).model(), bucket) {
                    Some(i) => {
                        assert(old(registry).model()[i].bucket == bucket);
                    },
                    None => {},
                }
            }
            SubmissionOutcome::Closed { bucket, batch: g.submissions }
        },
    }
}

} // verus!
