//! A group accumulates the validated submissions of one fee bucket and
//! decides when the bucket is ready to close.

use vstd::prelude::*;
use crate::validation::{SubmissionModel, ValidatedSubmission};

verus! {

/// Mathematical model of a group: its bucket identifier and the ordered
/// sequence of submissions accepted so far (insertion order is admission
/// order).
#[verifier::ext_equal]
pub struct GroupModel {
    pub bucket: u64,
    pub subs: Seq<SubmissionModel>,
}

/// The accumulating unit for one fee bucket.
///
/// The closing policy is a fixed submission count: the group reports
/// ready to close the moment it holds `target` submissions. The predicate
/// is monotonic — further submissions could only keep it satisfied — so a
/// group never needs to reopen.
#[derive(Debug)]
pub struct Group {
    pub bucket: u64,
    pub target: usize,
    pub submissions: Vec<ValidatedSubmission>,
}

impl View for Group {
    type V = GroupModel;

    open spec fn view(&self) -> GroupModel {
        GroupModel {
            bucket: self.bucket,
            subs: self.submissions@.map_values(|s: ValidatedSubmission| s@),
        }
    }
}

impl Group {
    /// A new, empty group for one bucket, with the given closing target.
    pub fn new(bucket: u64, target: usize) -> (g: Group)
        requires
            target >= 1,
        ensures
            g.bucket == bucket,
            g.target == target,
            g@.subs == Seq::<SubmissionModel>::empty(),
    {
        let g = Group { bucket, target, submissions: Vec::new() };
        proof {
            assert(g@.subs =~= Seq::<SubmissionModel>::empty());
        }
        g
    }

    /// Append one submission in admission order; report whether the
    /// closing predicate has just been satisfied.
    pub fn add_tx(&mut self, sub: ValidatedSubmission) -> (close: bool)
        requires
            old(self).submissions@.len() < old(self).target,
        ensures
            final(self).bucket == old(self).bucket,
            final(self).target == old(self).target,
            final(self).submissions@ == old(self).submissions@.push(sub),
            final(self)@.subs == old(self)@.subs.push(sub@),
            close == (final(self).submissions@.len() == final(self).target),
    {
        self.submissions.push(sub);
        proof {
            assert(self@.subs =~= old(self)@.subs.push(sub@));
        }
        self.submissions.len() == self.target
    }
}

} // verus!
