//! The group registry: the process-wide mapping from fee bucket to its at
//! most one open group, with the atomic admission step.
//!
//! `admit_tx` is the whole critical section: look the bucket up, create its
//! group if absent, append the submission, and evict the group the moment
//! its closing predicate is satisfied. A caller that wants concurrent
//! workers wraps the registry in one exclusive lock and calls `admit_tx`
//! under it; the step does no I/O and bounded work, and exclusive access
//! (`&mut`) is exactly what the contract below assumes, so every
//! interleaving of whole `admit_tx` calls observes the invariants proved
//! here.

use vstd::prelude::*;
use vstd::seq_lib::lemma_update_is_remove_insert;
use crate::fee::{spec_bucket_of, bucket_of};
use crate::group::{Group, GroupModel};
use crate::validation::{SubmissionModel, ValidatedSubmission};

verus! {

/// First position of a group for bucket `b`, if any.
pub open spec fn find_bucket(gs: Seq<GroupModel>, b: u64) -> Option<int>
    decreases gs.len(),
{
    if gs.len() == 0 {
        None
    } else if gs[0].bucket == b {
        Some(0)
    } else {
        match find_bucket(gs.drop_first(), b) {
            Some(i) => Some(i + 1),
            None => None,
        }
    }
}

/// What a `find_bucket` answer means about the sequence itself.
pub proof fn lemma_find_bucket_props(gs: Seq<GroupModel>, b: u64)
    ensures
        match find_bucket(gs, b) {
            Some(i) => 0 <= i < gs.len() && gs[i].bucket == b && (forall|j: int|
                0 <= j < i ==> gs[j].bucket != b),
            None => forall|j: int| 0 <= j < gs.len() ==> gs[j].bucket != b,
        },
    decreases gs.len(),
{
    if gs.len() > 0 && gs[0].bucket != b {
        let rest = gs.drop_first();
        lemma_find_bucket_props(rest, b);
        match find_bucket(rest, b) {
            Some(i) => {
                assert forall|j: int| 0 <= j < i + 1 implies gs[j].bucket != b by {
                    if j >= 1 {
                        assert(gs[j] == rest[j - 1]);
                    }
                }
            },
            None => {
                assert forall|j: int| 0 <= j < gs.len() implies gs[j].bucket != b by {
                    if j >= 1 {
                        assert(gs[j] == rest[j - 1]);
                    }
                }
            },
        }
    }
}

/// `find_bucket` answers the first position whose bucket is `b`.
pub proof fn lemma_find_bucket_at(gs: Seq<GroupModel>, b: u64, i: int)
    requires
        0 <= i < gs.len(),
        gs[i].bucket == b,
        forall|j: int| 0 <= j < i ==> gs[j].bucket != b,
    ensures
        find_bucket(gs, b) == Some(i),
    decreases i,
{
    if i > 0 {
        let rest = gs.drop_first();
        assert(rest[i - 1] == gs[i]);
        assert forall|j: int| 0 <= j < i - 1 implies rest[j].bucket != b by {
            assert(rest[j] == gs[j + 1]);
        }
        lemma_find_bucket_at(rest, b, i - 1);
    }
}

/// `find_bucket` answers `None` when no group has bucket `b`.
pub proof fn lemma_find_bucket_none(gs: Seq<GroupModel>, b: u64)
    requires
        forall|j: int| 0 <= j < gs.len() ==> gs[j].bucket != b,
    ensures
        find_bucket(gs, b) is None,
    decreases gs.len(),
{
    if gs.len() > 0 {
        let rest = gs.drop_first();
        assert forall|j: int| 0 <= j < rest.len() implies rest[j].bucket != b by {
            assert(rest[j] == gs[j + 1]);
        }
        lemma_find_bucket_none(rest, b);
    }
}

/// At most one group per bucket: all bucket identifiers distinct.
pub open spec fn buckets_distinct(gs: Seq<GroupModel>) -> bool {
    forall|i: int, j: int|
        0 <= i < j < gs.len() ==> gs[i].bucket != gs[j].bucket
}

/// The registry's atomic admission step on the mathematical model: find
/// the bucket's group (a fresh one when absent), append the submission in
/// admission order, and evict the group the instant it holds `target`
/// submissions. Yields the new group sequence and the evicted group's
/// model, if any.
pub open spec fn spec_admit_tx(
    gs: Seq<GroupModel>,
    b: u64,
    sub: SubmissionModel,
    target: int,
) -> (Seq<GroupModel>, Option<GroupModel>) {
    match find_bucket(gs, b) {
        None => {
            let g = GroupModel { bucket: b, subs: seq![sub] };
            if 1 >= target {
                (gs, Some(g))
            } else {
                (gs.push(g), None)
            }
        },
        Some(i) => {
            let g = GroupModel { bucket: gs[i].bucket, subs: gs[i].subs.push(sub) };
            if g.subs.len() >= target {
                (gs.remove(i), Some(g))
            } else {
                (gs.update(i, g), None)
            }
        },
    }
}

/// The process-wide registry of open groups, keyed by fee bucket.
pub struct GroupRegistry {
    pub bucket_width: u64,
    pub close_target: usize,
    pub groups: Vec<Group>,
}

impl GroupRegistry {
    /// The registry as a sequence of group models, in creation order.
    pub open spec fn model(self) -> Seq<GroupModel> {
        self.groups@.map_values(|g: Group| g@)
    }

    /// What holds of every open group: nonempty, strictly below the
    /// closing target, and every submission well formed with a fee rate
    /// falling in the group's bucket.
    pub open spec fn group_open(self, g: GroupModel) -> bool {
        &&& 1 <= g.subs.len() < self.close_target
        &&& forall|k: int|
            0 <= k < g.subs.len() ==> (#[trigger] g.subs[k]).wf() && spec_bucket_of(
                g.subs[k].real_fee,
                self.bucket_width,
            ) == g.bucket
    }

    /// Well-formedness: positive bucket width and closing target, at most
    /// one open group per bucket, every group open and carrying the
    /// shared closing target.
    pub open spec fn wf(self) -> bool {
        &&& self.bucket_width >= 1
        &&& self.close_target >= 1
        &&& buckets_distinct(self.model())
        &&& forall|i: int|
            0 <= i < self.groups@.len() ==> (#[trigger] self.groups@[i]).target
                == self.close_target
        &&& forall|i: int|
            0 <= i < self.groups@.len() ==> self.group_open(#[trigger] self.groups@[i]@)
    }

    /// An empty registry for the given bucket width and closing target.
    pub fn new(bucket_width: u64, close_target: usize) -> (r: GroupRegistry)
        requires
            bucket_width >= 1,
            close_target >= 1,
        ensures
            r.wf(),
            r.bucket_width == bucket_width,
            r.close_target == close_target,
            r.model() == Seq::<GroupModel>::empty(),
    {
        let r = GroupRegistry { bucket_width, close_target, groups: Vec::new() };
        proof {
            assert(r.model() =~= Seq::<GroupModel>::empty());
        }
        r
    }

    /// First position of the open group for bucket `b`, if any.
    fn find_group_index(&self, b: u64) -> (r: Option<usize>)
        ensures
            match r {
                Some(i) => i < self.groups@.len() && self.groups@[i as int]@.bucket == b && (
                forall|j: int| 0 <= j < i ==> self.groups@[j]@.bucket != b),
                None => forall|j: int| 0 <= j < self.groups@.len() ==> self.groups@[j]@.bucket != b,
            },
    {
        let mut i: usize = 0;
        while i < self.groups.len()
            invariant
                i <= self.groups@.len(),
                forall|j: int| 0 <= j < i ==> self.groups@[j]@.bucket != b,
            decreases self.groups@.len() - i,
        {
            if self.groups[i].bucket == b {
                return Some(i);
            }
            i = i + 1;
        }
        None
    }

    /// Atomically accept one validated submission: quantize its real fee
    /// rate into a bucket, append it to that bucket's group (created
    /// fresh when absent), and evict the group the moment it reaches the
    /// closing target. Returns the evicted group — the batch handed to
    /// the downstream assembler — or `None` while the group stays open.
    pub fn admit_tx(&mut self, sub: ValidatedSubmission) -> (closed: Option<Group>)
        requires
            old(self).wf(),
            sub.wf(),
        ensures
            final(self).wf(),
            final(self).bucket_width == old(self).bucket_width,
            final(self).close_target == old(self).close_target,
            ({
                let b = spec_bucket_of(sub.real_fee, old(self).bucket_width) as u64;
                let step = spec_admit_tx(
                    old(self).model(),
                    b,
                    sub@,
                    old(self).close_target as int,
                );
                &&& final(self).model() == step.0
                &&& match closed {
                    None => step.1 is None,
                    Some(g) => step.1 == Some(g@) && g.target == old(self).close_target,
                }
            }),
    {
        let ghost pre = self.model();
        let ghost target = self.close_target as int;
        let b = bucket_of(&sub.real_fee, self.bucket_width);
        proof {
            assert(b == spec_bucket_of(sub.real_fee, old(self).bucket_width) as u64);
        }
        match self.find_group_index(b) {
            None => {
                proof {
                    assert forall|j: int| 0 <= j < pre.len() implies pre[j].bucket != b by {
                        assert(pre[j] == self.groups@[j]@);
                    }
                    lemma_find_bucket_none(pre, b);
                }
                let mut g = Group::new(b, self.close_target);
                proof {
                    assert(g.submissions@.len() == g@.subs.len());
                }
                let close = g.add_tx(sub);
                proof {
                    assert(g@.subs =~= seq![sub@]);
                    assert(g@ =~= (GroupModel { bucket: b, subs: seq![sub@] }));
                }
                if close {
                    // the fresh group already met the target (target 1):
                    // created, filled and evicted inside this one step
                    proof {
                        assert(self.close_target == 1);
                        assert(self.model() == pre);
                    }
                    Some(g)
                } else {
                    self.groups.push(g);
                    proof {
                        assert(self.model() =~= pre.push(g@));
                        assert(self.close_target >= 2);
                        assert forall|i: int|
                            0 <= i < self.groups@.len() implies (#[trigger] self.groups@[i]).target
                            == self.close_target by {
                            if i < pre.len() {
                                assert(self.groups@[i] == old(self).groups@[i]);
                            }
                        }
                        assert forall|i: int|
                            0 <= i < self.groups@.len() implies self.group_open(
                            #[trigger] self.groups@[i]@,
                        ) by {
                            if i < pre.len() {
                                assert(self.groups@[i] == old(self).groups@[i]);
                                assert(old(self).group_open(old(self).groups@[i]@));
                            } else {
                                assert(self.groups@[i]@ == g@);
                            }
                        }
                        assert forall|i: int, j: int|
                            0 <= i < j < self.model().len() implies self.model()[i].bucket
                            != self.model()[j].bucket by {
                            if j < pre.len() {
                                assert(self.model()[i] == pre[i] && self.model()[j] == pre[j]);
                            } else {
                                assert(self.model()[i] == pre[i] && self.model()[j] == g@);
                                assert(pre[i].bucket != b);
                            }
                        }
                    }
                    None
                }
            },
            Some(i) => {
                let ghost gm = self.groups@[i as int]@;
                proof {
                    assert forall|j: int| 0 <= j < i implies pre[j].bucket != b by {
                        assert(pre[j] == self.groups@[j]@);
                    }
                    assert(pre[i as int] == gm && gm.bucket == b);
                    lemma_find_bucket_at(pre, b, i as int);
                    assert(old(self).group_open(gm));
                    assert(old(self).groups@[i as int].target == old(self).close_target);
                }
                let mut g = self.groups.remove(i);
                let close = g.add_tx(sub);
                let ghost gm2 = GroupModel { bucket: gm.bucket, subs: gm.subs.push(sub@) };
                proof {
                    assert(g@.subs =~= gm2.subs);
                assert(g@ =~= gm2);
                    old(self).groups@.remove_ensures(i as int);
                }
                if close {
                    proof {
                        assert(gm2.subs.len() >= target);
                        assert(self.model() =~= pre.remove(i as int)) by {
                            pre.remove_ensures(i as int);
                        }
                        self.lemma_wf_after_remove(*old(self), pre, i as int);
                    }
                    Some(g)
                } else {
                    self.groups.insert(i, g);
                    proof {
                        assert(gm2.subs.len() < target);
                        assert(self.groups@ =~= old(self).groups@.update(i as int, g)) by {
                            lemma_update_is_remove_insert(old(self).groups@, i as int, g);
                        }
                        assert(self.model() =~= pre.update(i as int, gm2));
                        self.lemma_wf_after_update(*old(self), pre, i as int, gm2, sub@);
                    }
                    None
                }
            },
        }
    }

    /// Removing one group keeps the registry well formed.
    proof fn lemma_wf_after_remove(self, prev: GroupRegistry, pre: Seq<GroupModel>, i: int)
        requires
            prev.wf(),
            0 <= i < pre.len(),
            pre == prev.model(),
            self.bucket_width == prev.bucket_width,
            self.close_target == prev.close_target,
            self.groups@ == prev.groups@.remove(i),
        ensures
            self.wf(),
    {
        prev.groups@.remove_ensures(i);
        pre.remove_ensures(i);
        assert forall|k: int|
            0 <= k < self.groups@.len() implies (#[trigger] self.groups@[k]).target
            == self.close_target && self.group_open(self.groups@[k]@) by {
            if k < i {
                assert(self.groups@[k] == prev.groups@[k]);
            } else {
                assert(self.groups@[k] == prev.groups@[k + 1]);
            }
            assert(prev.group_open(self.groups@[k]@));
        }
        assert forall|k: int, l: int|
            0 <= k < l < self.model().len() implies self.model()[k].bucket
            != self.model()[l].bucket by {
            let k0 = if k < i { k } else { k + 1 };
            let l0 = if l < i { l } else { l + 1 };
            assert(self.model()[k] == pre[k0] && self.model()[l] == pre[l0]);
        }
    }

    /// Updating one group in place, with its bucket kept and one more
    /// well-formed submission for that bucket, keeps the registry well
    /// formed as long as the group stays below the closing target.
    proof fn lemma_wf_after_update(
        self,
        prev: GroupRegistry,
        pre: Seq<GroupModel>,
        i: int,
        g: GroupModel,
        sub: SubmissionModel,
    )
        requires
            prev.wf(),
            0 <= i < pre.len(),
            pre == prev.model(),
            self.bucket_width == prev.bucket_width,
            self.close_target == prev.close_target,
            self.model() == pre.update(i, g),
            g.bucket == pre[i].bucket,
            g.subs == pre[i].subs.push(sub),
            g.subs.len() < self.close_target,
            sub.wf(),
            spec_bucket_of(sub.real_fee, self.bucket_width) == g.bucket,
            forall|k: int|
                0 <= k < self.groups@.len() ==> (#[trigger] self.groups@[k]).target
                    == self.close_target,
        ensures
            self.wf(),
    {
        assert(prev.group_open(pre[i]));
        assert(self.model().len() == pre.len());
        assert forall|k: int|
            0 <= k < self.groups@.len() implies self.group_open(
            #[trigger] self.groups@[k]@,
        ) by {
            assert(self.model()[k] == self.groups@[k]@);
            assert(self.model()[k] == pre.update(i, g)[k]);
            if k != i {
                assert(pre.update(i, g)[k] == pre[k]);
                assert(pre[k] == prev.groups@[k]@);
                assert(prev.group_open(prev.groups@[k]@));
            } else {
                assert(self.model()[k] == g);
                assert forall|m: int|
                    0 <= m < g.subs.len() implies (#[trigger] g.subs[m]).wf() && spec_bucket_of(
                    g.subs[m].real_fee,
                    self.bucket_width,
                ) == g.bucket by {
                    if m < pre[i].subs.len() {
                        assert(g.subs[m] == pre[i].subs[m]);
                    } else {
                        assert(g.subs[m] == sub);
                    }
                }
            }
        }
        assert forall|k: int, l: int|
            0 <= k < l < self.model().len() implies self.model()[k].bucket
            != self.model()[l].bucket by {
            assert(pre[k].bucket != pre[l].bucket);
            assert(self.model()[k].bucket == pre[k].bucket);
            assert(self.model()[l].bucket == pre[l].bucket);
        }
    }
}

/// How many submissions one group contributes to bucket `b`.
pub open spec fn bucket_contribution(g: GroupModel, b: u64) -> nat {
    if g.bucket == b {
        g.subs.len()
    } else {
        0
    }
}

/// Total number of submissions held for bucket `b` across a sequence of
/// groups.
pub open spec fn submissions_for_bucket(gs: Seq<GroupModel>, b: u64) -> nat
    decreases gs.len(),
{
    if gs.len() == 0 {
        0
    } else {
        bucket_contribution(gs[0], b) + submissions_for_bucket(gs.drop_first(), b)
    }
}

/// Appending a group adds exactly its contribution to every bucket total.
proof fn lemma_count_push(gs: Seq<GroupModel>, g: GroupModel, b: u64)
    ensures
        submissions_for_bucket(gs.push(g), b) == submissions_for_bucket(gs, b)
            + bucket_contribution(g, b),
    decreases gs.len(),
{
    if gs.len() == 0 {
        assert(gs.push(g)[0] == g);
        assert(gs.push(g).drop_first() =~= Seq::<GroupModel>::empty());
        assert(submissions_for_bucket(gs.push(g).drop_first(), b) == 0);
        assert(submissions_for_bucket(gs.push(g), b) == bucket_contribution(gs.push(g)[0], b)
            + submissions_for_bucket(gs.push(g).drop_first(), b));
        assert(submissions_for_bucket(gs, b) == 0);
    } else {
        assert(gs.push(g)[0] == gs[0]);
        assert(gs.push(g).drop_first() =~= gs.drop_first().push(g));
        lemma_count_push(gs.drop_first(), g, b);
        assert(submissions_for_bucket(gs.push(g), b) == bucket_contribution(gs.push(g)[0], b)
            + submissions_for_bucket(gs.push(g).drop_first(), b));
        assert(submissions_for_bucket(gs, b) == bucket_contribution(gs[0], b)
            + submissions_for_bucket(gs.drop_first(), b));
    }
}

/// Removing one group takes exactly its contribution out of every bucket
/// total.
proof fn lemma_count_remove(gs: Seq<GroupModel>, i: int, b: u64)
    requires
        0 <= i < gs.len(),
    ensures
        submissions_for_bucket(gs.remove(i), b) + bucket_contribution(gs[i], b)
            == submissions_for_bucket(gs, b),
    decreases i,
{
    gs.remove_ensures(i);
    if i == 0 {
        assert(gs.remove(0) =~= gs.drop_first());
    } else {
        assert(gs.remove(i)[0] == gs[0]);
        assert(gs.remove(i).drop_first() =~= gs.drop_first().remove(i - 1));
        assert(gs.drop_first()[i - 1] == gs[i]);
        lemma_count_remove(gs.drop_first(), i - 1, b);
    }
}

/// Replacing one group swaps its contribution for the new group's in
/// every bucket total.
proof fn lemma_count_update(gs: Seq<GroupModel>, i: int, g: GroupModel, b: u64)
    requires
        0 <= i < gs.len(),
    ensures
        submissions_for_bucket(gs.update(i, g), b) + bucket_contribution(gs[i], b)
            == submissions_for_bucket(gs, b) + bucket_contribution(g, b),
    decreases i,
{
    if i == 0 {
        assert(gs.update(0, g)[0] == g);
        assert(gs.update(0, g).drop_first() =~= gs.drop_first());
    } else {
        assert(gs.update(i, g)[0] == gs[0]);
        assert(gs.update(i, g).drop_first() =~= gs.drop_first().update(i - 1, g));
        assert(gs.drop_first()[i - 1] == gs[i]);
        lemma_count_update(gs.drop_first(), i - 1, g, b);
    }
}

/// No submission is lost: one admission step raises the total held for
/// the submission's bucket by exactly one — counting an evicted group's
/// batch — and leaves every other bucket's total unchanged.
pub proof fn lemma_no_submission_lost(
    gs: Seq<GroupModel>,
    b: u64,
    sub: SubmissionModel,
    target: int,
    b2: u64,
)
    requires
        target >= 1,
    ensures
        ({
            let step = spec_admit_tx(gs, b, sub, target);
            let evicted: int = match step.1 {
                Some(g) => bucket_contribution(g, b2) as int,
                None => 0,
            };
            submissions_for_bucket(step.0, b2) + evicted == submissions_for_bucket(gs, b2) + (
            if b == b2 {
                1int
            } else {
                0int
            })
        }),
{
    lemma_find_bucket_props(gs, b);
    match find_bucket(gs, b) {
        None => {
            let g = GroupModel { bucket: b, subs: seq![sub] };
            if 1 < target {
                lemma_count_push(gs, g, b2);
            }
        },
        Some(i) => {
            let g = GroupModel { bucket: gs[i].bucket, subs: gs[i].subs.push(sub) };
            if g.subs.len() >= target {
                lemma_count_remove(gs, i, b2);
            } else {
                lemma_count_update(gs, i, g, b2);
            }
        },
    }
}

/// At most one group per bucket: an admission step keeps all bucket
/// identifiers distinct, so no observable instant shows two live groups
/// for one bucket.
pub proof fn lemma_at_most_one_group_per_bucket(
    gs: Seq<GroupModel>,
    b: u64,
    sub: SubmissionModel,
    target: int,
)
    requires
        buckets_distinct(gs),
    ensures
        buckets_distinct(spec_admit_tx(gs, b, sub, target).0),
{
    lemma_find_bucket_props(gs, b);
    let gs2 = spec_admit_tx(gs, b, sub, target).0;
    match find_bucket(gs, b) {
        None => {
            if 1 < target {
                assert forall|k: int, l: int|
                    0 <= k < l < gs2.len() implies gs2[k].bucket != gs2[l].bucket by {
                    if l == gs.len() {
                        assert(gs2[k] == gs[k]);
                        assert(gs[k].bucket != b);
                    } else {
                        assert(gs2[k] == gs[k] && gs2[l] == gs[l]);
                    }
                }
            }
        },
        Some(i) => {
            let g = GroupModel { bucket: gs[i].bucket, subs: gs[i].subs.push(sub) };
            if g.subs.len() >= target {
                gs.remove_ensures(i);
                assert forall|k: int, l: int|
                    0 <= k < l < gs2.len() implies gs2[k].bucket != gs2[l].bucket by {
                    let k0 = if k < i { k } else { k + 1 };
                    let l0 = if l < i { l } else { l + 1 };
                    assert(gs2[k] == gs[k0] && gs2[l] == gs[l0]);
                }
            } else {
                assert forall|k: int, l: int|
                    0 <= k < l < gs2.len() implies gs2[k].bucket != gs2[l].bucket by {
                    assert(gs2[k].bucket == gs[k].bucket && gs2[l].bucket == gs[l].bucket);
                }
            }
        },
    }
}

/// Idempotent close: the admission that closes a bucket's group removes
/// that bucket from the registry entirely, and a later admission for the
/// same bucket starts a brand-new group holding only the new submission —
/// it never resumes the closed one.
pub proof fn lemma_idempotent_close(
    gs: Seq<GroupModel>,
    b: u64,
    s1: SubmissionModel,
    s2: SubmissionModel,
    target: int,
)
    requires
        target >= 1,
        buckets_distinct(gs),
        spec_admit_tx(gs, b, s1, target).1 is Some,
    ensures
        find_bucket(spec_admit_tx(gs, b, s1, target).0, b) is None,
        ({
            let gs2 = spec_admit_tx(gs, b, s1, target).0;
            let fresh = GroupModel { bucket: b, subs: seq![s2] };
            if target > 1 {
                spec_admit_tx(gs2, b, s2, target) == (gs2.push(fresh), Option::<GroupModel>::None)
            } else {
                spec_admit_tx(gs2, b, s2, target) == (gs2, Some(fresh))
            }
        }),
{
    lemma_find_bucket_props(gs, b);
    let gs2 = spec_admit_tx(gs, b, s1, target).0;
    match find_bucket(gs, b) {
        None => {
            assert(1 >= target && gs2 == gs);
        },
        Some(i) => {
            gs.remove_ensures(i);
            assert forall|j: int| 0 <= j < gs2.len() implies gs2[j].bucket != b by {
                let j0 = if j < i { j } else { j + 1 };
                assert(gs2[j] == gs[j0]);
                if j0 < i {
                    assert(gs[j0].bucket != gs[i].bucket);
                } else {
                    assert(gs[i].bucket != gs[j0].bucket);
                }
            }
            lemma_find_bucket_none(gs2, b);
        },
    }
}


} // verus!
