//! The aggregator: the counters of a run and the one operation that updates them.

use vstd::prelude::*;
use crate::kinds::AnnotationKind;
use crate::kinds::AnnotationSet;

verus! {

/// The counting policy of a run.
#[derive(Clone, Copy, Debug, PartialEq, Eq, Structural)]
pub enum ReportMode {
    /// Every commit falls into exactly one of the buckets authored, touched
    /// and ignored. A commit authored by a target counts as authored only:
    /// its own trailers raise no annotation counter.
    SingleIdentity,
    /// Authorship and each kind of annotation are counted independently of
    /// one another; the buckets touched and ignored are not kept.
    MultiIdentity,
}

impl ReportMode {
    /// The counting policy that goes with a number of audited identities:
    /// the single-identity report for one, the multi-identity report for more.
    pub open spec fn of_count(identities: nat) -> ReportMode {
        if identities <= 1 {
            ReportMode::SingleIdentity
        } else {
            ReportMode::MultiIdentity
        }
    }

    /// Picks the counting policy for a number of audited identities.
    pub fn for_identities(identities: usize) -> (mode: ReportMode)
        ensures
            mode == ReportMode::of_count(identities as nat),
    {
        if identities <= 1 {
            ReportMode::SingleIdentity
        } else {
            ReportMode::MultiIdentity
        }
    }
}

/// The bucket of a commit in a single-identity report.
#[derive(Clone, Copy, Debug, PartialEq, Eq, Structural)]
pub enum Bucket {
    Authored,
    Touched,
    Ignored,
}

/// What the classification of one commit found.
#[derive(Clone, Copy, Debug, PartialEq, Eq, Structural)]
pub struct ClassificationResult {
    /// Whether the author of the commit is one of the targets.
    pub is_authored_by_target: bool,
    /// The kinds of annotation that the message carries for the targets.
    pub annotations_present: AnnotationSet,
}

/// The mathematical content of a `ClassificationResult`.
pub struct Classification {
    pub authored: bool,
    pub annotations: Set<AnnotationKind>,
}

impl View for ClassificationResult {
    type V = Classification;

    open spec fn view(&self) -> Classification {
        Classification {
            authored: self.is_authored_by_target,
            annotations: self.annotations_present@,
        }
    }
}

impl Classification {
    /// The one bucket of the commit: authored if a target wrote it, else
    /// touched if it carries an annotation, else ignored.
    pub open spec fn bucket(self) -> Bucket {
        if self.authored {
            Bucket::Authored
        } else if self.annotations != Set::<AnnotationKind>::empty() {
            Bucket::Touched
        } else {
            Bucket::Ignored
        }
    }

    /// Whether the commit raises the counter of a kind under a mode.
    pub open spec fn counts(self, mode: ReportMode, kind: AnnotationKind) -> bool {
        self.annotations.contains(kind) && (mode == ReportMode::MultiIdentity || !self.authored)
    }
}

impl ClassificationResult {
    /// The one bucket of the commit.
    pub fn bucket(&self) -> (bucket: Bucket)
        ensures
            bucket == self@.bucket(),
    {
        if self.is_authored_by_target {
            Bucket::Authored
        } else if !self.annotations_present.is_empty() {
            Bucket::Touched
        } else {
            Bucket::Ignored
        }
    }
}

/// One if the condition holds, else zero.
pub open spec fn one_if(condition: bool) -> nat {
    if condition {
        1
    } else {
        0
    }
}

/// The mathematical content of `RunTotals`: unbounded counters.
pub struct Totals {
    pub mode: ReportMode,
    pub total_scanned: nat,
    pub authored: nat,
    pub touched: nat,
    pub ignored: nat,
    pub signed_off: nat,
    pub reviewed: nat,
    pub acked: nat,
    pub tested: nat,
    pub reported: nat,
}

impl Totals {
    /// The counters before the first commit.
    pub open spec fn zero(mode: ReportMode) -> Totals {
        Totals {
            mode,
            total_scanned: 0,
            authored: 0,
            touched: 0,
            ignored: 0,
            signed_off: 0,
            reviewed: 0,
            acked: 0,
            tested: 0,
            reported: 0,
        }
    }

    /// The counter of a kind of annotation.
    pub open spec fn counter(self, kind: AnnotationKind) -> nat {
        match kind {
            AnnotationKind::SignedOffBy => self.signed_off,
            AnnotationKind::ReviewedBy => self.reviewed,
            AnnotationKind::AckedBy => self.acked,
            AnnotationKind::TestedBy => self.tested,
            AnnotationKind::ReportedBy => self.reported,
        }
    }

    /// The counter of a bucket.
    pub open spec fn bucket_count(self, bucket: Bucket) -> nat {
        match bucket {
            Bucket::Authored => self.authored,
            Bucket::Touched => self.touched,
            Bucket::Ignored => self.ignored,
        }
    }

    /// The sum of the five annotation counters.
    pub open spec fn annotation_sum(self) -> nat {
        self.signed_off + self.reviewed + self.acked + self.tested + self.reported
    }

    /// Whether the three buckets add up to the number of commits scanned.
    pub open spec fn balanced(self) -> bool {
        self.total_scanned == self.authored + self.touched + self.ignored
    }

    /// What holds of the counters after any number of commits.
    pub open spec fn consistent(self) -> bool {
        &&& self.authored <= self.total_scanned
        &&& forall|kind: AnnotationKind| #[trigger] self.counter(kind) <= self.total_scanned
        &&& match self.mode {
            ReportMode::SingleIdentity => {
                &&& self.balanced()
                &&& forall|kind: AnnotationKind| #[trigger] self.counter(kind) <= self.touched
                &&& self.touched <= self.annotation_sum()
            },
            ReportMode::MultiIdentity => self.touched == 0 && self.ignored == 0,
        }
    }

    /// The counters after one more commit.
    pub open spec fn record(self, commit: Classification) -> Totals {
        let single = self.mode == ReportMode::SingleIdentity;
        Totals {
            mode: self.mode,
            total_scanned: self.total_scanned + 1,
            authored: self.authored + one_if(commit.authored),
            touched: self.touched + one_if(single && commit.bucket() == Bucket::Touched),
            ignored: self.ignored + one_if(single && commit.bucket() == Bucket::Ignored),
            signed_off: self.signed_off + one_if(
                commit.counts(self.mode, AnnotationKind::SignedOffBy),
            ),
            reviewed: self.reviewed + one_if(commit.counts(self.mode, AnnotationKind::ReviewedBy)),
            acked: self.acked + one_if(commit.counts(self.mode, AnnotationKind::AckedBy)),
            tested: self.tested + one_if(commit.counts(self.mode, AnnotationKind::TestedBy)),
            reported: self.reported + one_if(commit.counts(self.mode, AnnotationKind::ReportedBy)),
        }
    }

    /// The commits that neither a target wrote nor an annotation accounts
    /// for, as far as the counters can tell: what is left of the commits
    /// scanned after the authored ones and all annotation counts are taken
    /// off, and none if they exceed it.
    pub open spec fn residual(self) -> nat {
        let activity = self.authored + self.annotation_sum();
        if self.total_scanned > activity {
            (self.total_scanned - activity) as nat
        } else {
            0
        }
    }
}

/// The counters of a run. They start at zero and change only by `record`,
/// once per commit scanned.
#[derive(Clone, Copy, Debug, PartialEq, Eq)]
pub struct RunTotals {
    mode: ReportMode,
    total_scanned: u64,
    authored: u64,
    touched: u64,
    ignored: u64,
    signed_off: u64,
    reviewed: u64,
    acked: u64,
    tested: u64,
    reported: u64,
}

impl View for RunTotals {
    type V = Totals;

    closed spec fn view(&self) -> Totals {
        Totals {
            mode: self.mode,
            total_scanned: self.total_scanned as nat,
            authored: self.authored as nat,
            touched: self.touched as nat,
            ignored: self.ignored as nat,
            signed_off: self.signed_off as nat,
            reviewed: self.reviewed as nat,
            acked: self.acked as nat,
            tested: self.tested as nat,
            reported: self.reported as nat,
        }
    }
}

impl RunTotals {
    #[verifier::type_invariant]
    spec fn well_formed(self) -> bool {
        self@.consistent()
    }

    /// The counters of a run that has scanned nothing yet.
    pub fn new(mode: ReportMode) -> (totals: RunTotals)
        ensures
            totals@ == Totals::zero(mode),
            totals@.consistent(),
    {
        RunTotals {
            mode,
            total_scanned: 0,
            authored: 0,
            touched: 0,
            ignored: 0,
            signed_off: 0,
            reviewed: 0,
            acked: 0,
            tested: 0,
            reported: 0,
        }
    }

    /// Counts one commit. The commit is counted as scanned, as authored if a
    /// target wrote it, and once for each kind of annotation that it carries
    /// and that the mode lets count; in a single-identity report it falls
    /// into exactly one bucket, and the buckets still add up afterwards.
    pub fn record(&mut self, commit: &ClassificationResult)
        requires
            old(self)@.total_scanned < u64::MAX,
        ensures
            final(self)@ == old(self)@.record(commit@),
            final(self)@.consistent(),
    {
        proof {
            use_type_invariant(&*self);
            lemma_record_keeps_consistent(self@, commit@);
            lemma_counters_bounded(self@);
        }
        let single = match self.mode {
            ReportMode::SingleIdentity => true,
            ReportMode::MultiIdentity => false,
        };
        let bucket = commit.bucket();
        let annotations = commit.annotations_present;
        let counting = !single || !commit.is_authored_by_target;
        let next = RunTotals {
            mode: self.mode,
            total_scanned: self.total_scanned + 1,
            authored: raised(self.authored, commit.is_authored_by_target),
            touched: raised(self.touched, single && bucket == Bucket::Touched),
            ignored: raised(self.ignored, single && bucket == Bucket::Ignored),
            signed_off: raised(
                self.signed_off,
                counting && annotations.contains(AnnotationKind::SignedOffBy),
            ),
            reviewed: raised(
                self.reviewed,
                counting && annotations.contains(AnnotationKind::ReviewedBy),
            ),
            acked: raised(self.acked, counting && annotations.contains(AnnotationKind::AckedBy)),
            tested: raised(self.tested, counting && annotations.contains(AnnotationKind::TestedBy)),
            reported: raised(
                self.reported,
                counting && annotations.contains(AnnotationKind::ReportedBy),
            ),
        };
        *self = next;
    }

    /// The counting policy of the run.
    pub fn mode(&self) -> (mode: ReportMode)
        ensures
            mode == self@.mode,
    {
        self.mode
    }

    /// The number of commits scanned. The counters of every run are
    /// consistent, whatever it has scanned.
    pub fn total_scanned(&self) -> (count: u64)
        ensures
            count == self@.total_scanned,
            self@.consistent(),
    {
        proof {
            use_type_invariant(self);
        }
        self.total_scanned
    }

    /// The number of commits that a target wrote.
    pub fn authored(&self) -> (count: u64)
        ensures
            count == self@.authored,
    {
        self.authored
    }

    /// The number of commits in the bucket touched.
    pub fn touched(&self) -> (count: u64)
        ensures
            count == self@.touched,
    {
        self.touched
    }

    /// The number of commits in the bucket ignored.
    pub fn ignored(&self) -> (count: u64)
        ensures
            count == self@.ignored,
    {
        self.ignored
    }

    /// The counter of a kind of annotation.
    pub fn counter(&self, kind: AnnotationKind) -> (count: u64)
        ensures
            count == self@.counter(kind),
    {
        match kind {
            AnnotationKind::SignedOffBy => self.signed_off,
            AnnotationKind::ReviewedBy => self.reviewed,
            AnnotationKind::AckedBy => self.acked,
            AnnotationKind::TestedBy => self.tested,
            AnnotationKind::ReportedBy => self.reported,
        }
    }

    /// The counter of a bucket.
    pub fn bucket_count(&self, bucket: Bucket) -> (count: u64)
        ensures
            count == self@.bucket_count(bucket),
    {
        match bucket {
            Bucket::Authored => self.authored,
            Bucket::Touched => self.touched,
            Bucket::Ignored => self.ignored,
        }
    }

    /// The commits left over after the authored ones and all annotation
    /// counts are taken off the commits scanned; none if they exceed it.
    pub fn residual(&self) -> (count: u64)
        ensures
            count == self@.residual(),
    {
        let mut rest = self.total_scanned;
        rest = take_off(rest, self.authored);
        rest = take_off(rest, self.signed_off);
        rest = take_off(rest, self.reviewed);
        rest = take_off(rest, self.acked);
        rest = take_off(rest, self.tested);
        rest = take_off(rest, self.reported);
        rest
    }

}

/// A counter, raised by one if the condition holds.
fn raised(counter: u64, condition: bool) -> (next: u64)
    requires
        counter < u64::MAX,
    ensures
        next == counter + one_if(condition),
{
    if condition {
        counter + 1
    } else {
        counter
    }
}

/// What is left of `from` after `amount` is taken off, and zero where that
/// is more than there is.
fn take_off(from: u64, amount: u64) -> (rest: u64)
    ensures
        rest == if from > amount {
            from - amount
        } else {
            0
        },
{
    if from > amount {
        from - amount
    } else {
        0
    }
}

/// Counting one more commit keeps the counters consistent: in a
/// single-identity report the three buckets add up to the commits scanned
/// after every commit, not only at the end.
pub proof fn lemma_record_keeps_consistent(totals: Totals, commit: Classification)
    requires
        totals.consistent(),
    ensures
        totals.record(commit).consistent(),
{
    let after = totals.record(commit);
    assert(totals.counter(AnnotationKind::SignedOffBy) <= totals.total_scanned);
    assert(totals.counter(AnnotationKind::ReviewedBy) <= totals.total_scanned);
    assert(totals.counter(AnnotationKind::AckedBy) <= totals.total_scanned);
    assert(totals.counter(AnnotationKind::TestedBy) <= totals.total_scanned);
    assert(totals.counter(AnnotationKind::ReportedBy) <= totals.total_scanned);
    if totals.mode == ReportMode::SingleIdentity {
        assert(totals.counter(AnnotationKind::SignedOffBy) <= totals.touched);
        assert(totals.counter(AnnotationKind::ReviewedBy) <= totals.touched);
        assert(totals.counter(AnnotationKind::AckedBy) <= totals.touched);
        assert(totals.counter(AnnotationKind::TestedBy) <= totals.touched);
        assert(totals.counter(AnnotationKind::ReportedBy) <= totals.touched);
        if commit.bucket() == Bucket::Touched {
            lemma_some_kind(commit.annotations);
        } else if commit.bucket() == Bucket::Ignored {
            assert(forall|kind: AnnotationKind| !commit.annotations.contains(kind));
        }
    }
    assert forall|kind: AnnotationKind| #[trigger] after.counter(kind) <= after.total_scanned by {
        assert(totals.counter(kind) <= totals.total_scanned);
    }
    if totals.mode == ReportMode::SingleIdentity {
        assert forall|kind: AnnotationKind| #[trigger] after.counter(kind) <= after.touched by {
            assert(totals.counter(kind) <= totals.touched);
        }
    }
}

/// A commit is never counted in more than one of the buckets authored,
/// touched and ignored. In a single-identity report it is counted in exactly
/// one: the counter of its bucket rises by one and the other two stay as
/// they were. In a multi-identity report only the bucket authored is kept.
pub proof fn lemma_one_bucket(totals: Totals, commit: Classification)
    ensures
        forall|bucket: Bucket| #[trigger]
            totals.record(commit).bucket_count(bucket) == totals.bucket_count(bucket) + one_if(
                bucket == commit.bucket() && (totals.mode == ReportMode::SingleIdentity || bucket
                    == Bucket::Authored),
            ),
        totals.mode == ReportMode::SingleIdentity ==> totals.record(commit).authored
            + totals.record(commit).touched + totals.record(commit).ignored == totals.authored
            + totals.touched + totals.ignored + 1,
        totals.record(commit).authored + totals.record(commit).touched + totals.record(
            commit,
        ).ignored <= totals.authored + totals.touched + totals.ignored + 1,
{
}

/// The counter of a kind rises by one for a commit that carries the kind and
/// whose annotations count, and not at all for any other commit: never by
/// the number of lines that announce the kind.
pub proof fn lemma_counter_step(totals: Totals, commit: Classification, kind: AnnotationKind)
    ensures
        totals.record(commit).counter(kind) == totals.counter(kind) + one_if(
            commit.counts(totals.mode, kind),
        ),
        totals.record(commit).counter(kind) <= totals.counter(kind) + 1,
{
}

/// Counters that stand for the same numbers are the same counters.
pub proof fn lemma_same_totals(first: RunTotals, second: RunTotals)
    requires
        first@ == second@,
    ensures
        first == second,
{
}

/// No counter of consistent totals exceeds the number of commits scanned.
proof fn lemma_counters_bounded(totals: Totals)
    requires
        totals.consistent(),
    ensures
        totals.authored <= totals.total_scanned,
        totals.touched <= totals.total_scanned,
        totals.ignored <= totals.total_scanned,
        totals.signed_off <= totals.total_scanned,
        totals.reviewed <= totals.total_scanned,
        totals.acked <= totals.total_scanned,
        totals.tested <= totals.total_scanned,
        totals.reported <= totals.total_scanned,
{
    assert(totals.counter(AnnotationKind::SignedOffBy) <= totals.total_scanned);
    assert(totals.counter(AnnotationKind::ReviewedBy) <= totals.total_scanned);
    assert(totals.counter(AnnotationKind::AckedBy) <= totals.total_scanned);
    assert(totals.counter(AnnotationKind::TestedBy) <= totals.total_scanned);
    assert(totals.counter(AnnotationKind::ReportedBy) <= totals.total_scanned);
}

/// A set of kinds that is not empty holds one of the five kinds.
proof fn lemma_some_kind(kinds: Set<AnnotationKind>)
    requires
        kinds != Set::<AnnotationKind>::empty(),
    ensures
        kinds.contains(AnnotationKind::SignedOffBy) || kinds.contains(AnnotationKind::ReviewedBy)
            || kinds.contains(AnnotationKind::AckedBy) || kinds.contains(AnnotationKind::TestedBy)
            || kinds.contains(AnnotationKind::ReportedBy),
{
    if !(kinds.contains(AnnotationKind::SignedOffBy) || kinds.contains(AnnotationKind::ReviewedBy)
        || kinds.contains(AnnotationKind::AckedBy) || kinds.contains(AnnotationKind::TestedBy)
        || kinds.contains(AnnotationKind::ReportedBy)) {
        assert forall|kind: AnnotationKind| !kinds.contains(kind) by {
            match kind {
                AnnotationKind::SignedOffBy => {},
                AnnotationKind::ReviewedBy => {},
                AnnotationKind::AckedBy => {},
                AnnotationKind::TestedBy => {},
                AnnotationKind::ReportedBy => {},
            }
        }
        assert(kinds =~= Set::<AnnotationKind>::empty());
    }
}

} // verus!
