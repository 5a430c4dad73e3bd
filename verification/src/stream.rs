//! The commit stream and the walk over it: which commits of a history are
//! scanned, and what the counters are once they have been.

use vstd::prelude::*;
use crate::identity::candidate_matches;
use crate::identity::MatchMode;
use crate::identity::TargetIdentitySet;
use crate::totals::Classification;
use crate::totals::ClassificationResult;
use crate::totals::ReportMode;
use crate::totals::RunTotals;
use crate::totals::Totals;
use crate::totals::lemma_record_keeps_consistent;
use crate::totals::lemma_same_totals;
use crate::trailer::classification;
use crate::trailer::classify;

verus! {

/// One commit as it was read from the history.
#[derive(Clone, Debug, PartialEq, Eq)]
pub struct CommitRecord {
    /// The hash that identifies the commit.
    pub id: String,
    /// The display name of the author.
    pub author_name: String,
    /// The e-mail address of the author, where there is one.
    pub author_email: Option<String>,
    /// The commit time in seconds since the start of 1970, UTC.
    pub time: i64,
    /// The whole message, where it could be read.
    pub message: Option<String>,
}

/// The mathematical content of a `CommitRecord`.
pub struct Commit {
    pub id: Seq<char>,
    pub author_name: Seq<char>,
    pub author_email: Option<Seq<char>>,
    pub time: i64,
    pub message: Option<Seq<char>>,
}

/// The characters of an owned text that may be absent.
pub open spec fn owned_text_of(text: Option<String>) -> Option<Seq<char>> {
    match text {
        Some(s) => Some(s@),
        None => None,
    }
}

impl View for CommitRecord {
    type V = Commit;

    open spec fn view(&self) -> Commit {
        Commit {
            id: self.id@,
            author_name: self.author_name@,
            author_email: owned_text_of(self.author_email),
            time: self.time,
            message: owned_text_of(self.message),
        }
    }
}

/// The contents of the commits of a history, in order.
pub open spec fn commits_of(records: Seq<CommitRecord>) -> Seq<Commit> {
    records.map_values(|record: CommitRecord| record@)
}

/// Whether a commit of the given time lies inside the time window: it does
/// unless there is a cutoff and the commit is strictly earlier.
pub open spec fn admits(cutoff: Option<i64>, time: i64) -> bool {
    match cutoff {
        Some(earliest) => time >= earliest,
        None => true,
    }
}

/// Decides whether a commit of the given time lies inside the time window.
pub fn is_admitted(cutoff: Option<i64>, time: i64) -> (inside: bool)
    ensures
        inside == admits(cutoff, time),
{
    match cutoff {
        Some(earliest) => time >= earliest,
        None => true,
    }
}

/// The number of commits that the stream emits: those before the first one
/// that the time window does not admit.
pub open spec fn emitted_len(commits: Seq<Commit>, cutoff: Option<i64>) -> nat
    decreases commits.len(),
{
    if commits.len() == 0 || !admits(cutoff, commits[0].time) {
        0
    } else {
        1 + emitted_len(commits.drop_first(), cutoff)
    }
}

/// The commits that the stream emits, in the order of the history.
pub open spec fn emitted(commits: Seq<Commit>, cutoff: Option<i64>) -> Seq<Commit> {
    commits.take(emitted_len(commits, cutoff) as int)
}

/// What the classification of a commit finds.
pub open spec fn classification_of(
    commit: Commit,
    targets: Seq<Seq<char>>,
    mode: MatchMode,
) -> Classification {
    Classification {
        authored: candidate_matches(commit.author_email, targets, mode),
        annotations: classification(commit.message, targets),
    }
}

/// The counters after the given commits have been counted, one after another.
pub open spec fn tally(
    start: Totals,
    commits: Seq<Commit>,
    targets: Seq<Seq<char>>,
    mode: MatchMode,
) -> Totals
    decreases commits.len(),
{
    if commits.len() == 0 {
        start
    } else {
        tally(start, commits.drop_last(), targets, mode).record(
            classification_of(commits.last(), targets, mode),
        )
    }
}

/// Classifies one commit: whether a target wrote it, and which annotations
/// its message carries for the targets. A commit without an author e-mail is
/// written by no target; one without a readable message carries nothing.
pub fn classify_commit(
    commit: &CommitRecord,
    targets: &TargetIdentitySet,
    mode: MatchMode,
) -> (found: ClassificationResult)
    ensures
        found@ == classification_of(commit@, targets@, mode),
{
    let email: Option<&str> = match &commit.author_email {
        Some(text) => Some(text.as_str()),
        None => None,
    };
    let message: Option<&str> = match &commit.message {
        Some(text) => Some(text.as_str()),
        None => None,
    };
    ClassificationResult {
        is_authored_by_target: targets.matches(email, mode),
        annotations_present: classify(message, targets, mode),
    }
}

/// What the walk did with a commit.
#[derive(Clone, Copy, Debug, PartialEq, Eq, Structural)]
pub enum Step {
    /// The commit was scanned and counted, with this classification.
    Counted(ClassificationResult),
    /// The commit was not scanned: the walk is over.
    Finished,
}

/// The mathematical content of an `Audit`.
pub struct AuditState {
    pub targets: Seq<Seq<char>>,
    pub match_mode: MatchMode,
    pub cutoff: Option<i64>,
    pub totals: Totals,
    pub finished: bool,
}

impl AuditState {
    /// The state at the start of a walk.
    pub open spec fn start(
        targets: Seq<Seq<char>>,
        match_mode: MatchMode,
        report_mode: ReportMode,
        cutoff: Option<i64>,
    ) -> AuditState {
        AuditState {
            targets,
            match_mode,
            cutoff,
            totals: Totals::zero(report_mode),
            finished: false,
        }
    }

    /// Whether the walk scans the commit: it is not over, and the time window
    /// admits the commit.
    pub open spec fn scans(self, commit: Commit) -> bool {
        !self.finished && admits(self.cutoff, commit.time)
    }

    /// The state after the walk has been handed one commit. A commit that is
    /// not scanned ends the walk and changes no counter.
    pub open spec fn observe(self, commit: Commit) -> AuditState {
        if self.scans(commit) {
            AuditState {
                totals: self.totals.record(
                    classification_of(commit, self.targets, self.match_mode),
                ),
                ..self
            }
        } else {
            AuditState { finished: true, ..self }
        }
    }

    /// The state after the walk has been handed the given commits in order.
    pub open spec fn observe_all(self, commits: Seq<Commit>) -> AuditState
        decreases commits.len(),
    {
        if commits.len() == 0 {
            self
        } else {
            self.observe_all(commits.drop_last()).observe(commits.last())
        }
    }
}

/// A walk over a history, most recent commit first. It is handed the commits
/// one by one; it ends at the first commit that is strictly earlier than
/// the cutoff and cannot be started again.
pub struct Audit {
    targets: TargetIdentitySet,
    match_mode: MatchMode,
    cutoff: Option<i64>,
    totals: RunTotals,
    finished: bool,
}

impl View for Audit {
    type V = AuditState;

    closed spec fn view(&self) -> AuditState {
        AuditState {
            targets: self.targets@,
            match_mode: self.match_mode,
            cutoff: self.cutoff,
            totals: self.totals@,
            finished: self.finished,
        }
    }
}

impl Audit {
    #[verifier::type_invariant]
    spec fn well_formed(self) -> bool {
        self.totals@.consistent()
    }

    /// Starts a walk: nothing is scanned yet.
    pub fn new(
        targets: TargetIdentitySet,
        match_mode: MatchMode,
        report_mode: ReportMode,
        cutoff: Option<i64>,
    ) -> (audit: Audit)
        ensures
            audit@ == AuditState::start(targets@, match_mode, report_mode, cutoff),
    {
        Audit { targets, match_mode, cutoff, totals: RunTotals::new(report_mode), finished: false }
    }

    /// Hands the walk the next commit of the history. If the walk is not
    /// over and the commit is not earlier than the cutoff, the commit is
    /// counted as scanned, classified and counted; otherwise the walk is
    /// over, now and for every later commit, and no counter changes.
    pub fn observe(&mut self, commit: &CommitRecord) -> (step: Step)
        requires
            old(self)@.totals.total_scanned < u64::MAX,
        ensures
            final(self)@ == old(self)@.observe(commit@),
            final(self)@.totals.consistent(),
            old(self)@.scans(commit@) ==> (step matches Step::Counted(found) && found@
                == classification_of(commit@, old(self)@.targets, old(self)@.match_mode)),
            !old(self)@.scans(commit@) ==> step == Step::Finished,
    {
        proof {
            use_type_invariant(&*self);
        }
        if self.finished || !is_admitted(self.cutoff, commit.time) {
            self.finished = true;
            return Step::Finished;
        }
        let found = classify_commit(commit, &self.targets, self.match_mode);
        let mut totals = self.totals;
        totals.record(&found);
        self.totals = totals;
        Step::Counted(found)
    }

    /// Hands the walk the commits of a history in order, up to the one that
    /// ends it; the commits after that one are not looked at.
    pub fn observe_all(&mut self, commits: &[CommitRecord])
        requires
            old(self)@.totals.total_scanned + commits.len() <= u64::MAX,
        ensures
            final(self)@ == old(self)@.observe_all(commits_of(commits@)),
            final(self)@.totals.consistent(),
    {
        let ghost history = commits_of(commits@);
        let ghost start = self@;
        proof {
            use_type_invariant(&*self);
        }
        let mut i: usize = 0;
        while i < commits.len() && !self.finished
            invariant
                i <= commits.len(),
                history == commits_of(commits@),
                self@ == start.observe_all(history.take(i as int)),
                self@.totals.total_scanned <= start.totals.total_scanned + i,
                start.totals.total_scanned + commits.len() <= u64::MAX,
                self@.totals.consistent(),
            decreases commits.len() - i,
        {
            proof {
                assert(history.take(i + 1).drop_last() == history.take(i as int));
                assert(history.take(i + 1).last() == commits@[i as int]@);
            }
            self.observe(&commits[i]);
            i += 1;
        }
        proof {
            assert(history == history.take(i as int) + history.skip(i as int));
            lemma_observe_in_parts(start, history.take(i as int), history.skip(i as int));
            if i < commits.len() {
                lemma_finished_stays(self@, history.skip(i as int));
            } else {
                assert(history.skip(i as int) == Seq::<Commit>::empty());
            }
        }
    }

    /// Whether the walk is over.
    pub fn is_finished(&self) -> (finished: bool)
        ensures
            finished == self@.finished,
    {
        self.finished
    }

    /// The cutoff of the walk, where it has one.
    pub fn cutoff(&self) -> (cutoff: Option<i64>)
        ensures
            cutoff == self@.cutoff,
    {
        self.cutoff
    }

    /// The counters of the walk so far.
    pub fn totals(&self) -> (totals: &RunTotals)
        ensures
            totals@ == self@.totals,
    {
        &self.totals
    }
}

/// Walks a whole history and gives the counters of the run: those of the
/// commits before the first one that is strictly earlier than the cutoff.
pub fn scan(
    commits: &[CommitRecord],
    targets: TargetIdentitySet,
    match_mode: MatchMode,
    report_mode: ReportMode,
    cutoff: Option<i64>,
) -> (totals: RunTotals)
    ensures
        totals@ == tally(
            Totals::zero(report_mode),
            emitted(commits_of(commits@), cutoff),
            targets@,
            match_mode,
        ),
        totals@.total_scanned == emitted_len(commits_of(commits@), cutoff),
        totals@.consistent(),
{
    let mut audit = Audit::new(targets, match_mode, report_mode, cutoff);
    audit.observe_all(commits);
    proof {
        lemma_walk_counts_emitted(
            AuditState::start(targets@, match_mode, report_mode, cutoff),
            commits_of(commits@),
        );
        lemma_tally_counts(
            Totals::zero(report_mode),
            emitted(commits_of(commits@), cutoff),
            targets@,
            match_mode,
        );
        lemma_emitted_len(commits_of(commits@), cutoff);
    }
    *audit.totals()
}

/// The stream emits a prefix of the history: every commit in it is admitted,
/// and the commit after it, if there is one, is not.
pub proof fn lemma_emitted_len(commits: Seq<Commit>, cutoff: Option<i64>)
    ensures
        emitted_len(commits, cutoff) <= commits.len(),
        forall|i: int| 0 <= i < emitted_len(commits, cutoff) ==> admits(cutoff, commits[i].time),
        emitted_len(commits, cutoff) < commits.len() ==> !admits(
            cutoff,
            commits[emitted_len(commits, cutoff) as int].time,
        ),
    decreases commits.len(),
{
    if !(commits.len() == 0 || !admits(cutoff, commits[0].time)) {
        let rest = commits.drop_first();
        lemma_emitted_len(rest, cutoff);
        assert forall|i: int| 0 <= i < emitted_len(commits, cutoff) implies admits(
            cutoff,
            commits[i].time,
        ) by {
            if i > 0 {
                assert(commits[i] == rest[i - 1]);
            }
        }
        if emitted_len(commits, cutoff) < commits.len() {
            let count = emitted_len(rest, cutoff) as int;
            assert(commits[count + 1] == rest[count]);
        }
    }
}

/// A prefix of admitted commits that ends the history, or is followed by a
/// commit that is not admitted, is what the stream emits.
proof fn lemma_emitted_found(commits: Seq<Commit>, cutoff: Option<i64>, count: int)
    requires
        0 <= count <= commits.len(),
        forall|i: int| 0 <= i < count ==> admits(cutoff, commits[i].time),
        count < commits.len() ==> !admits(cutoff, commits[count].time),
    ensures
        emitted_len(commits, cutoff) == count,
    decreases commits.len(),
{
    if count > 0 {
        let rest = commits.drop_first();
        assert(admits(cutoff, commits[0].time));
        assert forall|i: int| 0 <= i < count - 1 implies admits(cutoff, rest[i].time) by {
            assert(rest[i] == commits[i + 1]);
        }
        if count < commits.len() {
            assert(rest[count - 1] == commits[count]);
        }
        lemma_emitted_found(rest, cutoff, count - 1);
    }
}

/// A walk that is over stays as it is, whatever it is handed.
pub proof fn lemma_finished_stays(state: AuditState, commits: Seq<Commit>)
    requires
        state.finished,
    ensures
        state.observe_all(commits) == state,
    decreases commits.len(),
{
    if commits.len() > 0 {
        lemma_finished_stays(state, commits.drop_last());
    }
}

/// Handing a walk a history is handing it a first part and then the rest.
pub proof fn lemma_observe_in_parts(state: AuditState, first: Seq<Commit>, rest: Seq<Commit>)
    ensures
        state.observe_all(first + rest) == state.observe_all(first).observe_all(rest),
    decreases rest.len(),
{
    if rest.len() == 0 {
        assert(first + rest == first);
    } else {
        lemma_observe_in_parts(state, first, rest.drop_last());
        assert((first + rest).drop_last() == first + rest.drop_last());
        assert((first + rest).last() == rest.last());
    }
}

/// Counting commits raises the number of commits scanned by their number
/// and never changes the counting policy.
pub proof fn lemma_tally_counts(
    start: Totals,
    commits: Seq<Commit>,
    targets: Seq<Seq<char>>,
    mode: MatchMode,
)
    ensures
        tally(start, commits, targets, mode).total_scanned == start.total_scanned + commits.len(),
        tally(start, commits, targets, mode).mode == start.mode,
    decreases commits.len(),
{
    if commits.len() > 0 {
        lemma_tally_counts(start, commits.drop_last(), targets, mode);
    }
}

/// A walk that is not over when it is handed a history counts exactly the
/// commits that the stream emits, and it is over afterwards exactly if the
/// history holds a commit that is earlier than the cutoff.
pub proof fn lemma_walk_counts_emitted(state: AuditState, commits: Seq<Commit>)
    requires
        !state.finished,
    ensures
        state.observe_all(commits).totals == tally(
            state.totals,
            emitted(commits, state.cutoff),
            state.targets,
            state.match_mode,
        ),
        state.observe_all(commits).finished == (emitted_len(commits, state.cutoff)
            < commits.len()),
        state.observe_all(commits).targets == state.targets,
        state.observe_all(commits).match_mode == state.match_mode,
        state.observe_all(commits).cutoff == state.cutoff,
    decreases commits.len(),
{
    let cutoff = state.cutoff;
    lemma_emitted_len(commits, cutoff);
    if commits.len() == 0 {
        assert(emitted(commits, cutoff) == Seq::<Commit>::empty());
    } else {
        let shorter = commits.drop_last();
        lemma_walk_counts_emitted(state, shorter);
        lemma_emitted_len(shorter, cutoff);
        let before = state.observe_all(shorter);
        let count = emitted_len(shorter, cutoff) as int;
        if count < shorter.len() {
            assert(shorter[count] == commits[count]);
            assert forall|i: int| 0 <= i < count implies admits(cutoff, commits[i].time) by {
                assert(shorter[i] == commits[i]);
            }
            lemma_emitted_found(commits, cutoff, count);
            assert(emitted(commits, cutoff) == emitted(shorter, cutoff));
        } else {
            assert forall|i: int| 0 <= i < count implies admits(cutoff, commits[i].time) by {
                assert(shorter[i] == commits[i]);
            }
            if admits(cutoff, commits.last().time) {
                lemma_emitted_found(commits, cutoff, commits.len() as int);
                assert(emitted(commits, cutoff) == commits);
                assert(emitted(shorter, cutoff) == shorter);
            } else {
                lemma_emitted_found(commits, cutoff, count);
                assert(emitted(commits, cutoff) == emitted(shorter, cutoff));
            }
        }
    }
}

/// Whatever history a run scans, in whatever mode, its counters are
/// consistent after every commit; in a single-identity report the buckets
/// authored, touched and ignored add up to the number of commits scanned.
pub proof fn lemma_tally_consistent(
    report_mode: ReportMode,
    commits: Seq<Commit>,
    targets: Seq<Seq<char>>,
    mode: MatchMode,
)
    ensures
        tally(Totals::zero(report_mode), commits, targets, mode).consistent(),
        report_mode == ReportMode::SingleIdentity ==> tally(
            Totals::zero(report_mode),
            commits,
            targets,
            mode,
        ).balanced(),
    decreases commits.len(),
{
    lemma_tally_counts(Totals::zero(report_mode), commits, targets, mode);
    if commits.len() > 0 {
        lemma_tally_consistent(report_mode, commits.drop_last(), targets, mode);
        lemma_record_keeps_consistent(
            tally(Totals::zero(report_mode), commits.drop_last(), targets, mode),
            classification_of(commits.last(), targets, mode),
        );
    }
}

/// Running again over an unchanged history with unchanged arguments yields
/// the same counters: whatever two runs return, they return the same.
pub proof fn lemma_run_repeatable(
    commits: Seq<Commit>,
    targets: Seq<Seq<char>>,
    match_mode: MatchMode,
    report_mode: ReportMode,
    cutoff: Option<i64>,
    first: RunTotals,
    second: RunTotals,
)
    requires
        first@ == tally(Totals::zero(report_mode), emitted(commits, cutoff), targets, match_mode),
        second@ == tally(Totals::zero(report_mode), emitted(commits, cutoff), targets, match_mode),
    ensures
        first == second,
{
    lemma_same_totals(first, second);
}

} // verus!
