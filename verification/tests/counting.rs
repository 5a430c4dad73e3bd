use commit_audit::dates::parse_since;
use commit_audit::scan;
use commit_audit::stream::classify_commit;
use commit_audit::stream::is_admitted;
use commit_audit::AnnotationKind;
use commit_audit::AnnotationSet;
use commit_audit::Audit;
use commit_audit::Bucket;
use commit_audit::ClassificationResult;
use commit_audit::CommitRecord;
use commit_audit::MatchMode;
use commit_audit::ReportMode;
use commit_audit::RunTotals;
use commit_audit::Step;
use commit_audit::TargetIdentitySet;

const JAN_10: i64 = 1_704_844_800;
const JAN_05: i64 = 1_704_412_800;
const DEC_31: i64 = 1_703_980_800;

fn targets(emails: &[&str]) -> TargetIdentitySet {
    let owned: Vec<String> = emails.iter().map(|e| e.to_string()).collect();
    TargetIdentitySet::new(&owned).unwrap()
}

fn commit(time: i64, email: Option<&str>, message: Option<&str>) -> CommitRecord {
    CommitRecord {
        id: format!("{:040x}", time),
        author_name: "Someone".to_string(),
        author_email: email.map(|e| e.to_string()),
        time,
        message: message.map(|m| m.to_string()),
    }
}

fn found(authored: bool, kinds: &[AnnotationKind]) -> ClassificationResult {
    let mut set = AnnotationSet::empty();
    for kind in kinds {
        set.insert(*kind);
    }
    ClassificationResult { is_authored_by_target: authored, annotations_present: set }
}

fn counters(totals: &RunTotals) -> [u64; 9] {
    [
        totals.total_scanned(),
        totals.authored(),
        totals.touched(),
        totals.ignored(),
        totals.counter(AnnotationKind::SignedOffBy),
        totals.counter(AnnotationKind::ReviewedBy),
        totals.counter(AnnotationKind::AckedBy),
        totals.counter(AnnotationKind::TestedBy),
        totals.counter(AnnotationKind::ReportedBy),
    ]
}

fn three_commits() -> Vec<CommitRecord> {
    vec![
        commit(JAN_10, Some("target@example.com"), Some("Add the thing\n\nNo trailers here")),
        commit(
            JAN_05,
            Some("other@example.com"),
            Some("Fix the thing\n\nSigned-off-by: target@example.com"),
        ),
        commit(DEC_31, Some("other@example.com"), Some("Break the thing\n\nCc: nobody")),
    ]
}

#[test]
fn three_commits_fall_into_three_buckets() {
    let totals = scan(
        &three_commits(),
        targets(&["target@example.com"]),
        MatchMode::Exact,
        ReportMode::SingleIdentity,
        None,
    );
    assert_eq!(totals.total_scanned(), 3);
    assert_eq!(totals.authored(), 1);
    assert_eq!(totals.touched(), 1);
    assert_eq!(totals.ignored(), 1);
    assert_eq!(totals.counter(AnnotationKind::SignedOffBy), 1);
    assert_eq!(totals.counter(AnnotationKind::ReviewedBy), 0);
    assert_eq!(totals.counter(AnnotationKind::AckedBy), 0);
    assert_eq!(totals.counter(AnnotationKind::TestedBy), 0);
    assert_eq!(totals.counter(AnnotationKind::ReportedBy), 0);
    assert_eq!(totals.mode(), ReportMode::SingleIdentity);
}

#[test]
fn cutoff_keeps_the_boundary_commit() {
    let totals = scan(
        &three_commits(),
        targets(&["target@example.com"]),
        MatchMode::Exact,
        ReportMode::SingleIdentity,
        Some(JAN_05),
    );
    assert_eq!(totals.total_scanned(), 2);
    assert_eq!(counters(&totals), [2, 1, 1, 0, 1, 0, 0, 0, 0]);
}

#[test]
fn since_a_day_includes_the_commits_of_that_day() {
    let days = ["2024-01-10", "2024-01-05", "2023-12-31"];
    let history: Vec<CommitRecord> =
        days.iter().map(|day| commit(parse_since(day).unwrap(), None, None)).collect();
    let cutoff = parse_since("2024-01-05").unwrap();
    let mut audit = Audit::new(
        targets(&["target@example.com"]),
        MatchMode::Exact,
        ReportMode::SingleIdentity,
        Some(cutoff),
    );
    audit.observe_all(&history);
    assert!(audit.is_finished());
    assert_eq!(audit.totals().total_scanned(), 2);
    assert_eq!(counters(audit.totals()), [2, 0, 0, 2, 0, 0, 0, 0, 0]);
}

#[test]
fn report_mode_goes_by_the_number_of_identities() {
    assert_eq!(ReportMode::for_identities(1), ReportMode::SingleIdentity);
    assert_eq!(ReportMode::for_identities(2), ReportMode::MultiIdentity);
    assert_eq!(ReportMode::for_identities(7), ReportMode::MultiIdentity);
}

#[test]
fn cutoff_one_second_later_drops_the_boundary_commit() {
    let totals = scan(
        &three_commits(),
        targets(&["target@example.com"]),
        MatchMode::Exact,
        ReportMode::SingleIdentity,
        Some(JAN_05 + 1),
    );
    assert_eq!(counters(&totals), [1, 1, 0, 0, 0, 0, 0, 0, 0]);
}

#[test]
fn walk_stops_at_the_first_early_commit_for_good() {
    let history = vec![
        commit(JAN_10, None, None),
        commit(DEC_31, None, None),
        commit(JAN_10, Some("target@example.com"), None),
    ];
    let totals = scan(
        &history,
        targets(&["target@example.com"]),
        MatchMode::Exact,
        ReportMode::SingleIdentity,
        Some(JAN_05),
    );
    assert_eq!(counters(&totals), [1, 0, 0, 1, 0, 0, 0, 0, 0]);
}

#[test]
fn time_window_is_inclusive() {
    assert!(is_admitted(None, i64::MIN));
    assert!(is_admitted(Some(JAN_05), JAN_05));
    assert!(is_admitted(Some(JAN_05), JAN_10));
    assert!(!is_admitted(Some(JAN_05), JAN_05 - 1));
    assert!(!is_admitted(Some(JAN_05), DEC_31));
}

#[test]
fn empty_history_counts_nothing() {
    for mode in [ReportMode::SingleIdentity, ReportMode::MultiIdentity] {
        let totals = scan(&[], targets(&["target@example.com"]), MatchMode::Exact, mode, None);
        assert_eq!(counters(&totals), [0; 9]);
        assert_eq!(totals, RunTotals::new(mode));
        assert_eq!(totals.residual(), 0);
    }
}

#[test]
fn commit_without_email_or_message_is_ignored() {
    let history = vec![commit(JAN_10, None, None), commit(JAN_05, None, Some("Reviewed-by: target@example.com"))];
    let totals = scan(
        &history,
        targets(&["target@example.com"]),
        MatchMode::Exact,
        ReportMode::SingleIdentity,
        None,
    );
    assert_eq!(counters(&totals), [2, 0, 1, 1, 0, 1, 0, 0, 0]);
}

#[test]
fn buckets_add_up_after_every_commit() {
    let results = [
        found(true, &[]),
        found(true, &[AnnotationKind::ReviewedBy]),
        found(false, &[AnnotationKind::ReviewedBy, AnnotationKind::TestedBy]),
        found(false, &[]),
        found(false, &[AnnotationKind::SignedOffBy]),
        found(true, &[AnnotationKind::AckedBy, AnnotationKind::ReportedBy]),
    ];
    let mut totals = RunTotals::new(ReportMode::SingleIdentity);
    let mut scanned = 0;
    for result in results.iter() {
        let before = [totals.authored(), totals.touched(), totals.ignored()];
        totals.record(result);
        scanned += 1;
        let after = [totals.authored(), totals.touched(), totals.ignored()];
        assert_eq!(totals.total_scanned(), scanned);
        assert_eq!(after.iter().sum::<u64>(), scanned);
        let raised = (0..3).filter(|&i| after[i] == before[i] + 1).count();
        let kept = (0..3).filter(|&i| after[i] == before[i]).count();
        assert_eq!((raised, kept), (1, 2));
    }
    assert_eq!(counters(&totals), [6, 3, 2, 1, 1, 1, 0, 1, 0]);
}

#[test]
fn bucket_of_a_commit() {
    assert_eq!(found(true, &[]).bucket(), Bucket::Authored);
    assert_eq!(found(true, &[AnnotationKind::AckedBy]).bucket(), Bucket::Authored);
    assert_eq!(found(false, &[AnnotationKind::AckedBy]).bucket(), Bucket::Touched);
    assert_eq!(found(false, &[]).bucket(), Bucket::Ignored);
}

#[test]
fn own_trailers_do_not_count_in_a_single_identity_report() {
    let mut totals = RunTotals::new(ReportMode::SingleIdentity);
    totals.record(&found(true, &[AnnotationKind::SignedOffBy, AnnotationKind::TestedBy]));
    assert_eq!(counters(&totals), [1, 1, 0, 0, 0, 0, 0, 0, 0]);
    assert_eq!(totals.bucket_count(Bucket::Authored), 1);
    assert_eq!(totals.bucket_count(Bucket::Touched), 0);
    assert_eq!(totals.bucket_count(Bucket::Ignored), 0);
}

#[test]
fn multi_identity_report_counts_independently() {
    let mut totals = RunTotals::new(ReportMode::MultiIdentity);
    totals.record(&found(true, &[AnnotationKind::SignedOffBy, AnnotationKind::TestedBy]));
    totals.record(&found(false, &[AnnotationKind::TestedBy]));
    totals.record(&found(false, &[]));
    totals.record(&found(true, &[]));
    assert_eq!(counters(&totals), [4, 2, 0, 0, 1, 0, 0, 2, 0]);
    assert_eq!(totals.mode(), ReportMode::MultiIdentity);
}

#[test]
fn residual_is_what_activity_leaves() {
    let mut totals = RunTotals::new(ReportMode::MultiIdentity);
    for _ in 0..7 {
        totals.record(&found(false, &[]));
    }
    assert_eq!(totals.residual(), 7);
    totals.record(&found(true, &[]));
    totals.record(&found(false, &[AnnotationKind::ReviewedBy]));
    totals.record(&found(false, &[AnnotationKind::SignedOffBy]));
    assert_eq!(totals.total_scanned(), 10);
    assert_eq!(totals.residual(), 7);
    totals.record(&found(true, &[AnnotationKind::AckedBy, AnnotationKind::TestedBy]));
    assert_eq!(totals.residual(), 5);
}

#[test]
fn residual_never_falls_below_zero() {
    let mut totals = RunTotals::new(ReportMode::MultiIdentity);
    let all = [
        AnnotationKind::SignedOffBy,
        AnnotationKind::ReviewedBy,
        AnnotationKind::AckedBy,
        AnnotationKind::TestedBy,
        AnnotationKind::ReportedBy,
    ];
    totals.record(&found(true, &all));
    totals.record(&found(true, &all));
    assert_eq!(counters(&totals), [2, 2, 0, 0, 2, 2, 2, 2, 2]);
    assert_eq!(totals.residual(), 0);
}

#[test]
fn review_counter_rises_once_for_two_review_lines() {
    let message = "Subject\n\nReviewed-by: A <target@example.com>\nReviewed-by: B <target@example.com>";
    let history = vec![commit(JAN_10, Some("other@example.com"), Some(message))];
    for mode in [ReportMode::SingleIdentity, ReportMode::MultiIdentity] {
        let totals = scan(&history, targets(&["target@example.com"]), MatchMode::Exact, mode, None);
        assert_eq!(totals.counter(AnnotationKind::ReviewedBy), 1);
        assert_eq!(totals.total_scanned(), 1);
    }
}

#[test]
fn scanning_again_gives_the_same_counters() {
    let first = scan(
        &three_commits(),
        targets(&["target@example.com"]),
        MatchMode::Substring,
        ReportMode::MultiIdentity,
        Some(JAN_05),
    );
    let second = scan(
        &three_commits(),
        targets(&["target@example.com"]),
        MatchMode::Substring,
        ReportMode::MultiIdentity,
        Some(JAN_05),
    );
    assert_eq!(first, second);
    assert_eq!(counters(&first), [2, 1, 0, 0, 1, 0, 0, 0, 0]);
}

#[test]
fn commit_is_classified_by_author_and_message() {
    let set = targets(&["example.com"]);
    let record = commit(
        JAN_10,
        Some("Jane@Example.com"),
        Some("Subject\n\nAcked-by: joe@example.com"),
    );
    let exact = classify_commit(&record, &set, MatchMode::Exact);
    assert_eq!(exact, found(false, &[AnnotationKind::AckedBy]));
    let substring = classify_commit(&record, &set, MatchMode::Substring);
    assert_eq!(substring, found(true, &[AnnotationKind::AckedBy]));
}

#[test]
fn audit_is_handed_commits_one_by_one() {
    let mut audit = Audit::new(
        targets(&["target@example.com"]),
        MatchMode::Exact,
        ReportMode::SingleIdentity,
        Some(JAN_05),
    );
    assert!(!audit.is_finished());
    assert_eq!(audit.cutoff(), Some(JAN_05));
    let history = three_commits();
    assert_eq!(audit.observe(&history[0]), Step::Counted(found(true, &[])));
    assert_eq!(
        audit.observe(&history[1]),
        Step::Counted(found(false, &[AnnotationKind::SignedOffBy]))
    );
    assert!(!audit.is_finished());
    assert_eq!(audit.observe(&history[2]), Step::Finished);
    assert!(audit.is_finished());
    assert_eq!(audit.observe(&history[0]), Step::Finished);
    assert!(audit.is_finished());
    assert_eq!(counters(audit.totals()), [2, 1, 1, 0, 1, 0, 0, 0, 0]);
}

#[test]
fn audit_can_be_handed_a_history_in_parts() {
    let history = three_commits();
    let mut audit = Audit::new(
        targets(&["target@example.com"]),
        MatchMode::Exact,
        ReportMode::SingleIdentity,
        None,
    );
    audit.observe_all(&history[..1]);
    assert_eq!(audit.totals().total_scanned(), 1);
    audit.observe_all(&history[1..]);
    assert!(!audit.is_finished());
    assert_eq!(counters(audit.totals()), [3, 1, 1, 1, 1, 0, 0, 0, 0]);
}
