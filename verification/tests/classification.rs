use commit_audit::analyze_trailers;
use commit_audit::classify;
use commit_audit::kinds::classify_line;
use commit_audit::trailer::analyze_line;
use commit_audit::AnnotationKind;
use commit_audit::AnnotationSet;
use commit_audit::AuditError;
use commit_audit::MatchMode;
use commit_audit::TargetIdentitySet;

fn targets(emails: &[&str]) -> TargetIdentitySet {
    let owned: Vec<String> = emails.iter().map(|e| e.to_string()).collect();
    TargetIdentitySet::new(&owned).unwrap()
}

fn chars(text: &str) -> Vec<char> {
    text.chars().collect()
}

fn only(kind: AnnotationKind) -> AnnotationSet {
    let mut set = AnnotationSet::empty();
    set.insert(kind);
    set
}

#[test]
fn exact_mode_ignores_letter_case() {
    let set = targets(&["jane@example.com"]);
    assert!(set.matches(Some("Jane@Example.com"), MatchMode::Exact));
    assert!(set.matches(Some("jane@example.com"), MatchMode::Exact));
}

#[test]
fn targets_are_lowered_when_the_set_is_made() {
    let set = targets(&["Jane@Example.COM"]);
    assert!(set.matches(Some("jane@example.com"), MatchMode::Exact));
    assert!(set.matches_lowered(&chars("jane@example.com"), MatchMode::Exact));
    assert!(!set.matches_lowered(&chars("Jane@Example.COM"), MatchMode::Exact));
}

#[test]
fn substring_mode_finds_a_domain() {
    let set = targets(&["example.com"]);
    assert!(set.matches(Some("jane@example.com"), MatchMode::Substring));
    assert!(set.matches(Some("JANE@EXAMPLE.COM"), MatchMode::Substring));
    assert!(!set.matches(Some("jane@example.com"), MatchMode::Exact));
}

#[test]
fn exact_mode_needs_the_whole_address() {
    let set = targets(&["jane@example.com"]);
    assert!(!set.matches(Some("jane@example.com.au"), MatchMode::Exact));
    assert!(!set.matches(Some("mary-jane@example.com"), MatchMode::Exact));
    assert!(set.matches(Some("mary-jane@example.com"), MatchMode::Substring));
}

#[test]
fn absent_candidate_matches_nothing() {
    let set = targets(&["jane@example.com", ""]);
    assert!(!set.matches(None, MatchMode::Exact));
    assert!(!set.matches(None, MatchMode::Substring));
    assert!(set.matches(Some("anyone"), MatchMode::Substring));
}

#[test]
fn any_of_several_targets_counts() {
    let set = targets(&["jane@example.com", "joe@example.org"]);
    assert_eq!(set.len(), 2);
    assert!(set.matches(Some("joe@example.org"), MatchMode::Exact));
    assert!(set.matches(Some("jane@example.com"), MatchMode::Exact));
    assert!(!set.matches(Some("jim@example.org"), MatchMode::Exact));
}

#[test]
fn no_identities_make_no_set() {
    let none: Vec<String> = Vec::new();
    assert!(matches!(TargetIdentitySet::new(&none), Err(AuditError::NoIdentity)));
}

#[test]
fn each_prefix_has_its_kind() {
    assert_eq!(classify_line(&chars("signed-off-by: a")), Some(AnnotationKind::SignedOffBy));
    assert_eq!(classify_line(&chars("reviewed-by: a")), Some(AnnotationKind::ReviewedBy));
    assert_eq!(classify_line(&chars("acked-by: a")), Some(AnnotationKind::AckedBy));
    assert_eq!(classify_line(&chars("tested-by: a")), Some(AnnotationKind::TestedBy));
    assert_eq!(classify_line(&chars("reported-by: a")), Some(AnnotationKind::ReportedBy));
    assert_eq!(classify_line(&chars("reported-by:")), Some(AnnotationKind::ReportedBy));
}

#[test]
fn other_lines_have_no_kind() {
    assert_eq!(classify_line(&chars("")), None);
    assert_eq!(classify_line(&chars("reviewed-by")), None);
    assert_eq!(classify_line(&chars("Reviewed-by: a")), None);
    assert_eq!(classify_line(&chars(" reviewed-by: a")), None);
    assert_eq!(classify_line(&chars("cc: reviewed-by: a")), None);
    assert_eq!(classify_line(&chars("suggested-by: a")), None);
}

#[test]
fn kinds_have_ranks_and_prefixes() {
    assert_eq!(AnnotationKind::from_rank(0), Some(AnnotationKind::SignedOffBy));
    assert_eq!(AnnotationKind::from_rank(4), Some(AnnotationKind::ReportedBy));
    assert_eq!(AnnotationKind::from_rank(5), None);
    assert_eq!(AnnotationKind::AckedBy.prefix(), "acked-by:");
    assert_eq!(AnnotationKind::SignedOffBy.prefix(), "signed-off-by:");
}

#[test]
fn two_review_lines_latch_once() {
    let set = targets(&["jane@example.com"]);
    let message = "Fix the parser\n\nReviewed-by: Jane <jane@example.com>\nReviewed-by: Jane Doe <jane@example.com>\n";
    let found = analyze_trailers(message, &set);
    assert_eq!(found, only(AnnotationKind::ReviewedBy));
    assert!(found.contains(AnnotationKind::ReviewedBy));
    assert!(!found.contains(AnnotationKind::AckedBy));
}

#[test]
fn trailer_of_someone_else_is_not_found() {
    let set = targets(&["jane@example.com"]);
    let found = analyze_trailers("Subject\n\nReviewed-by: Joe <joe@example.com>", &set);
    assert!(found.is_empty());
    assert_eq!(found, AnnotationSet::empty());
}

#[test]
fn trailer_lines_are_trimmed_and_lowered() {
    let set = targets(&["Jane@Example.com"]);
    let message = "Subject\r\n\r\n  \tACKED-BY: JANE <JANE@EXAMPLE.COM>  \r\n\u{a0}Tested-By: jane@example.com";
    let found = analyze_trailers(message, &set);
    let mut expected = AnnotationSet::empty();
    expected.insert(AnnotationKind::AckedBy);
    expected.insert(AnnotationKind::TestedBy);
    assert_eq!(found, expected);
}

#[test]
fn all_five_kinds_can_be_found() {
    let set = targets(&["t@x.io"]);
    let message = "s\n\nSigned-off-by: t@x.io\nReviewed-by: t@x.io\nAcked-by: t@x.io\nTested-by: t@x.io\nReported-by: t@x.io";
    let found = analyze_trailers(message, &set);
    assert!(found.signed_off && found.reviewed && found.acked && found.tested && found.reported);
}

#[test]
fn identity_in_the_text_without_prefix_is_nothing() {
    let set = targets(&["jane@example.com"]);
    let found = analyze_trailers("Thanks to jane@example.com\nCc: jane@example.com", &set);
    assert!(found.is_empty());
}

#[test]
fn trailers_are_tested_by_substring_in_either_mode() {
    let set = targets(&["example.com"]);
    let message = Some("Subject\n\nReported-by: Jane <jane@example.com>");
    let exact = classify(message, &set, MatchMode::Exact);
    let substring = classify(message, &set, MatchMode::Substring);
    assert_eq!(exact, only(AnnotationKind::ReportedBy));
    assert_eq!(exact, substring);
}

#[test]
fn absent_message_carries_nothing() {
    let set = targets(&["jane@example.com"]);
    assert!(classify(None, &set, MatchMode::Exact).is_empty());
    assert!(classify(Some(""), &set, MatchMode::Exact).is_empty());
}

#[test]
fn classifying_twice_gives_the_same_set() {
    let set = targets(&["jane@example.com"]);
    let message = "Subject\n\nSigned-off-by: jane@example.com\nAcked-by: jane@example.com";
    let first = analyze_trailers(message, &set);
    let second = analyze_trailers(message, &set);
    assert_eq!(first, second);
    assert!(first.signed_off && first.acked);
}

#[test]
fn one_line_adds_at_most_its_kind() {
    let set = targets(&["jane@example.com"]);
    let mut found = AnnotationSet::empty();
    analyze_line(&chars("  Tested-by: jane@example.com"), &set, &mut found);
    assert_eq!(found, only(AnnotationKind::TestedBy));
    analyze_line(&chars("Tested-by: jane@example.com"), &set, &mut found);
    assert_eq!(found, only(AnnotationKind::TestedBy));
    analyze_line(&chars("Acked-by: joe@example.com"), &set, &mut found);
    assert_eq!(found, only(AnnotationKind::TestedBy));
    analyze_line(&chars("nothing here"), &set, &mut found);
    assert_eq!(found, only(AnnotationKind::TestedBy));
}

#[test]
fn a_target_with_a_blank_is_sought_in_the_untrimmed_line() {
    let set = targets(&[" reviewed"]);
    let mut found = AnnotationSet::empty();
    analyze_line(&chars(" Reviewed-by: someone"), &set, &mut found);
    assert_eq!(found, only(AnnotationKind::ReviewedBy));
    let mut other = AnnotationSet::empty();
    analyze_line(&chars("Reviewed-by: someone"), &set, &mut other);
    assert!(other.is_empty());
}
