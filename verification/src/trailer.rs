//! The trailer classifier: which kinds of annotation a commit message carries
//! for the target identities.

use vstd::prelude::*;
use crate::identity::matches_any;
use crate::identity::text_of;
use crate::identity::MatchMode;
use crate::identity::TargetIdentitySet;
use crate::kinds::classify_line;
use crate::kinds::kind_of_line;
use crate::kinds::lemma_same_kinds_same_set;
use crate::kinds::AnnotationKind;
use crate::kinds::AnnotationSet;
use crate::lines::lines_of;
use crate::lines::split_lines;
use crate::lines::trim;
use crate::lines::trimmed;
use crate::text::chars_of;
use crate::text::lowercase_of;
use crate::text::lowered_chars;
use crate::text::string_of;
use crate::text::views_of;

verus! {

/// The kind that a line announces: that of its trimmed, lower-cased form.
pub open spec fn line_kind(line: Seq<char>) -> Option<AnnotationKind> {
    kind_of_line(lowercase_of(trimmed(line)))
}

/// Whether a line names a target: its lowercase form, untrimmed, holds one of
/// the identities as a substring.
pub open spec fn mentions_target(line: Seq<char>, targets: Seq<Seq<char>>) -> bool {
    matches_any(lowercase_of(line), targets, MatchMode::Substring)
}

/// Whether a line latches a kind: it announces the kind and names a target.
pub open spec fn latches(line: Seq<char>, targets: Seq<Seq<char>>, kind: AnnotationKind) -> bool {
    line_kind(line) == Some(kind) && mentions_target(line, targets)
}

/// The kinds that at least one of the lines latches.
pub open spec fn annotations_of_lines(lines: Seq<Seq<char>>, targets: Seq<Seq<char>>) -> Set<
    AnnotationKind,
> {
    Set::new(
        |kind: AnnotationKind|
            exists|i: int| 0 <= i < lines.len() && latches(#[trigger] lines[i], targets, kind),
    )
}

/// The kinds that a message carries for the targets.
pub open spec fn annotations_of(message: Seq<char>, targets: Seq<Seq<char>>) -> Set<
    AnnotationKind,
> {
    annotations_of_lines(lines_of(message), targets)
}

/// The kinds that a message carries for the targets, where the message may be
/// absent: an absent one carries none.
pub open spec fn classification(message: Option<Seq<char>>, targets: Seq<Seq<char>>) -> Set<
    AnnotationKind,
> {
    match message {
        Some(text) => annotations_of(text, targets),
        None => Set::empty(),
    }
}

/// Adds to `found` the kind that one line latches, if it latches one.
pub fn analyze_line(line: &[char], targets: &TargetIdentitySet, found: &mut AnnotationSet)
    ensures
        final(found)@ == match line_kind(line@) {
            Some(kind) if mentions_target(line@, targets@) => old(found)@.insert(kind),
            _ => old(found)@,
        },
{
    let core = trim(line);
    let core_text = string_of(core.as_slice());
    let lowered_core = lowered_chars(core_text.as_str());
    if let Some(kind) = classify_line(lowered_core.as_slice()) {
        if found.contains(kind) {
            assert(found@.insert(kind) == found@);
        } else {
            let line_text = string_of(line);
            let lowered_line = lowered_chars(line_text.as_str());
            if targets.matches_lowered(lowered_line.as_slice(), MatchMode::Substring) {
                found.insert(kind);
            }
        }
    }
}

/// Finds the kinds of annotation that a commit message carries for the
/// targets. A kind is found once however many lines announce it.
pub fn analyze_trailers(msg: &str, targets: &TargetIdentitySet) -> (found: AnnotationSet)
    ensures
        found@ == annotations_of(msg@, targets@),
{
    let text = chars_of(msg);
    let lines = split_lines(text.as_slice());
    let mut found = AnnotationSet::empty();
    let mut i: usize = 0;
    while i < lines.len()
        invariant
            i <= lines.len(),
            views_of(lines@) == lines_of(msg@),
            found@ == annotations_of_lines(lines_of(msg@).take(i as int), targets@),
        decreases lines.len() - i,
    {
        analyze_line(lines[i].as_slice(), targets, &mut found);
        proof {
            lemma_one_more_line(lines_of(msg@), i as int, targets@);
        }
        i += 1;
    }
    proof {
        assert(lines_of(msg@).take(lines.len() as int) == lines_of(msg@));
    }
    found
}

/// Classifies a commit message that may be absent. The matching mode of the
/// run has no part in it: a trailer names a target where its line holds the
/// identity as a substring.
#[allow(unused_variables)]
pub fn classify(message: Option<&str>, targets: &TargetIdentitySet, mode: MatchMode) -> (found:
    AnnotationSet)
    ensures
        found@ == classification(text_of(message), targets@),
{
    match message {
        Some(text) => analyze_trailers(text, targets),
        None => AnnotationSet::empty(),
    }
}

/// The kinds of the first `upto + 1` lines are those of the first `upto`
/// lines and, if the next line latches one, that one.
pub proof fn lemma_one_more_line(lines: Seq<Seq<char>>, upto: int, targets: Seq<Seq<char>>)
    requires
        0 <= upto < lines.len(),
    ensures
        annotations_of_lines(lines.take(upto + 1), targets) == match line_kind(lines[upto]) {
            Some(kind) if mentions_target(lines[upto], targets) => annotations_of_lines(
                lines.take(upto),
                targets,
            ).insert(kind),
            _ => annotations_of_lines(lines.take(upto), targets),
        },
{
    let shorter = lines.take(upto);
    let longer = lines.take(upto + 1);
    let expected = match line_kind(lines[upto]) {
        Some(kind) if mentions_target(lines[upto], targets) => annotations_of_lines(
            shorter,
            targets,
        ).insert(kind),
        _ => annotations_of_lines(shorter, targets),
    };
    assert forall|kind: AnnotationKind|
        annotations_of_lines(longer, targets).contains(kind) <==> expected.contains(kind) by {
        if annotations_of_lines(longer, targets).contains(kind) {
            let i = choose|i: int|
                0 <= i < longer.len() && latches(#[trigger] longer[i], targets, kind);
            if i < upto {
                assert(latches(shorter[i], targets, kind));
            }
        }
        if expected.contains(kind) {
            if annotations_of_lines(shorter, targets).contains(kind) {
                let i = choose|i: int|
                    0 <= i < shorter.len() && latches(#[trigger] shorter[i], targets, kind);
                assert(latches(longer[i], targets, kind));
            } else {
                assert(latches(longer[upto], targets, kind));
            }
        }
    }
    assert(annotations_of_lines(longer, targets) =~= expected);
}

/// Classifying the same message against the same targets twice yields the
/// same set: whatever two classifications return, they return the same.
pub proof fn lemma_classification_repeatable(
    message: Option<Seq<char>>,
    targets: Seq<Seq<char>>,
    first: AnnotationSet,
    second: AnnotationSet,
)
    requires
        first@ == classification(message, targets),
        second@ == classification(message, targets),
    ensures
        first == second,
{
    lemma_same_kinds_same_set(first, second);
}

/// A kind is latched once: a line that says again what an earlier line of
/// the message said adds nothing to what is found.
pub proof fn lemma_repeated_line_latches_once(
    lines: Seq<Seq<char>>,
    earlier: int,
    targets: Seq<Seq<char>>,
)
    requires
        0 <= earlier < lines.len(),
    ensures
        annotations_of_lines(lines.push(lines[earlier]), targets) == annotations_of_lines(
            lines,
            targets,
        ),
{
    let longer = lines.push(lines[earlier]);
    assert forall|kind: AnnotationKind|
        annotations_of_lines(longer, targets).contains(kind) <==> annotations_of_lines(
            lines,
            targets,
        ).contains(kind) by {
        if annotations_of_lines(longer, targets).contains(kind) {
            let i = choose|i: int|
                0 <= i < longer.len() && latches(#[trigger] longer[i], targets, kind);
            if i < lines.len() {
                assert(latches(lines[i], targets, kind));
            } else {
                assert(latches(lines[earlier], targets, kind));
            }
        }
        if annotations_of_lines(lines, targets).contains(kind) {
            let i = choose|i: int|
                0 <= i < lines.len() && latches(#[trigger] lines[i], targets, kind);
            assert(latches(longer[i], targets, kind));
        }
    }
    assert(annotations_of_lines(longer, targets) =~= annotations_of_lines(lines, targets));
}

/// However many lines of a message latch a kind, the message carries each
/// kind at most once: what is found is a set of the five kinds, and a line
/// adds at most the one kind that it announces.
pub proof fn lemma_line_adds_at_most_one_kind(
    lines: Seq<Seq<char>>,
    line: Seq<char>,
    targets: Seq<Seq<char>>,
)
    ensures
        annotations_of_lines(lines.push(line), targets) == annotations_of_lines(lines, targets)
            || (exists|kind: AnnotationKind|
            latches(line, targets, kind) && #[trigger] annotations_of_lines(
                lines,
                targets,
            ).insert(kind) == annotations_of_lines(lines.push(line), targets)),
{
    let longer = lines.push(line);
    assert(longer.take(lines.len() as int) == lines);
    assert(longer.take(lines.len() as int + 1) == longer);
    lemma_one_more_line(longer, lines.len() as int, targets);
    match line_kind(line) {
        Some(kind) => {
            if mentions_target(line, targets) {
                assert(latches(line, targets, kind));
                assert(annotations_of_lines(lines, targets).insert(kind) == annotations_of_lines(
                    longer,
                    targets,
                ));
            }
        },
        None => {},
    }
}

} // verus!
