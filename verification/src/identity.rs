//! Target identities and the rule by which a candidate refers to one of them.

use vstd::prelude::*;
use crate::error::AuditError;
use crate::text::contains;
use crate::text::has_substring;
use crate::text::lowercase_of;
use crate::text::lowered_chars;
use crate::text::same_chars;
use crate::text::views_of;

verus! {

/// How a candidate is compared with a target identity.
#[derive(Clone, Copy, Debug, PartialEq, Eq, Structural)]
pub enum MatchMode {
    /// The candidate equals the target.
    Exact,
    /// The candidate holds the target as a substring.
    Substring,
}

/// The characters of a text that may be absent.
pub open spec fn text_of(text: Option<&str>) -> Option<Seq<char>> {
    match text {
        Some(s) => Some(s@),
        None => None,
    }
}

/// The lowercase forms of the given identity strings, in their order.
pub open spec fn lowered_all(emails: Seq<String>) -> Seq<Seq<char>> {
    emails.map_values(|email: String| lowercase_of(email@))
}

/// Whether a lower-cased candidate refers to one target under a mode.
pub open spec fn matches_one(candidate: Seq<char>, target: Seq<char>, mode: MatchMode) -> bool {
    match mode {
        MatchMode::Exact => candidate == target,
        MatchMode::Substring => contains(candidate, target),
    }
}

/// Whether a lower-cased candidate refers to at least one of the targets.
pub open spec fn matches_any(
    candidate: Seq<char>,
    targets: Seq<Seq<char>>,
    mode: MatchMode,
) -> bool {
    exists|i: int| 0 <= i < targets.len() && matches_one(candidate, #[trigger] targets[i], mode)
}

/// Whether a candidate that may be absent refers to one of the targets: an
/// absent one never does, a present one is lower-cased first.
pub open spec fn candidate_matches(
    candidate: Option<Seq<char>>,
    targets: Seq<Seq<char>>,
    mode: MatchMode,
) -> bool {
    match candidate {
        Some(text) => matches_any(lowercase_of(text), targets, mode),
        None => false,
    }
}

/// The identities that a run audits: at least one, each held in lowercase, in
/// the order in which they were configured.
pub struct TargetIdentitySet {
    entries: Vec<Vec<char>>,
}

impl View for TargetIdentitySet {
    type V = Seq<Seq<char>>;

    closed spec fn view(&self) -> Seq<Seq<char>> {
        views_of(self.entries@)
    }
}

impl TargetIdentitySet {
    #[verifier::type_invariant]
    spec fn well_formed(self) -> bool {
        self.entries.len() >= 1
    }

    /// Makes the set of the given identity strings, lower-casing each; there
    /// is no set of no identities.
    pub fn new(emails: &[String]) -> (set: Result<TargetIdentitySet, AuditError>)
        ensures
            emails.len() == 0 <==> set is Err,
            set matches Err(error) ==> error == AuditError::NoIdentity,
            set matches Ok(targets) ==> targets@ == lowered_all(emails@),
    {
        if emails.len() == 0 {
            return Err(AuditError::NoIdentity);
        }
        let mut entries: Vec<Vec<char>> = Vec::new();
        let mut i: usize = 0;
        while i < emails.len()
            invariant
                i <= emails.len(),
                views_of(entries@) == lowered_all(emails@.take(i as int)),
                entries.len() == i,
            decreases emails.len() - i,
        {
            let entry = lowered_chars(emails[i].as_str());
            let ghost before = entries@;
            entries.push(entry);
            proof {
                assert(emails@.take(i + 1) == emails@.take(i as int).push(emails@[i as int]));
                assert(views_of(entries@) == views_of(before).push(
                    lowercase_of(emails@[i as int]@),
                ));
                assert(lowered_all(emails@.take(i + 1)) == lowered_all(emails@.take(i as int)).push(
                    lowercase_of(emails@[i as int]@),
                ));
            }
            i += 1;
        }
        proof {
            assert(emails@.take(emails.len() as int) == emails@);
        }
        Ok(TargetIdentitySet { entries })
    }

    /// The number of identities, which is at least one.
    pub fn len(&self) -> (count: usize)
        ensures
            count == self@.len(),
            count >= 1,
    {
        proof {
            use_type_invariant(self);
        }
        self.entries.len()
    }

    /// Decides whether a candidate that is already in lowercase refers to one
    /// of the identities.
    pub fn matches_lowered(&self, candidate: &[char], mode: MatchMode) -> (found: bool)
        ensures
            found == matches_any(candidate@, self@, mode),
    {
        let mut i: usize = 0;
        while i < self.entries.len()
            invariant
                i <= self.entries.len(),
                forall|k: int|
                    0 <= k < i ==> !matches_one(candidate@, #[trigger] self@[k], mode),
            decreases self.entries.len() - i,
        {
            let target = self.entries[i].as_slice();
            let hit = match mode {
                MatchMode::Exact => same_chars(candidate, target),
                MatchMode::Substring => has_substring(candidate, target),
            };
            if hit {
                assert(matches_one(candidate@, self@[i as int], mode));
                return true;
            }
            i += 1;
        }
        false
    }

    /// Decides whether a candidate, such as the e-mail address of a commit's
    /// author, refers to one of the identities. Letter case is ignored; an
    /// absent candidate refers to none.
    pub fn matches(&self, candidate_email: Option<&str>, mode: MatchMode) -> (found: bool)
        ensures
            found == candidate_matches(text_of(candidate_email), self@, mode),
    {
        match candidate_email {
            Some(text) => {
                let lowered = lowered_chars(text);
                self.matches_lowered(lowered.as_slice(), mode)
            },
            None => false,
        }
    }
}

} // verus!
