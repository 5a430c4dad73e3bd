//! The closed set of commit-message annotations that the audit recognizes.

use vstd::prelude::*;
use crate::text::chars_of;
use crate::text::has_prefix;
use crate::text::starts_with;

verus! {

/// A structured acknowledgement line of a commit message.
#[derive(Clone, Copy, Debug, PartialEq, Eq, Structural)]
pub enum AnnotationKind {
    SignedOffBy,
    ReviewedBy,
    AckedBy,
    TestedBy,
    ReportedBy,
}

/// How many kinds of annotation there are.
pub const KIND_COUNT: usize = 5;

impl AnnotationKind {
    /// The position of the kind in the fixed order in which prefixes are tried.
    pub open spec fn rank(self) -> int {
        match self {
            AnnotationKind::SignedOffBy => 0,
            AnnotationKind::ReviewedBy => 1,
            AnnotationKind::AckedBy => 2,
            AnnotationKind::TestedBy => 3,
            AnnotationKind::ReportedBy => 4,
        }
    }

    /// The kind at a position of the fixed order.
    pub open spec fn at_rank(rank: int) -> AnnotationKind {
        if rank == 0 {
            AnnotationKind::SignedOffBy
        } else if rank == 1 {
            AnnotationKind::ReviewedBy
        } else if rank == 2 {
            AnnotationKind::AckedBy
        } else if rank == 3 {
            AnnotationKind::TestedBy
        } else {
            AnnotationKind::ReportedBy
        }
    }

    /// The lower-case line prefix that marks the kind.
    pub open spec fn prefix_text(self) -> Seq<char> {
        match self {
            AnnotationKind::SignedOffBy => "signed-off-by:"@,
            AnnotationKind::ReviewedBy => "reviewed-by:"@,
            AnnotationKind::AckedBy => "acked-by:"@,
            AnnotationKind::TestedBy => "tested-by:"@,
            AnnotationKind::ReportedBy => "reported-by:"@,
        }
    }

    /// The kind at a position of the fixed order, if the position is one.
    pub fn from_rank(rank: usize) -> (kind: Option<AnnotationKind>)
        ensures
            rank < KIND_COUNT ==> kind == Some(AnnotationKind::at_rank(rank as int)),
            rank >= KIND_COUNT ==> kind is None,
            kind matches Some(k) ==> k.rank() == rank,
    {
        if rank == 0 {
            Some(AnnotationKind::SignedOffBy)
        } else if rank == 1 {
            Some(AnnotationKind::ReviewedBy)
        } else if rank == 2 {
            Some(AnnotationKind::AckedBy)
        } else if rank == 3 {
            Some(AnnotationKind::TestedBy)
        } else if rank == 4 {
            Some(AnnotationKind::ReportedBy)
        } else {
            None
        }
    }

    /// The lower-case line prefix that marks the kind.
    pub fn prefix(self) -> (text: &'static str)
        ensures
            text@ == self.prefix_text(),
    {
        match self {
            AnnotationKind::SignedOffBy => "signed-off-by:",
            AnnotationKind::ReviewedBy => "reviewed-by:",
            AnnotationKind::AckedBy => "acked-by:",
            AnnotationKind::TestedBy => "tested-by:",
            AnnotationKind::ReportedBy => "reported-by:",
        }
    }
}

/// The kind whose prefix a trimmed, lower-cased line starts with: the first
/// in the fixed order, or none.
pub open spec fn kind_of_line(line: Seq<char>) -> Option<AnnotationKind> {
    if starts_with(line, AnnotationKind::SignedOffBy.prefix_text()) {
        Some(AnnotationKind::SignedOffBy)
    } else if starts_with(line, AnnotationKind::ReviewedBy.prefix_text()) {
        Some(AnnotationKind::ReviewedBy)
    } else if starts_with(line, AnnotationKind::AckedBy.prefix_text()) {
        Some(AnnotationKind::AckedBy)
    } else if starts_with(line, AnnotationKind::TestedBy.prefix_text()) {
        Some(AnnotationKind::TestedBy)
    } else if starts_with(line, AnnotationKind::ReportedBy.prefix_text()) {
        Some(AnnotationKind::ReportedBy)
    } else {
        None
    }
}

/// Finds the kind of a trimmed, lower-cased line by trying the prefixes in
/// their fixed order.
pub fn classify_line(line: &[char]) -> (kind: Option<AnnotationKind>)
    ensures
        kind == kind_of_line(line@),
{
    let mut rank: usize = 0;
    while rank < KIND_COUNT
        invariant
            rank <= KIND_COUNT,
            forall|r: int|
                0 <= r < rank ==> !starts_with(
                    line@,
                    #[trigger] AnnotationKind::at_rank(r).prefix_text(),
                ),
        decreases KIND_COUNT - rank,
    {
        if let Some(kind) = AnnotationKind::from_rank(rank) {
            let prefix = chars_of(kind.prefix());
            if has_prefix(line, prefix.as_slice()) {
                proof {
                    lemma_ranks_cover();
                }
                return Some(kind);
            }
        }
        rank += 1;
    }
    proof {
        lemma_ranks_cover();
    }
    None
}

/// Every kind stands at its rank, and the ranks are the positions below the
/// number of kinds.
pub proof fn lemma_ranks_cover()
    ensures
        forall|kind: AnnotationKind|
            0 <= #[trigger] kind.rank() < KIND_COUNT && AnnotationKind::at_rank(kind.rank())
                == kind,
        AnnotationKind::at_rank(0) == AnnotationKind::SignedOffBy,
        AnnotationKind::at_rank(1) == AnnotationKind::ReviewedBy,
        AnnotationKind::at_rank(2) == AnnotationKind::AckedBy,
        AnnotationKind::at_rank(3) == AnnotationKind::TestedBy,
        AnnotationKind::at_rank(4) == AnnotationKind::ReportedBy,
{
}

/// No line starts with the prefixes of two different kinds, so the order in
/// which they are tried never decides between two candidates.
pub proof fn lemma_prefixes_exclusive(
    line: Seq<char>,
    first: AnnotationKind,
    second: AnnotationKind,
)
    requires
        starts_with(line, first.prefix_text()),
        starts_with(line, second.prefix_text()),
    ensures
        first == second,
{
    reveal_strlit("signed-off-by:");
    reveal_strlit("reviewed-by:");
    reveal_strlit("acked-by:");
    reveal_strlit("tested-by:");
    reveal_strlit("reported-by:");
    let p = first.prefix_text();
    let q = second.prefix_text();
    assert(line.subrange(0, p.len() as int)[0] == line[0]);
    assert(line.subrange(0, q.len() as int)[0] == line[0]);
    assert(line.subrange(0, p.len() as int)[2] == line[2]);
    assert(line.subrange(0, q.len() as int)[2] == line[2]);
}

/// Two sets of flags that hold the same kinds are the same set of flags.
pub proof fn lemma_same_kinds_same_set(first: AnnotationSet, second: AnnotationSet)
    requires
        first@ == second@,
    ensures
        first == second,
{
    assert(first.signed_off == first@.contains(AnnotationKind::SignedOffBy));
    assert(second.signed_off == second@.contains(AnnotationKind::SignedOffBy));
    assert(first.reviewed == first@.contains(AnnotationKind::ReviewedBy));
    assert(second.reviewed == second@.contains(AnnotationKind::ReviewedBy));
    assert(first.acked == first@.contains(AnnotationKind::AckedBy));
    assert(second.acked == second@.contains(AnnotationKind::AckedBy));
    assert(first.tested == first@.contains(AnnotationKind::TestedBy));
    assert(second.tested == second@.contains(AnnotationKind::TestedBy));
    assert(first.reported == first@.contains(AnnotationKind::ReportedBy));
    assert(second.reported == second@.contains(AnnotationKind::ReportedBy));
}

/// The kinds of annotation found in one commit message, each at most once.
#[derive(Clone, Copy, Debug, PartialEq, Eq, Structural)]
pub struct AnnotationSet {
    pub signed_off: bool,
    pub reviewed: bool,
    pub acked: bool,
    pub tested: bool,
    pub reported: bool,
}

impl View for AnnotationSet {
    type V = Set<AnnotationKind>;

    open spec fn view(&self) -> Set<AnnotationKind> {
        Set::new(|kind: AnnotationKind| self.holds(kind))
    }
}

impl AnnotationSet {
    /// Whether the flag of a kind is set.
    pub open spec fn holds(self, kind: AnnotationKind) -> bool {
        match kind {
            AnnotationKind::SignedOffBy => self.signed_off,
            AnnotationKind::ReviewedBy => self.reviewed,
            AnnotationKind::AckedBy => self.acked,
            AnnotationKind::TestedBy => self.tested,
            AnnotationKind::ReportedBy => self.reported,
        }
    }

    /// The set that holds no kind.
    pub fn empty() -> (set: AnnotationSet)
        ensures
            set@ == Set::<AnnotationKind>::empty(),
    {
        AnnotationSet {
            signed_off: false,
            reviewed: false,
            acked: false,
            tested: false,
            reported: false,
        }
    }

    /// Whether the set holds a kind.
    pub fn contains(&self, kind: AnnotationKind) -> (found: bool)
        ensures
            found == self@.contains(kind),
    {
        match kind {
            AnnotationKind::SignedOffBy => self.signed_off,
            AnnotationKind::ReviewedBy => self.reviewed,
            AnnotationKind::AckedBy => self.acked,
            AnnotationKind::TestedBy => self.tested,
            AnnotationKind::ReportedBy => self.reported,
        }
    }

    /// Latches a kind: the set holds it afterwards, whether or not it did before.
    pub fn insert(&mut self, kind: AnnotationKind)
        ensures
            final(self)@ == old(self)@.insert(kind),
    {
        match kind {
            AnnotationKind::SignedOffBy => {
                self.signed_off = true;
            },
            AnnotationKind::ReviewedBy => {
                self.reviewed = true;
            },
            AnnotationKind::AckedBy => {
                self.acked = true;
            },
            AnnotationKind::TestedBy => {
                self.tested = true;
            },
            AnnotationKind::ReportedBy => {
                self.reported = true;
            },
        }
    }

    /// Whether the set holds no kind.
    pub fn is_empty(&self) -> (none: bool)
        ensures
            none == (self@ == Set::<AnnotationKind>::empty()),
    {
        let some = self.signed_off || self.reviewed || self.acked || self.tested || self.reported;
        let none = !some;
        proof {
            if !none {
                let kind = if self.signed_off {
                    AnnotationKind::SignedOffBy
                } else if self.reviewed {
                    AnnotationKind::ReviewedBy
                } else if self.acked {
                    AnnotationKind::AckedBy
                } else if self.tested {
                    AnnotationKind::TestedBy
                } else {
                    AnnotationKind::ReportedBy
                };
                assert(self@.contains(kind));
            } else {
                assert(self@ =~= Set::<AnnotationKind>::empty());
            }
        }
        none
    }
}

} // verus!
