//! Audits a commit history for the footprint of one or more identities: how
//! many commits an identity wrote, and how often others acknowledged it in
//! the trailers of their commit messages.
//!
//! The walk over a history is an [`Audit`]. It is handed the commits most
//! recent first, stops at the first commit that is earlier than the cutoff,
//! classifies every commit before that one against the target identities
//! and keeps the counters of the run, from which the report is made.

pub mod dates;
pub mod error;
pub mod identity;
pub mod kinds;
pub mod lines;
pub mod report;
pub mod stream;
pub mod text;
pub mod totals;
pub mod trailer;

pub use crate::error::AuditError;
pub use crate::identity::MatchMode;
pub use crate::identity::TargetIdentitySet;
pub use crate::kinds::AnnotationKind;
pub use crate::kinds::AnnotationSet;
pub use crate::stream::scan;
pub use crate::stream::Audit;
pub use crate::stream::CommitRecord;
pub use crate::stream::Step;
pub use crate::totals::Bucket;
pub use crate::totals::ClassificationResult;
pub use crate::totals::ReportMode;
pub use crate::totals::RunTotals;
pub use crate::trailer::analyze_trailers;
pub use crate::trailer::classify;
