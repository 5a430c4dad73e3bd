//! The ways in which the configuration of a run can be refused.

use vstd::prelude::*;
use vstd::string::StringExecFns;

verus! {

/// Why a run cannot start.
#[derive(Clone, Copy, Debug, PartialEq, Eq, Structural)]
pub enum AuditError {
    /// The lower bound of the time window is no calendar day written as
    /// year, month and day.
    InvalidSince,
    /// No identity was given to audit.
    NoIdentity,
}

impl AuditError {
    /// The words that describe the error.
    pub open spec fn message_text(self) -> Seq<char> {
        match self {
            AuditError::InvalidSince => "Invalid date format. Please use YYYY-MM-DD"@,
            AuditError::NoIdentity => "No identity given. Please name at least one"@,
        }
    }

    /// The words that describe the error.
    pub fn message(&self) -> (text: String)
        ensures
            text@ == self.message_text(),
    {
        match self {
            AuditError::InvalidSince => String::from_str(
                "Invalid date format. Please use YYYY-MM-DD",
            ),
            AuditError::NoIdentity => String::from_str(
                "No identity given. Please name at least one",
            ),
        }
    }
}

} // verus!
