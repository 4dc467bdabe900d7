//! The status parser: maps one of seven recognized labels to an
//! acceptance tier plus flagship and invited flags.

use vstd::prelude::*;
use crate::errors::GoalError;
use crate::text::{trim, trim_spec, str_eq};

verus! {

/// The acceptance tier of a goal.
#[derive(Debug, Clone, Copy, PartialEq, Eq, Structural)]
pub enum AcceptanceStatus {
    Proposed,
    Accepted,
    NotAccepted,
}

/// The structured status of a goal, derived from its status label.
#[derive(Debug, Clone, Copy, PartialEq, Eq, Structural)]
pub struct Status {
    /// True for a flagship goal (or flagship candidate).
    pub is_flagship: bool,
    pub acceptance: AcceptanceStatus,
    /// True for an invited goal, one that lacks a primary owner.
    pub is_invited: bool,
}

/// The status each recognized label stands for; `None` for any other
/// (already trimmed) label.
pub open spec fn status_of_label(s: Seq<char>) -> Option<Status> {
    if s == "Flagship"@ {
        Some(Status { is_flagship: true, acceptance: AcceptanceStatus::Accepted, is_invited: false })
    } else if s == "Accepted"@ {
        Some(Status { is_flagship: false, acceptance: AcceptanceStatus::Accepted, is_invited: false })
    } else if s == "Invited"@ {
        Some(Status { is_flagship: false, acceptance: AcceptanceStatus::Accepted, is_invited: true })
    } else if s == "Proposed"@ {
        Some(Status { is_flagship: false, acceptance: AcceptanceStatus::Proposed, is_invited: false })
    } else if s == "Proposed for flagship"@ {
        Some(Status { is_flagship: true, acceptance: AcceptanceStatus::Proposed, is_invited: false })
    } else if s == "Proposed for mentorship"@ {
        Some(Status { is_flagship: false, acceptance: AcceptanceStatus::Proposed, is_invited: true })
    } else if s == "Not accepted"@ {
        Some(Status { is_flagship: false, acceptance: AcceptanceStatus::NotAccepted, is_invited: false })
    } else {
        None
    }
}

impl Status {
    /// Parse a status label: the label is trimmed, then matched exactly
    /// against the seven recognized labels; anything else is rejected.
    pub fn parse(label: &str) -> (r: Result<Status, GoalError>)
        ensures
            match r {
                Ok(st) => status_of_label(trim_spec(label@)) == Some(st),
                Err(e) => status_of_label(trim_spec(label@)) is None
                    && (e matches GoalError::InvalidStatus { found } && found@ == trim_spec(label@)),
            },
    {
        let value = trim(label);
        if str_eq(value.as_str(), "Flagship") {
            Ok(Status { is_flagship: true, acceptance: AcceptanceStatus::Accepted, is_invited: false })
        } else if str_eq(value.as_str(), "Accepted") {
            Ok(Status { is_flagship: false, acceptance: AcceptanceStatus::Accepted, is_invited: false })
        } else if str_eq(value.as_str(), "Invited") {
            Ok(Status { is_flagship: false, acceptance: AcceptanceStatus::Accepted, is_invited: true })
        } else if str_eq(value.as_str(), "Proposed") {
            Ok(Status { is_flagship: false, acceptance: AcceptanceStatus::Proposed, is_invited: false })
        } else if str_eq(value.as_str(), "Proposed for flagship") {
            Ok(Status { is_flagship: true, acceptance: AcceptanceStatus::Proposed, is_invited: false })
        } else if str_eq(value.as_str(), "Proposed for mentorship") {
            Ok(Status { is_flagship: false, acceptance: AcceptanceStatus::Proposed, is_invited: true })
        } else if str_eq(value.as_str(), "Not accepted") {
            Ok(Status { is_flagship: false, acceptance: AcceptanceStatus::NotAccepted, is_invited: false })
        } else {
            Err(GoalError::InvalidStatus { found: value })
        }
    }

    /// True if this goal has not been rejected: its acceptance is
    /// `Proposed` or `Accepted`.
    pub fn is_not_not_accepted(&self) -> (r: bool)
        ensures
            r == (self.acceptance != AcceptanceStatus::NotAccepted),
    {
        self.acceptance != AcceptanceStatus::NotAccepted
    }
}

} // verus!
