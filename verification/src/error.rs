use vstd::prelude::*;

verus! {

/// Why the ledger refused an operation.
#[derive(Copy, Clone, Debug, PartialEq, Eq, Structural)]
pub enum QuidError {
    /// No mission is stored under the given id.
    MissionNotFound,
    /// The mission is completed or cancelled, which blocks the change.
    MissionClosed,
    /// Every participant slot of the mission is taken.
    MissionFull,
    /// The hunter already has a submission for the mission.
    AlreadySubmitted,
    /// Kept for hosts to report a token transfer that could not be made.
    InsufficientFunds,
    /// The authenticated caller is not the party the operation belongs to.
    NotAuthorized,
    /// The reward is not positive, or a reward total does not fit in `i128`.
    NegativeReward,
    /// Kept for guard violations that have no kind of their own.
    InvalidState,
    /// The submission has been paid before.
    AlreadyPaid,
    /// The hunter has no submission for the mission.
    SubmissionNotFound,
    /// The submission is neither pending nor paid.
    NotPending,
    /// The mission exists but does not take new or edited work right now.
    MissionNotOpen,
}

impl QuidError {
    /// The number under which hosts report this error.
    pub open spec fn spec_code(self) -> u32 {
        match self {
            QuidError::MissionNotFound => 1,
            QuidError::MissionClosed => 2,
            QuidError::MissionFull => 3,
            QuidError::AlreadySubmitted => 4,
            QuidError::InsufficientFunds => 5,
            QuidError::NotAuthorized => 6,
            QuidError::NegativeReward => 7,
            QuidError::InvalidState => 8,
            QuidError::AlreadyPaid => 9,
            QuidError::SubmissionNotFound => 10,
            QuidError::NotPending => 11,
            QuidError::MissionNotOpen => 12,
        }
    }

    /// The number under which hosts report this error.
    pub fn code(self) -> (c: u32)
        ensures
            c == self.spec_code(),
            1 <= c <= 12,
    {
        match self {
            QuidError::MissionNotFound => 1,
            QuidError::MissionClosed => 2,
            QuidError::MissionFull => 3,
            QuidError::AlreadySubmitted => 4,
            QuidError::InsufficientFunds => 5,
            QuidError::NotAuthorized => 6,
            QuidError::NegativeReward => 7,
            QuidError::InvalidState => 8,
            QuidError::AlreadyPaid => 9,
            QuidError::SubmissionNotFound => 10,
            QuidError::NotPending => 11,
            QuidError::MissionNotOpen => 12,
        }
    }
}

/// No two errors share a code.
pub proof fn law_codes_are_distinct(a: QuidError, b: QuidError)
    requires
        a.spec_code() == b.spec_code(),
    ensures
        a == b,
{
}

} // verus!
