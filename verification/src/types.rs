use vstd::prelude::*;
use crate::address::Address;

verus! {

/// Where a mission stands in its life.
///
/// `Created` is the open state: the mission takes submissions and edits.
/// `Completed` and `Cancelled` are terminal.
#[derive(Clone, Copy, Debug, Default, PartialEq, Eq, Structural)]
pub enum MissionStatus {
    #[default]
    Created,
    Started,
    Paused,
    Completed,
    Cancelled,
}

impl MissionStatus {
    /// Completed and cancelled missions take no payout and no cancellation.
    pub open spec fn spec_is_terminal(self) -> bool {
        self == MissionStatus::Completed || self == MissionStatus::Cancelled
    }

    /// New submissions are taken while the mission is created or started.
    pub open spec fn spec_accepts_submissions(self) -> bool {
        self == MissionStatus::Created || self == MissionStatus::Started
    }

    /// Submissions can be edited only while the mission is in its open state.
    pub open spec fn spec_accepts_edits(self) -> bool {
        self == MissionStatus::Created
    }

    #[verifier::when_used_as_spec(spec_is_terminal)]
    pub fn is_terminal(self) -> (b: bool)
        ensures
            b == self.spec_is_terminal(),
    {
        match self {
            MissionStatus::Completed => true,
            MissionStatus::Cancelled => true,
            _ => false,
        }
    }

    #[verifier::when_used_as_spec(spec_accepts_submissions)]
    pub fn accepts_submissions(self) -> (b: bool)
        ensures
            b == self.spec_accepts_submissions(),
    {
        match self {
            MissionStatus::Created => true,
            MissionStatus::Started => true,
            _ => false,
        }
    }

    #[verifier::when_used_as_spec(spec_accepts_edits)]
    pub fn accepts_edits(self) -> (b: bool)
        ensures
            b == self.spec_accepts_edits(),
    {
        match self {
            MissionStatus::Created => true,
            _ => false,
        }
    }
}

/// Where a submission stands. Only `Pending` and `Paid` are reached by the
/// ledger's operations; `Approved` and `Rejected` are kept for flows that
/// accept or reject work.
#[derive(Clone, Copy, Debug, Default, PartialEq, Eq, Structural)]
pub enum SubmissionStatus {
    #[default]
    Pending,
    Approved,
    Paid,
    Rejected,
}

/// A funded unit of work with a bounded or unbounded number of paid slots.
#[derive(Debug, PartialEq, Eq)]
pub struct Mission {
    pub id: u64,
    pub owner: Address,
    pub title: String,
    pub description_cid: String,
    pub reward_token: Address,
    /// What one participant is paid.
    pub reward_amount: i128,
    /// How many participants can be paid; 0 means no limit.
    pub max_participants: u32,
    /// How many participants have been paid.
    pub participants_count: u32,
    pub status: MissionStatus,
    pub created_at: u64,
}

/// A mission as a mathematical record.
pub struct MissionView {
    pub id: u64,
    pub owner: Seq<char>,
    pub title: Seq<char>,
    pub description_cid: Seq<char>,
    pub reward_token: Seq<char>,
    pub reward_amount: i128,
    pub max_participants: u32,
    pub participants_count: u32,
    pub status: MissionStatus,
    pub created_at: u64,
}

impl MissionView {
    /// A mission with `max_participants == 0` has no limit.
    pub open spec fn is_bounded(self) -> bool {
        self.max_participants != 0
    }

    /// The slots that can still be paid; an unbounded mission has none that
    /// were funded.
    pub open spec fn remaining_slots(self) -> int {
        if self.is_bounded() && self.participants_count <= self.max_participants {
            self.max_participants - self.participants_count
        } else {
            0
        }
    }

    /// What the escrow still holds for this mission's unfilled slots.
    pub open spec fn unfilled_value(self) -> int {
        self.remaining_slots() * self.reward_amount
    }

    /// What the escrow owes to this mission: the value of its unfilled slots
    /// while it can still pay or refund them, nothing once it is completed
    /// or cancelled.
    pub open spec fn escrow_owed(self) -> int {
        if self.status.spec_is_terminal() {
            0
        } else {
            self.unfilled_value()
        }
    }

    /// A bounded mission whose every slot has been paid.
    pub open spec fn at_capacity(self) -> bool {
        self.is_bounded() && self.participants_count >= self.max_participants
    }

    /// One more participant can be paid: a slot is left, and the counter has
    /// room for it.
    pub open spec fn has_free_slot(self) -> bool {
        !self.at_capacity() && self.participants_count < u32::MAX
    }

    /// What holds of every mission the ledger stores: the reward is positive,
    /// the paid participants stay within the limit, the full pool fits in
    /// `i128`, and the creation time is not zero.
    pub open spec fn well_formed(self) -> bool {
        &&& self.reward_amount > 0
        &&& self.is_bounded() ==> self.participants_count <= self.max_participants
        &&& self.reward_amount * self.max_participants <= i128::MAX
        &&& self.created_at != 0
    }

    pub open spec fn with_status(self, status: MissionStatus) -> MissionView {
        MissionView { status, ..self }
    }
}

impl View for Mission {
    type V = MissionView;

    open spec fn view(&self) -> MissionView {
        MissionView {
            id: self.id,
            owner: self.owner@,
            title: self.title@,
            description_cid: self.description_cid@,
            reward_token: self.reward_token@,
            reward_amount: self.reward_amount,
            max_participants: self.max_participants,
            participants_count: self.participants_count,
            status: self.status,
            created_at: self.created_at,
        }
    }
}

impl Mission {
    /// Whether this mission is one the ledger can store.
    pub fn is_well_formed(&self) -> (ok: bool)
        ensures
            ok == self@.well_formed(),
    {
        self.reward_amount > 0 && (self.max_participants == 0 || self.participants_count
            <= self.max_participants) && self.reward_amount.checked_mul(
            self.max_participants as i128,
        ).is_some() && self.created_at != 0
    }
}

impl Clone for Mission {
    fn clone(&self) -> (m: Mission)
        ensures
            m == *self,
    {
        Mission {
            id: self.id,
            owner: self.owner.clone(),
            title: self.title.clone(),
            description_cid: self.description_cid.clone(),
            reward_token: self.reward_token.clone(),
            reward_amount: self.reward_amount,
            max_participants: self.max_participants,
            participants_count: self.participants_count,
            status: self.status,
            created_at: self.created_at,
        }
    }
}

/// A hunter's single piece of work against one mission.
#[derive(Debug, PartialEq, Eq)]
pub struct Submission {
    pub hunter: Address,
    /// Where the work is stored.
    pub ipfs_cid: String,
    pub status: SubmissionStatus,
    pub submitted_at: u64,
}

/// A submission as a mathematical record.
pub struct SubmissionView {
    pub hunter: Seq<char>,
    pub ipfs_cid: Seq<char>,
    pub status: SubmissionStatus,
    pub submitted_at: u64,
}

impl View for Submission {
    type V = SubmissionView;

    open spec fn view(&self) -> SubmissionView {
        SubmissionView {
            hunter: self.hunter@,
            ipfs_cid: self.ipfs_cid@,
            status: self.status,
            submitted_at: self.submitted_at,
        }
    }
}

impl Clone for Submission {
    fn clone(&self) -> (s: Submission)
        ensures
            s == *self,
    {
        Submission {
            hunter: self.hunter.clone(),
            ipfs_cid: self.ipfs_cid.clone(),
            status: self.status,
            submitted_at: self.submitted_at,
        }
    }
}

/// The key under which a record of the ledger is kept.
#[derive(Debug, PartialEq, Eq)]
pub enum DataKey {
    /// The mission with this id.
    Mission(u64),
    /// The counter that hands out mission ids.
    MissionCount,
    /// The submission of this hunter for this mission.
    Submission(u64, Address),
}

/// A record key as a mathematical value.
pub enum DataKeyView {
    Mission(u64),
    MissionCount,
    Submission(u64, Seq<char>),
}

impl View for DataKey {
    type V = DataKeyView;

    open spec fn view(&self) -> DataKeyView {
        match self {
            DataKey::Mission(id) => DataKeyView::Mission(*id),
            DataKey::MissionCount => DataKeyView::MissionCount,
            DataKey::Submission(id, hunter) => DataKeyView::Submission(*id, hunter@),
        }
    }
}

} // verus!
