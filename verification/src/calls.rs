//! Calls of the operations as values, so that one can speak of any call and
//! of any number of them.

use vstd::prelude::*;
use crate::error::QuidError;
use crate::model::LedgerState;
use crate::receipt::ReceiptView;
use crate::types::{MissionStatus, SubmissionStatus};

verus! {

/// A call of one of the operations that change the ledger, with what it was
/// called with.
pub enum Call {
    Create {
        caller: Seq<char>,
        owner: Seq<char>,
        title: Seq<char>,
        description_cid: Seq<char>,
        reward_token: Seq<char>,
        reward_amount: i128,
        max_participants: u32,
        now: u64,
    },
    Submit { caller: Seq<char>, mission_id: u64, hunter: Seq<char>, ipfs_cid: Seq<char>, now: u64 },
    Edit { caller: Seq<char>, mission_id: u64, hunter: Seq<char>, ipfs_cid: Seq<char> },
    Payout { caller: Seq<char>, mission_id: u64, hunter: Seq<char> },
    Cancel { caller: Seq<char>, mission_id: u64 },
    Pause { caller: Seq<char>, mission_id: u64 },
    SetStatus { caller: Seq<char>, mission_id: u64, status: MissionStatus },
}

impl LedgerState {
    /// The call can be made at all: a creation needs an id to hand out.
    pub open spec fn admits(self, call: Call) -> bool {
        call is Create ==> self.mission_count < u64::MAX
    }

    /// The error the call is refused with, if any.
    pub open spec fn refusal(self, call: Call) -> Option<QuidError> {
        match call {
            Call::Create { caller, owner, reward_amount, max_participants, .. } => {
                Self::create_refusal(caller, owner, reward_amount, max_participants)
            },
            Call::Submit { caller, mission_id, hunter, .. } => self.submit_refusal(
                caller,
                mission_id,
                hunter,
            ),
            Call::Edit { caller, mission_id, hunter, .. } => self.edit_refusal(
                caller,
                mission_id,
                hunter,
            ),
            Call::Payout { caller, mission_id, hunter } => self.payout_refusal(
                caller,
                mission_id,
                hunter,
            ),
            Call::Cancel { caller, mission_id } => self.cancel_refusal(caller, mission_id),
            Call::Pause { caller, mission_id } => self.status_refusal(caller, mission_id),
            Call::SetStatus { caller, mission_id, .. } => self.status_refusal(caller, mission_id),
        }
    }

    /// The ledger after the call, where the call is not refused.
    pub open spec fn accepted(self, call: Call) -> LedgerState {
        match call {
            Call::Create {
                owner,
                title,
                description_cid,
                reward_token,
                reward_amount,
                max_participants,
                now,
                ..
            } => self.after_create(
                self.created_mission(
                    owner,
                    title,
                    description_cid,
                    reward_token,
                    reward_amount,
                    max_participants,
                    now,
                ),
            ),
            Call::Submit { mission_id, hunter, ipfs_cid, now, .. } => self.after_submit(
                mission_id,
                hunter,
                ipfs_cid,
                now,
            ),
            Call::Edit { mission_id, hunter, ipfs_cid, .. } => self.after_edit(
                mission_id,
                hunter,
                ipfs_cid,
            ),
            Call::Payout { mission_id, hunter, .. } => self.after_payout(mission_id, hunter),
            Call::Cancel { mission_id, .. } => self.after_status(
                mission_id,
                MissionStatus::Cancelled,
            ),
            Call::Pause { mission_id, .. } => self.after_status(mission_id, MissionStatus::Paused),
            Call::SetStatus { mission_id, status, .. } => self.after_status(mission_id, status),
        }
    }

    /// The receipt of the call, where the call is not refused.
    pub open spec fn receipt(self, call: Call) -> ReceiptView {
        match call {
            Call::Create {
                owner,
                title,
                description_cid,
                reward_token,
                reward_amount,
                max_participants,
                now,
                ..
            } => Self::create_receipt(
                self.created_mission(
                    owner,
                    title,
                    description_cid,
                    reward_token,
                    reward_amount,
                    max_participants,
                    now,
                ),
            ),
            Call::Submit { mission_id, hunter, .. } => Self::submit_receipt(mission_id, hunter),
            Call::Edit { mission_id, hunter, .. } => Self::edit_receipt(mission_id, hunter),
            Call::Payout { mission_id, hunter, .. } => self.payout_receipt(mission_id, hunter),
            Call::Cancel { mission_id, .. } => self.cancel_receipt(mission_id),
            Call::Pause { mission_id, .. } => Self::status_receipt(
                mission_id,
                MissionStatus::Paused,
            ),
            Call::SetStatus { mission_id, status, .. } => Self::status_receipt(
                mission_id,
                status,
            ),
        }
    }

    /// What the escrow owes to the mission under this id: nothing where there
    /// is no such mission.
    pub open spec fn owed_to(self, mission_id: u64) -> int {
        if self.missions.contains_key(mission_id) {
            self.missions[mission_id].escrow_owed()
        } else {
            0
        }
    }

    /// The call is one whose tokens follow the slots it opens, fills or
    /// gives up. That leaves out a payout on a mission without a limit, for
    /// which nothing was put in escrow, and a change of status by hand that
    /// closes an open mission or opens a closed one.
    pub open spec fn settles_in_escrow(self, call: Call) -> bool {
        match call {
            Call::Payout { mission_id, .. } => self.missions[mission_id].is_bounded(),
            Call::Pause { mission_id, .. } => !self.missions[mission_id].status.spec_is_terminal(),
            Call::SetStatus { mission_id, status, .. } => status.spec_is_terminal()
                == self.missions[mission_id].status.spec_is_terminal(),
            _ => true,
        }
    }

    /// The ledger after the call: changed where the call is accepted, the
    /// same where it is refused or cannot be made.
    pub open spec fn step(self, call: Call) -> LedgerState {
        if self.admits(call) && self.refusal(call) is None {
            self.accepted(call)
        } else {
            self
        }
    }

    /// The ledger after the calls, made in order from the first.
    pub open spec fn run(self, calls: Seq<Call>) -> LedgerState
        decreases calls.len(),
    {
        if calls.len() == 0 {
            self
        } else {
            self.run(calls.drop_last()).step(calls.last())
        }
    }

    /// `later` keeps all that `self` has settled: every mission is still
    /// there under its terms, with no fewer participants paid; every
    /// submission is still there for its hunter and its time, and one that
    /// was paid is still paid.
    pub open spec fn kept_by(self, later: LedgerState) -> bool {
        &&& self.mission_count <= later.mission_count
        &&& forall|id: u64| #[trigger]
            self.missions.contains_key(id) ==> {
                let before = self.missions[id];
                let after = later.missions[id];
                &&& later.missions.contains_key(id)
                &&& after.id == before.id
                &&& after.owner == before.owner
                &&& after.title == before.title
                &&& after.description_cid == before.description_cid
                &&& after.reward_token == before.reward_token
                &&& after.reward_amount == before.reward_amount
                &&& after.max_participants == before.max_participants
                &&& after.created_at == before.created_at
                &&& after.participants_count >= before.participants_count
            }
        &&& forall|key: (u64, Seq<char>)| #[trigger]
            self.submissions.contains_key(key) ==> {
                let before = self.submissions[key];
                let after = later.submissions[key];
                &&& later.submissions.contains_key(key)
                &&& after.hunter == before.hunter
                &&& after.submitted_at == before.submitted_at
                &&& before.status == SubmissionStatus::Paid ==> after.status
                    == SubmissionStatus::Paid
            }
    }
}

} // verus!
