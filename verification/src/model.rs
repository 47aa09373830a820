//! The ledger as a mathematical state, and what each operation makes of it.
//!
//! Every operation is described by three functions of the state before it:
//! the error it is refused with, if any; the state after it; and the receipt
//! it hands to the host. The checks of an operation are made in the order in
//! which its refusal function lists them.

use vstd::prelude::*;
use crate::error::QuidError;
use crate::receipt::{AccountView, EventView, ReceiptView, TransferView};
use crate::types::{DataKeyView, MissionStatus, MissionView, SubmissionStatus, SubmissionView};

verus! {

/// The creation time recorded for a mission made at `now`: never zero.
pub open spec fn creation_stamp(now: u64) -> u64 {
    if now == 0 {
        1
    } else {
        now
    }
}

/// Everything the ledger knows.
#[verifier::ext_equal]
pub struct LedgerState {
    /// How many missions have been created; also the last id handed out.
    pub mission_count: u64,
    /// The missions by id.
    pub missions: Map<u64, MissionView>,
    /// The submissions by mission id and hunter.
    pub submissions: Map<(u64, Seq<char>), SubmissionView>,
}

impl LedgerState {
    /// The ledger before anything was created.
    pub open spec fn empty() -> LedgerState {
        LedgerState { mission_count: 0, missions: Map::empty(), submissions: Map::empty() }
    }

    /// Every mission is stored under its own id, which the counter has
    /// handed out, and is well formed; every submission is stored under its
    /// own hunter.
    pub open spec fn well_formed(self) -> bool {
        &&& forall|id: u64| #[trigger]
            self.missions.contains_key(id) ==> {
                &&& self.missions[id].id == id
                &&& 1 <= id <= self.mission_count
                &&& self.missions[id].well_formed()
            }
        &&& forall|key: (u64, Seq<char>)| #[trigger]
            self.submissions.contains_key(key) ==> self.submissions[key].hunter == key.1
    }

    /// The record kept under `key` did not change from `self` to `after`.
    pub open spec fn same_record(self, after: LedgerState, key: DataKeyView) -> bool {
        match key {
            DataKeyView::Mission(id) => self.missions.contains_key(id)
                == after.missions.contains_key(id) && (self.missions.contains_key(id)
                ==> self.missions[id] == after.missions[id]),
            DataKeyView::MissionCount => self.mission_count == after.mission_count,
            DataKeyView::Submission(id, hunter) => self.submissions.contains_key((id, hunter))
                == after.submissions.contains_key((id, hunter)) && (
            self.submissions.contains_key((id, hunter)) ==> self.submissions[(id, hunter)]
                == after.submissions[(id, hunter)]),
        }
    }

    /// What a lookup of the mission under `mission_id` returns.
    pub open spec fn lookup(self, mission_id: u64) -> Result<MissionView, QuidError> {
        if self.missions.contains_key(mission_id) {
            Ok(self.missions[mission_id])
        } else {
            Err(QuidError::MissionNotFound)
        }
    }

    // ----- creating a mission -------------------------------------------

    /// Why a mission cannot be created: the caller is not the owner, the
    /// reward is not positive, or the pool for all slots does not fit.
    pub open spec fn create_refusal(
        caller: Seq<char>,
        owner: Seq<char>,
        reward_amount: i128,
        max_participants: u32,
    ) -> Option<QuidError> {
        if caller != owner {
            Some(QuidError::NotAuthorized)
        } else if reward_amount <= 0 {
            Some(QuidError::NegativeReward)
        } else if reward_amount * max_participants > i128::MAX {
            Some(QuidError::NegativeReward)
        } else {
            None
        }
    }

    /// The mission that a creation stores.
    pub open spec fn created_mission(
        self,
        owner: Seq<char>,
        title: Seq<char>,
        description_cid: Seq<char>,
        reward_token: Seq<char>,
        reward_amount: i128,
        max_participants: u32,
        now: u64,
    ) -> MissionView {
        MissionView {
            id: (self.mission_count + 1) as u64,
            owner,
            title,
            description_cid,
            reward_token,
            reward_amount,
            max_participants,
            participants_count: 0,
            status: MissionStatus::Created,
            created_at: creation_stamp(now),
        }
    }

    /// The ledger after `mission` was created in it.
    pub open spec fn after_create(self, mission: MissionView) -> LedgerState {
        LedgerState {
            mission_count: mission.id,
            missions: self.missions.insert(mission.id, mission),
            submissions: self.submissions,
        }
    }

    /// What creating `mission` asks of the host: the whole pool moves from
    /// the owner into escrow.
    pub open spec fn create_receipt(mission: MissionView) -> ReceiptView {
        ReceiptView {
            mission_id: mission.id,
            transfer: Some(
                TransferView {
                    token: mission.reward_token,
                    from: AccountView::Holder(mission.owner),
                    to: AccountView::Escrow,
                    amount: (mission.reward_amount * mission.max_participants) as i128,
                },
            ),
            event: Some(EventView::MissionCreated { mission_id: mission.id, owner: mission.owner }),
            writes: seq![DataKeyView::Mission(mission.id), DataKeyView::MissionCount],
        }
    }

    // ----- handing in work ----------------------------------------------

    /// Why a submission cannot be made.
    pub open spec fn submit_refusal(
        self,
        caller: Seq<char>,
        mission_id: u64,
        hunter: Seq<char>,
    ) -> Option<QuidError> {
        if caller != hunter {
            Some(QuidError::NotAuthorized)
        } else if !self.missions.contains_key(mission_id) {
            Some(QuidError::MissionNotFound)
        } else if !self.missions[mission_id].status.spec_accepts_submissions() {
            Some(QuidError::MissionNotOpen)
        } else if self.missions[mission_id].at_capacity() {
            Some(QuidError::MissionFull)
        } else if self.submissions.contains_key((mission_id, hunter)) {
            Some(QuidError::AlreadySubmitted)
        } else {
            None
        }
    }

    /// The ledger after the hunter's work was taken.
    pub open spec fn after_submit(
        self,
        mission_id: u64,
        hunter: Seq<char>,
        ipfs_cid: Seq<char>,
        now: u64,
    ) -> LedgerState {
        LedgerState {
            submissions: self.submissions.insert(
                (mission_id, hunter),
                SubmissionView {
                    hunter,
                    ipfs_cid,
                    status: SubmissionStatus::Pending,
                    submitted_at: now,
                },
            ),
            ..self
        }
    }

    /// What a submission asks of the host: no tokens move.
    pub open spec fn submit_receipt(mission_id: u64, hunter: Seq<char>) -> ReceiptView {
        ReceiptView {
            mission_id,
            transfer: None,
            event: Some(EventView::SubmissionCreated { mission_id, hunter }),
            writes: seq![DataKeyView::Submission(mission_id, hunter)],
        }
    }

    // ----- editing work -------------------------------------------------

    /// Why a submission cannot be edited.
    pub open spec fn edit_refusal(
        self,
        caller: Seq<char>,
        mission_id: u64,
        hunter: Seq<char>,
    ) -> Option<QuidError> {
        if caller != hunter {
            Some(QuidError::NotAuthorized)
        } else if !self.missions.contains_key(mission_id) {
            Some(QuidError::MissionNotFound)
        } else if !self.missions[mission_id].status.spec_accepts_edits() {
            Some(QuidError::MissionNotOpen)
        } else if !self.submissions.contains_key((mission_id, hunter)) {
            Some(QuidError::SubmissionNotFound)
        } else if self.submissions[(mission_id, hunter)].status == SubmissionStatus::Paid {
            Some(QuidError::AlreadyPaid)
        } else {
            None
        }
    }

    /// The ledger after the submission's content pointer was replaced.
    pub open spec fn after_edit(
        self,
        mission_id: u64,
        hunter: Seq<char>,
        ipfs_cid: Seq<char>,
    ) -> LedgerState {
        LedgerState {
            submissions: self.submissions.insert(
                (mission_id, hunter),
                SubmissionView { ipfs_cid, ..self.submissions[(mission_id, hunter)] },
            ),
            ..self
        }
    }

    /// What an edit asks of the host: to store the submission.
    pub open spec fn edit_receipt(mission_id: u64, hunter: Seq<char>) -> ReceiptView {
        ReceiptView {
            mission_id,
            transfer: None,
            event: None,
            writes: seq![DataKeyView::Submission(mission_id, hunter)],
        }
    }

    // ----- paying a participant -----------------------------------------

    /// Why a hunter cannot be paid.
    pub open spec fn payout_refusal(
        self,
        caller: Seq<char>,
        mission_id: u64,
        hunter: Seq<char>,
    ) -> Option<QuidError> {
        if !self.missions.contains_key(mission_id) {
            Some(QuidError::MissionNotFound)
        } else if caller != self.missions[mission_id].owner {
            Some(QuidError::NotAuthorized)
        } else if self.missions[mission_id].status.spec_is_terminal() {
            Some(QuidError::MissionClosed)
        } else if !self.submissions.contains_key((mission_id, hunter)) {
            Some(QuidError::SubmissionNotFound)
        } else if self.submissions[(mission_id, hunter)].status == SubmissionStatus::Paid {
            Some(QuidError::AlreadyPaid)
        } else if self.submissions[(mission_id, hunter)].status != SubmissionStatus::Pending {
            Some(QuidError::NotPending)
        } else if !self.missions[mission_id].has_free_slot() {
            Some(QuidError::MissionFull)
        } else {
            None
        }
    }

    /// The mission after one more participant was paid: it is completed when
    /// that fills its last slot.
    pub open spec fn paid_mission(mission: MissionView) -> MissionView {
        let count = (mission.participants_count + 1) as u32;
        MissionView {
            participants_count: count,
            status: if mission.is_bounded() && count == mission.max_participants {
                MissionStatus::Completed
            } else {
                mission.status
            },
            ..mission
        }
    }

    /// The ledger after the hunter was paid.
    pub open spec fn after_payout(self, mission_id: u64, hunter: Seq<char>) -> LedgerState {
        LedgerState {
            missions: self.missions.insert(
                mission_id,
                Self::paid_mission(self.missions[mission_id]),
            ),
            submissions: self.submissions.insert(
                (mission_id, hunter),
                SubmissionView {
                    status: SubmissionStatus::Paid,
                    ..self.submissions[(mission_id, hunter)]
                },
            ),
            ..self
        }
    }

    /// What a payout asks of the host: one reward moves from escrow to the
    /// hunter.
    pub open spec fn payout_receipt(self, mission_id: u64, hunter: Seq<char>) -> ReceiptView {
        ReceiptView {
            mission_id,
            transfer: Some(
                TransferView {
                    token: self.missions[mission_id].reward_token,
                    from: AccountView::Escrow,
                    to: AccountView::Holder(hunter),
                    amount: self.missions[mission_id].reward_amount,
                },
            ),
            event: Some(EventView::PayoutCompleted { mission_id, hunter }),
            writes: seq![
                DataKeyView::Mission(mission_id),
                DataKeyView::Submission(mission_id, hunter),
            ],
        }
    }

    // ----- cancelling a mission -----------------------------------------

    /// Why a mission cannot be cancelled.
    pub open spec fn cancel_refusal(self, caller: Seq<char>, mission_id: u64) -> Option<
        QuidError,
    > {
        if !self.missions.contains_key(mission_id) {
            Some(QuidError::MissionNotFound)
        } else if caller != self.missions[mission_id].owner {
            Some(QuidError::NotAuthorized)
        } else if self.missions[mission_id].status.spec_is_terminal() {
            Some(QuidError::MissionClosed)
        } else if self.missions[mission_id].unfilled_value() > i128::MAX {
            Some(QuidError::NegativeReward)
        } else {
            None
        }
    }

    /// What a cancellation asks of the host: the value of the unfilled slots
    /// goes back to the owner, if there is any.
    pub open spec fn cancel_receipt(self, mission_id: u64) -> ReceiptView {
        let mission = self.missions[mission_id];
        ReceiptView {
            mission_id,
            transfer: if mission.unfilled_value() > 0 {
                Some(
                    TransferView {
                        token: mission.reward_token,
                        from: AccountView::Escrow,
                        to: AccountView::Holder(mission.owner),
                        amount: mission.unfilled_value() as i128,
                    },
                )
            } else {
                None
            },
            event: Some(EventView::MissionCancelled { mission_id }),
            writes: seq![DataKeyView::Mission(mission_id)],
        }
    }

    // ----- setting a status ---------------------------------------------

    /// Why a mission's status cannot be set. Nothing is asked of the status
    /// the mission has or is given: this is the owner's override.
    pub open spec fn status_refusal(self, caller: Seq<char>, mission_id: u64) -> Option<
        QuidError,
    > {
        if !self.missions.contains_key(mission_id) {
            Some(QuidError::MissionNotFound)
        } else if caller != self.missions[mission_id].owner {
            Some(QuidError::NotAuthorized)
        } else {
            None
        }
    }

    /// The ledger after the mission was given `status`. Cancelling and
    /// pausing end here too.
    pub open spec fn after_status(self, mission_id: u64, status: MissionStatus) -> LedgerState {
        LedgerState {
            missions: self.missions.insert(
                mission_id,
                self.missions[mission_id].with_status(status),
            ),
            ..self
        }
    }

    /// What setting a status asks of the host.
    pub open spec fn status_receipt(mission_id: u64, status: MissionStatus) -> ReceiptView {
        ReceiptView {
            mission_id,
            transfer: None,
            event: Some(EventView::MissionStatusUpdated { mission_id, status }),
            writes: seq![DataKeyView::Mission(mission_id)],
        }
    }
}

} // verus!
