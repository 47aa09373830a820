//! What holds of the ledger whatever is asked of it.
//!
//! The laws speak of the mathematical state and of the functions that the
//! operations' contracts are written in, so each holds of every ledger and
//! every call the operations can see.

use vstd::prelude::*;
use crate::calls::Call;
use crate::error::QuidError;
use crate::model::LedgerState;
use crate::types::{DataKeyView, MissionStatus, SubmissionStatus};

verus! {

/// Creating a mission with a positive reward puts exactly the reward times
/// the number of slots into escrow, in the mission's token and out of the
/// owner's balance: nothing when the mission has no limit. That is also the
/// value of the new mission's unfilled slots.
pub proof fn law_creation_escrows_the_pool(
    s: LedgerState,
    caller: Seq<char>,
    owner: Seq<char>,
    title: Seq<char>,
    description_cid: Seq<char>,
    reward_token: Seq<char>,
    reward_amount: i128,
    max_participants: u32,
    now: u64,
)
    requires
        LedgerState::create_refusal(caller, owner, reward_amount, max_participants) is None,
    ensures
        ({
            let mission = s.created_mission(
                owner,
                title,
                description_cid,
                reward_token,
                reward_amount,
                max_participants,
                now,
            );
            let receipt = LedgerState::create_receipt(mission);
            &&& receipt.escrow_change(reward_token) == reward_amount * max_participants
            &&& receipt.holder_change(reward_token, owner) == -(reward_amount * max_participants)
            &&& max_participants == 0 ==> receipt.escrow_change(reward_token) == 0
            &&& mission.unfilled_value() == reward_amount * max_participants
            &&& forall|token: Seq<char>|
                token != reward_token ==> #[trigger] receipt.escrow_change(token) == 0
        }),
{
    assert(reward_amount * max_participants >= 0) by (nonlinear_arith)
        requires
            reward_amount > 0,
            max_participants >= 0,
    ;
    assert(max_participants * reward_amount == reward_amount * max_participants)
        by (nonlinear_arith);
}

/// A creation whose reward is zero or negative is refused, as a bad reward
/// when the caller is the owner, and a refused call changes nothing and asks
/// for no transfer.
pub proof fn law_nonpositive_reward_is_refused(
    s: LedgerState,
    caller: Seq<char>,
    owner: Seq<char>,
    title: Seq<char>,
    description_cid: Seq<char>,
    reward_token: Seq<char>,
    reward_amount: i128,
    max_participants: u32,
    now: u64,
)
    requires
        reward_amount <= 0,
    ensures
        ({
            let call = Call::Create {
                caller,
                owner,
                title,
                description_cid,
                reward_token,
                reward_amount,
                max_participants,
                now,
            };
            &&& s.refusal(call) is Some
            &&& caller == owner ==> s.refusal(call) == Some(QuidError::NegativeReward)
            &&& s.step(call) == s
        }),
{
}

/// A hunter has at most one submission for a mission: once one is taken, a
/// second for the same mission and hunter is refused as already submitted,
/// whatever it holds, and the first stays as it was taken.
pub proof fn law_one_submission_per_hunter(
    s: LedgerState,
    caller: Seq<char>,
    mission_id: u64,
    hunter: Seq<char>,
    ipfs_cid: Seq<char>,
    now: u64,
    second_cid: Seq<char>,
    second_now: u64,
)
    requires
        s.submit_refusal(caller, mission_id, hunter) is None,
    ensures
        ({
            let first = s.after_submit(mission_id, hunter, ipfs_cid, now);
            let second = Call::Submit {
                caller,
                mission_id,
                hunter,
                ipfs_cid: second_cid,
                now: second_now,
            };
            &&& first.refusal(second) == Some(QuidError::AlreadySubmitted)
            &&& first.step(second) == first
            &&& first.submissions[(mission_id, hunter)].ipfs_cid == ipfs_cid
            &&& first.submissions[(mission_id, hunter)].submitted_at == now
            &&& first.submissions[(mission_id, hunter)].status == SubmissionStatus::Pending
        }),
{
}

/// While a hunter has a submission for a mission, no further one is taken.
pub proof fn law_no_second_submission(
    s: LedgerState,
    caller: Seq<char>,
    mission_id: u64,
    hunter: Seq<char>,
)
    requires
        s.submissions.contains_key((mission_id, hunter)),
    ensures
        s.submit_refusal(caller, mission_id, hunter) is Some,
{
}

/// A hunter is paid once for a mission. The payout moves exactly one reward
/// from escrow to the hunter, which on a bounded mission is the value of the
/// slot it fills, and asking for it again is refused: as already paid while
/// the mission stays open, and as closed where that payout filled the
/// mission's last slot.
pub proof fn law_payout_is_made_once(
    s: LedgerState,
    caller: Seq<char>,
    mission_id: u64,
    hunter: Seq<char>,
)
    requires
        s.payout_refusal(caller, mission_id, hunter) is None,
    ensures
        ({
            let mission = s.missions[mission_id];
            let receipt = s.payout_receipt(mission_id, hunter);
            let paid = s.after_payout(mission_id, hunter);
            let again = Call::Payout { caller, mission_id, hunter };
            &&& receipt.holder_change(mission.reward_token, hunter) == mission.reward_amount
            &&& receipt.escrow_change(mission.reward_token) == -mission.reward_amount
            &&& paid.missions[mission_id].participants_count == mission.participants_count + 1
            &&& paid.submissions[(mission_id, hunter)].status == SubmissionStatus::Paid
            &&& paid.missions[mission_id].status != MissionStatus::Completed ==> paid.refusal(
                again,
            ) == Some(QuidError::AlreadyPaid)
            &&& paid.missions[mission_id].status == MissionStatus::Completed ==> paid.refusal(
                again,
            ) == Some(QuidError::MissionClosed)
            &&& paid.step(again) == paid
            &&& mission.is_bounded() ==> paid.missions[mission_id].unfilled_value()
                == mission.unfilled_value() - mission.reward_amount
        }),
{
    let mission = s.missions[mission_id];
    let reward = mission.reward_amount as int;
    let slots = mission.remaining_slots();
    if mission.is_bounded() {
        assert((slots - 1) * reward == slots * reward - reward) by (nonlinear_arith);
    }
}

/// Whatever the state of the mission, a paid submission is never paid again.
pub proof fn law_paid_submission_is_not_paid_again(
    s: LedgerState,
    caller: Seq<char>,
    mission_id: u64,
    hunter: Seq<char>,
)
    requires
        s.submissions.contains_key((mission_id, hunter)),
        s.submissions[(mission_id, hunter)].status == SubmissionStatus::Paid,
    ensures
        s.payout_refusal(caller, mission_id, hunter) is Some,
{
}

/// Cancelling a mission gives the owner back exactly the reward times the
/// slots that were not filled, out of escrow, and nothing for a mission
/// without a limit. The mission is then cancelled, and cancelling it again
/// is refused as closed and moves nothing.
pub proof fn law_cancel_refunds_unfilled_slots(s: LedgerState, caller: Seq<char>, mission_id: u64)
    requires
        s.well_formed(),
        s.cancel_refusal(caller, mission_id) is None,
    ensures
        ({
            let mission = s.missions[mission_id];
            let receipt = s.cancel_receipt(mission_id);
            let cancelled = s.after_status(mission_id, MissionStatus::Cancelled);
            let again = Call::Cancel { caller, mission_id };
            &&& mission.is_bounded() ==> receipt.holder_change(mission.reward_token, mission.owner)
                == (mission.max_participants - mission.participants_count) * mission.reward_amount
            &&& !mission.is_bounded() ==> receipt.transfer is None
            &&& receipt.escrow_change(mission.reward_token) == -mission.unfilled_value()
            &&& receipt.holder_change(mission.reward_token, mission.owner)
                == mission.unfilled_value()
            &&& cancelled.missions[mission_id].status == MissionStatus::Cancelled
            &&& cancelled.missions[mission_id].participants_count == mission.participants_count
            &&& cancelled.refusal(again) == Some(QuidError::MissionClosed)
            &&& cancelled.step(again) == cancelled
        }),
{
    let mission = s.missions[mission_id];
    assert(s.missions.contains_key(mission_id));
    assert(mission.well_formed());
    lemma_unfilled_value_fits(s, mission_id);
}

/// In a well-formed ledger the value of a mission's unfilled slots is never
/// negative and never more than the pool the mission was created with, so a
/// cancellation is never refused for a refund that does not fit.
pub proof fn lemma_unfilled_value_fits(s: LedgerState, mission_id: u64)
    requires
        s.well_formed(),
        s.missions.contains_key(mission_id),
    ensures
        0 <= s.missions[mission_id].unfilled_value() <= s.missions[mission_id].reward_amount
            * s.missions[mission_id].max_participants <= i128::MAX,
        forall|caller: Seq<char>| #[trigger]
            s.cancel_refusal(caller, mission_id) != Some(QuidError::NegativeReward),
{
    let mission = s.missions[mission_id];
    assert(mission.well_formed());
    let slots = mission.remaining_slots();
    let reward = mission.reward_amount as int;
    let max = mission.max_participants as int;
    assert(0 <= slots <= max);
    assert(0 <= slots * reward <= reward * max) by (nonlinear_arith)
        requires
            0 <= slots <= max,
            reward > 0,
    ;
}

/// Every call leaves a well-formed ledger well formed. So no bounded mission
/// ever has more participants paid than it has slots.
pub proof fn law_step_keeps_well_formed(s: LedgerState, call: Call)
    requires
        s.well_formed(),
    ensures
        s.step(call).well_formed(),
{
    let after = s.step(call);
    if s.admits(call) && s.refusal(call) is None {
        match call {
            Call::Create { .. } => {
                assert forall|id: u64| #[trigger] after.missions.contains_key(id) implies {
                    &&& after.missions[id].id == id
                    &&& 1 <= id <= after.mission_count
                    &&& after.missions[id].well_formed()
                } by {
                    if id != after.mission_count {
                        assert(s.missions.contains_key(id));
                    }
                }
            },
            Call::Submit { mission_id, hunter, .. } => {
                assert forall|key: (u64, Seq<char>)| #[trigger]
                    after.submissions.contains_key(key) implies after.submissions[key].hunter
                    == key.1 by {
                    if key != (mission_id, hunter) {
                        assert(s.submissions.contains_key(key));
                    }
                }
            },
            Call::Edit { mission_id, hunter, .. } => {
                assert(s.submissions.contains_key((mission_id, hunter)));
                assert forall|key: (u64, Seq<char>)| #[trigger]
                    after.submissions.contains_key(key) implies after.submissions[key].hunter
                    == key.1 by {
                    assert(s.submissions.contains_key(key));
                }
            },
            Call::Payout { mission_id, hunter, .. } => {
                assert(s.missions.contains_key(mission_id));
                assert(s.submissions.contains_key((mission_id, hunter)));
                assert forall|id: u64| #[trigger] after.missions.contains_key(id) implies {
                    &&& after.missions[id].id == id
                    &&& 1 <= id <= after.mission_count
                    &&& after.missions[id].well_formed()
                } by {
                    assert(s.missions.contains_key(id));
                }
                assert forall|key: (u64, Seq<char>)| #[trigger]
                    after.submissions.contains_key(key) implies after.submissions[key].hunter
                    == key.1 by {
                    assert(s.submissions.contains_key(key));
                }
            },
            Call::Cancel { mission_id, .. } => {
                lemma_status_keeps_well_formed(s, mission_id, MissionStatus::Cancelled);
            },
            Call::Pause { mission_id, .. } => {
                lemma_status_keeps_well_formed(s, mission_id, MissionStatus::Paused);
            },
            Call::SetStatus { mission_id, status, .. } => {
                lemma_status_keeps_well_formed(s, mission_id, status);
            },
        }
    }
}

/// Giving a stored mission another status leaves the ledger well formed.
proof fn lemma_status_keeps_well_formed(s: LedgerState, mission_id: u64, status: MissionStatus)
    requires
        s.well_formed(),
        s.missions.contains_key(mission_id),
    ensures
        s.after_status(mission_id, status).well_formed(),
{
    let after = s.after_status(mission_id, status);
    assert forall|id: u64| #[trigger] after.missions.contains_key(id) implies {
        &&& after.missions[id].id == id
        &&& 1 <= id <= after.mission_count
        &&& after.missions[id].well_formed()
    } by {
        assert(s.missions.contains_key(id));
    }
}

/// No call deletes or rewrites what is settled: missions keep their id,
/// owner, texts, token, reward, limit and creation time, and never count
/// fewer participants; submissions keep their hunter and their time, and a
/// paid one stays paid.
pub proof fn law_step_keeps_what_is_settled(s: LedgerState, call: Call)
    requires
        s.well_formed(),
    ensures
        s.kept_by(s.step(call)),
{
    let after = s.step(call);
    if s.admits(call) && s.refusal(call) is None {
        assert forall|id: u64| #[trigger] s.missions.contains_key(id) implies {
            let before = s.missions[id];
            let later = after.missions[id];
            &&& after.missions.contains_key(id)
            &&& later.id == before.id
            &&& later.owner == before.owner
            &&& later.title == before.title
            &&& later.description_cid == before.description_cid
            &&& later.reward_token == before.reward_token
            &&& later.reward_amount == before.reward_amount
            &&& later.max_participants == before.max_participants
            &&& later.created_at == before.created_at
            &&& later.participants_count >= before.participants_count
        } by {
            assert(1 <= id <= s.mission_count);
        }
    }
}

/// What holds of one call holds of any number of them: after the calls, made
/// in order, the ledger is well formed and keeps all that was settled before
/// them.
pub proof fn law_run_keeps_what_is_settled(s: LedgerState, calls: Seq<Call>)
    requires
        s.well_formed(),
    ensures
        s.run(calls).well_formed(),
        s.kept_by(s.run(calls)),
    decreases calls.len(),
{
    if calls.len() > 0 {
        let before = s.run(calls.drop_last());
        let after = s.run(calls);
        law_run_keeps_what_is_settled(s, calls.drop_last());
        law_step_keeps_well_formed(before, calls.last());
        law_step_keeps_what_is_settled(before, calls.last());
        assert forall|id: u64| #[trigger] s.missions.contains_key(id) implies {
            let first = s.missions[id];
            let last = after.missions[id];
            &&& after.missions.contains_key(id)
            &&& last.id == first.id
            &&& last.owner == first.owner
            &&& last.title == first.title
            &&& last.description_cid == first.description_cid
            &&& last.reward_token == first.reward_token
            &&& last.reward_amount == first.reward_amount
            &&& last.max_participants == first.max_participants
            &&& last.created_at == first.created_at
            &&& last.participants_count >= first.participants_count
        } by {
            assert(before.missions.contains_key(id));
        }
        assert forall|key: (u64, Seq<char>)| #[trigger] s.submissions.contains_key(key) implies {
            let first = s.submissions[key];
            let last = after.submissions[key];
            &&& after.submissions.contains_key(key)
            &&& last.hunter == first.hunter
            &&& last.submitted_at == first.submitted_at
            &&& first.status == SubmissionStatus::Paid ==> last.status == SubmissionStatus::Paid
        } by {
            assert(before.submissions.contains_key(key));
        }
    }
}

/// An accepted call changes no record but those its receipt names.
pub proof fn law_receipt_names_every_change(s: LedgerState, call: Call, key: DataKeyView)
    requires
        s.well_formed(),
        s.admits(call),
        s.refusal(call) is None,
        !s.receipt(call).writes.contains(key),
    ensures
        s.same_record(s.accepted(call), key),
{
    let writes = s.receipt(call).writes;
    assert(writes.len() >= 1);
    assert(writes[0] != key);
    if writes.len() >= 2 {
        assert(writes[1] != key);
    }
    match call {
        Call::Create { .. } => {
            let id = (s.mission_count + 1) as u64;
            if s.missions.contains_key(id) {
                assert(id <= s.mission_count);
            }
        },
        _ => {},
    }
}

/// The escrow holds what the open slots are worth, call by call: an accepted
/// call moves into or out of escrow exactly the amount by which it changes
/// what the escrow owes to its mission, in that mission's token, and it
/// changes what is owed to no other mission. This holds of the calls that
/// settle in escrow; a payout without a limit and a status set by hand across
/// the line between open and closed move the two apart.
pub proof fn law_escrow_follows_the_open_slots(s: LedgerState, call: Call, other: u64)
    requires
        s.well_formed(),
        s.admits(call),
        s.refusal(call) is None,
        s.settles_in_escrow(call),
        other != s.receipt(call).mission_id,
    ensures
        ({
            let receipt = s.receipt(call);
            let after = s.accepted(call);
            let token = after.missions[receipt.mission_id].reward_token;
            &&& after.missions.contains_key(receipt.mission_id)
            &&& receipt.escrow_change(token) == after.owed_to(receipt.mission_id) - s.owed_to(
                receipt.mission_id,
            )
            &&& forall|t: Seq<char>| t != token ==> #[trigger] receipt.escrow_change(t) == 0
            &&& after.owed_to(other) == s.owed_to(other)
        }),
{
    let receipt = s.receipt(call);
    let after = s.accepted(call);
    let id = receipt.mission_id;
    match call {
        Call::Create { reward_amount, max_participants, .. } => {
            if s.missions.contains_key(id) {
                assert(id <= s.mission_count);
            }
            assert(max_participants * reward_amount == reward_amount * max_participants)
                by (nonlinear_arith);
            assert(reward_amount * max_participants >= 0) by (nonlinear_arith)
                requires
                    reward_amount > 0,
                    max_participants >= 0,
            ;
        },
        Call::Payout { mission_id, hunter, caller } => {
            law_payout_is_made_once(s, caller, mission_id, hunter);
            let mission = s.missions[mission_id];
            assert(mission.well_formed());
            if after.missions[mission_id].status.spec_is_terminal() {
                assert(after.missions[mission_id].remaining_slots() == 0);
                assert(after.missions[mission_id].unfilled_value() == 0) by (nonlinear_arith)
                    requires
                        after.missions[mission_id].unfilled_value()
                            == after.missions[mission_id].remaining_slots()
                            * after.missions[mission_id].reward_amount,
                        after.missions[mission_id].remaining_slots() == 0,
                ;
            }
        },
        Call::Cancel { mission_id, .. } => {
            lemma_unfilled_value_fits(s, mission_id);
        },
        _ => {},
    }
}

/// A new mission gets an id that no mission has had: one more than the
/// counter, which every stored id stays below.
pub proof fn law_new_ids_are_fresh(s: LedgerState, call: Call, id: u64)
    requires
        s.well_formed(),
        s.admits(call),
        call is Create,
        s.refusal(call) is None,
        s.missions.contains_key(id),
    ensures
        s.receipt(call).mission_id == s.mission_count + 1,
        s.accepted(call).mission_count == s.mission_count + 1,
        id < s.receipt(call).mission_id,
        !s.missions.contains_key(s.receipt(call).mission_id),
        s.accepted(call).missions[id] == s.missions[id],
{
    let fresh = s.receipt(call).mission_id;
    if s.missions.contains_key(fresh) {
        assert(fresh <= s.mission_count);
    }
}

impl LedgerState {
    /// Every submission is pending or paid.
    pub open spec fn holds_pending_and_paid_only(self) -> bool {
        forall|key: (u64, Seq<char>)| #[trigger]
            self.submissions.contains_key(key) ==> self.submissions[key].status
                == SubmissionStatus::Pending || self.submissions[key].status
                == SubmissionStatus::Paid
    }

    /// No mission is started.
    pub open spec fn holds_no_started_mission(self) -> bool {
        forall|id: u64| #[trigger]
            self.missions.contains_key(id) ==> self.missions[id].status != MissionStatus::Started
    }
}

/// The operations make submissions pending and paid and nothing else: in a
/// ledger that grew from the empty one, none is approved or rejected.
pub proof fn law_submissions_are_pending_or_paid(calls: Seq<Call>)
    ensures
        LedgerState::empty().run(calls).holds_pending_and_paid_only(),
    decreases calls.len(),
{
    if calls.len() > 0 {
        law_submissions_are_pending_or_paid(calls.drop_last());
        let before = LedgerState::empty().run(calls.drop_last());
        let call = calls.last();
        let after = before.step(call);
        assert forall|key: (u64, Seq<char>)| #[trigger]
            after.submissions.contains_key(key) implies after.submissions[key].status
            == SubmissionStatus::Pending || after.submissions[key].status
            == SubmissionStatus::Paid by {
            if before.admits(call) && before.refusal(call) is None {
                match call {
                    Call::Submit { mission_id, hunter, .. } => {
                        if key != (mission_id, hunter) {
                            assert(before.submissions.contains_key(key));
                        }
                    },
                    Call::Edit { mission_id, hunter, .. } => {
                        assert(before.submissions.contains_key((mission_id, hunter)));
                        assert(before.submissions.contains_key(key));
                    },
                    Call::Payout { .. } => {
                        assert(before.submissions.contains_key(key));
                    },
                    _ => {
                        assert(before.submissions.contains_key(key));
                    },
                }
            } else {
                assert(before.submissions.contains_key(key));
            }
        }
    }
}

/// Only a status set by hand starts a mission: in a ledger that grew from
/// the empty one without such a call, no mission is started.
pub proof fn law_only_a_set_status_starts_a_mission(calls: Seq<Call>)
    requires
        forall|i: int| 0 <= i < calls.len() ==> !(#[trigger] calls[i] is SetStatus),
    ensures
        LedgerState::empty().run(calls).holds_no_started_mission(),
    decreases calls.len(),
{
    if calls.len() > 0 {
        let earlier = calls.drop_last();
        assert forall|i: int| 0 <= i < earlier.len() implies !(#[trigger] earlier[i]
            is SetStatus) by {
            assert(earlier[i] == calls[i]);
        }
        law_only_a_set_status_starts_a_mission(earlier);
        let before = LedgerState::empty().run(earlier);
        let call = calls.last();
        assert(call == calls[calls.len() - 1]);
        let after = before.step(call);
        assert forall|id: u64| #[trigger] after.missions.contains_key(id) implies after.missions[id].status
            != MissionStatus::Started by {
            if before.admits(call) && before.refusal(call) is None {
                match call {
                    Call::Create { .. } => {
                        if id != after.mission_count {
                            assert(before.missions.contains_key(id));
                        }
                    },
                    _ => {
                        assert(before.missions.contains_key(id));
                    },
                }
            } else {
                assert(before.missions.contains_key(id));
            }
        }
    }
}

/// A ledger that grew from the empty one by calls, accepted or refused, is
/// well formed, and its counter stands at no more than the number of calls.
pub proof fn law_history_is_well_formed(calls: Seq<Call>)
    ensures
        LedgerState::empty().run(calls).well_formed(),
        LedgerState::empty().run(calls).mission_count <= calls.len(),
    decreases calls.len(),
{
    if calls.len() > 0 {
        law_history_is_well_formed(calls.drop_last());
        let before = LedgerState::empty().run(calls.drop_last());
        law_step_keeps_well_formed(before, calls.last());
    }
}

} // verus!
