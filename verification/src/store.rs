//! The ledger itself: the records, and the operations on them.

use vstd::prelude::*;
use crate::address::Address;
use crate::assoc::{
    distinct_keys, lemma_distinct_push, lemma_to_map_absent, lemma_to_map_keys,
    lemma_to_map_keys_absent, lemma_to_map_lookup, lemma_to_map_push, lemma_to_map_update, to_map,
};
use crate::error::QuidError;
use crate::model::LedgerState;
use crate::receipt::{Event, Receipt, Transfer};
use crate::types::{
    DataKey, Mission, MissionStatus, MissionView, Submission, SubmissionStatus, SubmissionView,
};

verus! {

/// The missions as keyed entries: each under its id.
pub open spec fn mission_entries(missions: Seq<Mission>) -> Seq<(u64, MissionView)> {
    Seq::new(missions.len(), |i: int| (missions[i].id, missions[i]@))
}

/// The submissions as keyed entries: each under its mission's id and its
/// hunter.
pub open spec fn submission_entries(submissions: Seq<(u64, Submission)>) -> Seq<
    ((u64, Seq<char>), SubmissionView),
> {
    Seq::new(
        submissions.len(),
        |i: int| ((submissions[i].0, submissions[i].1.hunter@), submissions[i].1@),
    )
}

/// What a lookup of a mission returns, as a mathematical value.
pub open spec fn lookup_view(found: Result<Mission, QuidError>) -> Result<MissionView, QuidError> {
    match found {
        Ok(mission) => Ok(mission@),
        Err(e) => Err(e),
    }
}

/// Whether the records can make up a ledger: no mission id and no pair of
/// mission id and hunter occurs twice, and every mission is well formed and
/// has an id that a counter standing at `mission_count` has handed out.
pub open spec fn acceptable_records(
    mission_count: u64,
    missions: Seq<Mission>,
    submissions: Seq<(u64, Submission)>,
) -> bool {
    &&& distinct_keys(mission_entries(missions))
    &&& distinct_keys(submission_entries(submissions))
    &&& forall|i: int|
        0 <= i < missions.len() ==> {
            &&& 1 <= (#[trigger] missions[i]).id <= mission_count
            &&& missions[i]@.well_formed()
        }
}

/// Whether no mission id occurs twice.
fn mission_ids_distinct(missions: &Vec<Mission>) -> (ok: bool)
    ensures
        ok == distinct_keys(mission_entries(missions@)),
{
    let ghost entries = mission_entries(missions@);
    let mut i: usize = 0;
    while i < missions.len()
        invariant
            entries == mission_entries(missions@),
            i <= missions@.len(),
            forall|a: int, b: int| 0 <= a < b < i ==> entries[a].0 != entries[b].0,
        decreases missions@.len() - i,
    {
        let mut j: usize = 0;
        while j < i
            invariant
                entries == mission_entries(missions@),
                i < missions@.len(),
                j <= i,
                forall|a: int| 0 <= a < j ==> entries[a].0 != entries[i as int].0,
            decreases i - j,
        {
            if missions[j].id == missions[i].id {
                assert(entries[j as int].0 == entries[i as int].0);
                return false;
            }
            j += 1;
        }
        i += 1;
    }
    true
}

/// Whether no pair of mission id and hunter occurs twice.
fn submission_keys_distinct(submissions: &Vec<(u64, Submission)>) -> (ok: bool)
    ensures
        ok == distinct_keys(submission_entries(submissions@)),
{
    let ghost entries = submission_entries(submissions@);
    let mut i: usize = 0;
    while i < submissions.len()
        invariant
            entries == submission_entries(submissions@),
            i <= submissions@.len(),
            forall|a: int, b: int| 0 <= a < b < i ==> entries[a].0 != entries[b].0,
        decreases submissions@.len() - i,
    {
        let mut j: usize = 0;
        while j < i
            invariant
                entries == submission_entries(submissions@),
                i < submissions@.len(),
                j <= i,
                forall|a: int| 0 <= a < j ==> entries[a].0 != entries[i as int].0,
            decreases i - j,
        {
            if submissions[j].0 == submissions[i].0 && submissions[j].1.hunter
                == submissions[i].1.hunter {
                assert(entries[j as int].0 == entries[i as int].0);
                return false;
            }
            j += 1;
        }
        i += 1;
    }
    true
}

/// Whether every mission is well formed and has an id from 1 to
/// `mission_count`.
fn missions_in_order(mission_count: u64, missions: &Vec<Mission>) -> (ok: bool)
    ensures
        ok == (forall|i: int|
            0 <= i < missions@.len() ==> {
                &&& 1 <= (#[trigger] missions@[i]).id <= mission_count
                &&& missions@[i]@.well_formed()
            }),
{
    let mut i: usize = 0;
    while i < missions.len()
        invariant
            i <= missions@.len(),
            forall|a: int|
                0 <= a < i ==> {
                    &&& 1 <= (#[trigger] missions@[a]).id <= mission_count
                    &&& missions@[a]@.well_formed()
                },
        decreases missions@.len() - i,
    {
        if missions[i].id < 1 || missions[i].id > mission_count || !missions[i].is_well_formed() {
            assert(!(1 <= missions@[i as int].id <= mission_count
                && missions@[i as int]@.well_formed()));
            return false;
        }
        i += 1;
    }
    true
}

/// The ledger: every mission and submission, and the counter that hands out
/// mission ids.
///
/// The ledger is passed to each operation; it holds no token and checks no
/// signature. A caller names the identity that authenticated the call, and
/// gets back a [`Receipt`] that tells the host which tokens to move.
pub struct QuidStoreContract {
    mission_count: u64,
    missions: Vec<Mission>,
    submissions: Vec<(u64, Submission)>,
}

impl View for QuidStoreContract {
    type V = LedgerState;

    closed spec fn view(&self) -> LedgerState {
        LedgerState {
            mission_count: self.mission_count,
            missions: to_map(mission_entries(self.missions@)),
            submissions: to_map(submission_entries(self.submissions@)),
        }
    }
}

impl Clone for QuidStoreContract {
    /// A second ledger in the same state. A host keeps one where it may have
    /// to go back to how things stood before an operation.
    fn clone(&self) -> (copy: QuidStoreContract)
        ensures
            copy@ == self@,
            self.wf() ==> copy.wf(),
    {
        let mut missions: Vec<Mission> = Vec::new();
        let mut i: usize = 0;
        while i < self.missions.len()
            invariant
                i <= self.missions@.len(),
                missions@ == self.missions@.subrange(0, i as int),
            decreases self.missions@.len() - i,
        {
            missions.push(self.missions[i].clone());
            assert(missions@ =~= self.missions@.subrange(0, i + 1));
            i += 1;
        }
        let mut submissions: Vec<(u64, Submission)> = Vec::new();
        let mut j: usize = 0;
        while j < self.submissions.len()
            invariant
                j <= self.submissions@.len(),
                submissions@ == self.submissions@.subrange(0, j as int),
            decreases self.submissions@.len() - j,
        {
            submissions.push((self.submissions[j].0, self.submissions[j].1.clone()));
            assert(submissions@ =~= self.submissions@.subrange(0, j + 1));
            j += 1;
        }
        assert(missions@ =~= self.missions@);
        assert(submissions@ =~= self.submissions@);
        QuidStoreContract { mission_count: self.mission_count, missions, submissions }
    }
}

impl QuidStoreContract {
    /// The ledger holds each mission and each submission once, and every
    /// mission is one that the counter has handed out and is well formed.
    pub closed spec fn wf(&self) -> bool {
        acceptable_records(self.mission_count, self.missions@, self.submissions@)
    }

    /// A ledger in good order stands for a well-formed state.
    pub proof fn lemma_view_well_formed(&self)
        requires
            self.wf(),
        ensures
            self@.well_formed(),
    {
        let missions = mission_entries(self.missions@);
        let submissions = submission_entries(self.submissions@);
        assert forall|id: u64| #[trigger] self@.missions.contains_key(id) implies {
            &&& self@.missions[id].id == id
            &&& 1 <= id <= self@.mission_count
            &&& self@.missions[id].well_formed()
        } by {
            lemma_to_map_keys(missions, id);
            let i = choose|i: int| 0 <= i < missions.len() && #[trigger] missions[i].0 == id;
            lemma_to_map_lookup(missions, i);
            assert(self.missions@[i].id == id);
        }
        assert forall|key: (u64, Seq<char>)| #[trigger]
            self@.submissions.contains_key(key) implies self@.submissions[key].hunter == key.1 by {
            lemma_to_map_keys(submissions, key);
            let i = choose|i: int| 0 <= i < submissions.len() && #[trigger] submissions[i].0 == key;
            lemma_to_map_lookup(submissions, i);
        }
    }

    /// A ledger with no mission and no submission.
    pub fn new() -> (store: QuidStoreContract)
        ensures
            store.wf(),
            store@ == LedgerState::empty(),
    {
        let store = QuidStoreContract {
            mission_count: 0,
            missions: Vec::new(),
            submissions: Vec::new(),
        };
        assert(store@.missions =~= Map::empty());
        assert(store@.submissions =~= Map::empty());
        store
    }

    /// The ledger made of records that were stored earlier, with the counter
    /// at `mission_count`; none if the records cannot make up a ledger.
    pub fn from_records(
        mission_count: u64,
        missions: Vec<Mission>,
        submissions: Vec<(u64, Submission)>,
    ) -> (restored: Option<QuidStoreContract>)
        ensures
            match restored {
                Some(store) => {
                    &&& acceptable_records(mission_count, missions@, submissions@)
                    &&& store.wf()
                    &&& store@ == (LedgerState {
                        mission_count,
                        missions: to_map(mission_entries(missions@)),
                        submissions: to_map(submission_entries(submissions@)),
                    })
                },
                None => !acceptable_records(mission_count, missions@, submissions@),
            },
    {
        if !missions_in_order(mission_count, &missions) {
            return None;
        }
        if !mission_ids_distinct(&missions) {
            return None;
        }
        if !submission_keys_distinct(&submissions) {
            return None;
        }
        Some(QuidStoreContract { mission_count, missions, submissions })
    }

    /// Where the mission with this id is kept, if it exists.
    fn find_mission(&self, mission_id: u64) -> (found: Option<usize>)
        requires
            self.wf(),
        ensures
            match found {
                Some(i) => {
                    &&& i < self.missions@.len()
                    &&& self.missions@[i as int].id == mission_id
                    &&& self@.missions.contains_key(mission_id)
                    &&& self@.missions[mission_id] == self.missions@[i as int]@
                },
                None => !self@.missions.contains_key(mission_id),
            },
    {
        let mut i: usize = 0;
        while i < self.missions.len()
            invariant
                self.wf(),
                i <= self.missions@.len(),
                forall|j: int| 0 <= j < i ==> self.missions@[j].id != mission_id,
            decreases self.missions@.len() - i,
        {
            if self.missions[i].id == mission_id {
                proof {
                    lemma_to_map_lookup(mission_entries(self.missions@), i as int);
                }
                return Some(i);
            }
            i += 1;
        }
        proof {
            lemma_to_map_absent(mission_entries(self.missions@), mission_id);
        }
        None
    }

    /// Where the hunter's submission for this mission is kept, if it exists.
    fn find_submission(&self, mission_id: u64, hunter: &Address) -> (found: Option<usize>)
        requires
            self.wf(),
        ensures
            match found {
                Some(i) => {
                    &&& i < self.submissions@.len()
                    &&& self.submissions@[i as int].0 == mission_id
                    &&& self.submissions@[i as int].1.hunter@ == hunter@
                    &&& self@.submissions.contains_key((mission_id, hunter@))
                    &&& self@.submissions[(mission_id, hunter@)] == self.submissions@[i as int].1@
                },
                None => !self@.submissions.contains_key((mission_id, hunter@)),
            },
    {
        let mut i: usize = 0;
        while i < self.submissions.len()
            invariant
                self.wf(),
                i <= self.submissions@.len(),
                forall|j: int|
                    0 <= j < i ==> !(self.submissions@[j].0 == mission_id
                        && self.submissions@[j].1.hunter@ == hunter@),
            decreases self.submissions@.len() - i,
        {
            if self.submissions[i].0 == mission_id && self.submissions[i].1.hunter == *hunter {
                proof {
                    lemma_to_map_lookup(submission_entries(self.submissions@), i as int);
                }
                return Some(i);
            }
            i += 1;
        }
        proof {
            lemma_to_map_absent(submission_entries(self.submissions@), (mission_id, hunter@));
        }
        None
    }

    /// How many missions have been created.
    pub fn get_mission_count(&self) -> (count: u64)
        ensures
            count == self@.mission_count,
    {
        self.mission_count
    }

    /// Whether a mission is stored under this id.
    pub fn mission_exists(&self, mission_id: u64) -> (exists: bool)
        requires
            self.wf(),
        ensures
            exists == self@.missions.contains_key(mission_id),
    {
        self.find_mission(mission_id).is_some()
    }

    /// The mission stored under this id.
    pub fn get_mission(&self, mission_id: u64) -> (result: Result<Mission, QuidError>)
        requires
            self.wf(),
        ensures
            lookup_view(result) == self@.lookup(mission_id),
    {
        match self.find_mission(mission_id) {
            Some(i) => Ok(self.missions[i].clone()),
            None => Err(QuidError::MissionNotFound),
        }
    }

    /// Checks what a new mission is made with: the reward must be positive.
    /// Any title is taken, the empty one too.
    pub fn validate_mission_params(_title: &String, reward_amount: i128) -> (result: Result<
        (),
        QuidError,
    >)
        ensures
            reward_amount <= 0 ==> result == Err::<(), QuidError>(QuidError::NegativeReward),
            reward_amount > 0 ==> result == Ok::<(), QuidError>(()),
    {
        if reward_amount <= 0 {
            return Err(QuidError::NegativeReward);
        }
        Ok(())
    }

    /// Advances the counter and returns the id it now stands at.
    fn get_next_mission_id(&mut self) -> (id: u64)
        requires
            old(self).wf(),
            old(self).mission_count < u64::MAX,
        ensures
            final(self).wf(),
            id == old(self).mission_count + 1,
            final(self).mission_count == id,
            final(self).missions == old(self).missions,
            final(self).submissions == old(self).submissions,
    {
        self.mission_count = self.mission_count + 1;
        self.mission_count
    }

    /// Creates a mission for `owner`, funded for `max_participants` slots of
    /// `reward_amount` each (no slot is funded when `max_participants` is 0,
    /// which means no limit).
    ///
    /// `caller` is the identity that authenticated the call and must be the
    /// owner. The mission gets the next id and starts out created, with no
    /// participant paid. The receipt names the new id and tells the host to
    /// move the whole pool from the owner into escrow.
    ///
    /// The counter must have an id left to hand out.
    pub fn create_mission(
        &mut self,
        caller: &Address,
        owner: Address,
        title: String,
        description_cid: String,
        reward_token: Address,
        reward_amount: i128,
        max_participants: u32,
        now: u64,
    ) -> (result: Result<Receipt, QuidError>)
        requires
            old(self).wf(),
            old(self)@.mission_count < u64::MAX,
        ensures
            final(self).wf(),
            match result {
                Ok(receipt) => {
                    let mission = old(self)@.created_mission(
                        owner@,
                        title@,
                        description_cid@,
                        reward_token@,
                        reward_amount,
                        max_participants,
                        now,
                    );
                    &&& LedgerState::create_refusal(
                        caller@,
                        owner@,
                        reward_amount,
                        max_participants,
                    ) is None
                    &&& final(self)@ == old(self)@.after_create(mission)
                    &&& receipt@ == LedgerState::create_receipt(mission)
                    &&& receipt@.escrow_change(reward_token@) == reward_amount * max_participants
                },
                Err(e) => {
                    &&& LedgerState::create_refusal(
                        caller@,
                        owner@,
                        reward_amount,
                        max_participants,
                    ) == Some(e)
                    &&& final(self)@ == old(self)@
                },
            },
    {
        if *caller != owner {
            return Err(QuidError::NotAuthorized);
        }
        match Self::validate_mission_params(&title, reward_amount) {
            Err(e) => {
                return Err(e);
            },
            Ok(_) => {},
        }
        let total_needed: i128 = match reward_amount.checked_mul(max_participants as i128) {
            Some(total) => total,
            None => {
                return Err(QuidError::NegativeReward);
            },
        };
        let mission_id = self.get_next_mission_id();
        let created_at: u64 = if now == 0 {
            1
        } else {
            now
        };
        let mut writes: Vec<DataKey> = Vec::new();
        writes.push(DataKey::Mission(mission_id));
        writes.push(DataKey::MissionCount);
        let receipt = Receipt {
            mission_id,
            transfer: Some(Transfer::deposit(reward_token.clone(), owner.clone(), total_needed)),
            event: Some(Event::MissionCreated { mission_id, owner: owner.clone() }),
            writes,
        };
        let mission = Mission {
            id: mission_id,
            owner,
            title,
            description_cid,
            reward_token,
            reward_amount,
            max_participants,
            participants_count: 0,
            status: MissionStatus::Created,
            created_at,
        };
        proof {
            let before = mission_entries(old(self).missions@);
            lemma_to_map_push(before, mission_id, mission@);
            lemma_distinct_push(before, mission_id, mission@);
            assert(mission_entries(old(self).missions@.push(mission)) =~= before.push(
                (mission_id, mission@),
            ));
            assert(receipt@.writes =~= LedgerState::create_receipt(mission@).writes);
        }
        self.missions.push(mission);
        Ok(receipt)
    }

    /// The missions stored under these ids, one result for each id and in
    /// the same order. An id without a mission gives an error in its place
    /// and does not disturb the others.
    pub fn get_missions(&self, mission_ids: Vec<u64>) -> (results: Vec<Result<Mission, QuidError>>)
        requires
            self.wf(),
        ensures
            results@.len() == mission_ids@.len(),
            forall|i: int|
                0 <= i < mission_ids@.len() ==> lookup_view(#[trigger] results@[i])
                    == self@.lookup(mission_ids@[i]),
    {
        let mut results: Vec<Result<Mission, QuidError>> = Vec::new();
        let mut i: usize = 0;
        while i < mission_ids.len()
            invariant
                self.wf(),
                i <= mission_ids@.len(),
                results@.len() == i,
                forall|j: int|
                    0 <= j < i ==> lookup_view(#[trigger] results@[j]) == self@.lookup(
                        mission_ids@[j],
                    ),
            decreases mission_ids@.len() - i,
        {
            let result = self.get_mission(mission_ids[i]);
            results.push(result);
            i += 1;
        }
        results
    }

    /// The token and the amount of the reward that the mission pays.
    pub fn get_mission_reward(&self, mission_id: u64) -> (result: Result<(Address, i128), QuidError>)
        requires
            self.wf(),
        ensures
            match result {
                Ok((token, amount)) => {
                    &&& self@.missions.contains_key(mission_id)
                    &&& token@ == self@.missions[mission_id].reward_token
                    &&& amount == self@.missions[mission_id].reward_amount
                },
                Err(e) => e == QuidError::MissionNotFound && !self@.missions.contains_key(
                    mission_id,
                ),
            },
    {
        match self.find_mission(mission_id) {
            Some(i) => Ok((self.missions[i].reward_token.clone(), self.missions[i].reward_amount)),
            None => Err(QuidError::MissionNotFound),
        }
    }

    /// The status of the mission.
    pub fn get_mission_status(&self, mission_id: u64) -> (result: Result<MissionStatus, QuidError>)
        requires
            self.wf(),
        ensures
            match result {
                Ok(status) => {
                    &&& self@.missions.contains_key(mission_id)
                    &&& status == self@.missions[mission_id].status
                },
                Err(e) => e == QuidError::MissionNotFound && !self@.missions.contains_key(
                    mission_id,
                ),
            },
    {
        match self.find_mission(mission_id) {
            Some(i) => Ok(self.missions[i].status),
            None => Err(QuidError::MissionNotFound),
        }
    }

    /// The submission that the hunter made for the mission.
    pub fn get_submission(&self, mission_id: u64, hunter: &Address) -> (result: Result<
        Submission,
        QuidError,
    >)
        requires
            self.wf(),
        ensures
            match result {
                Ok(submission) => {
                    &&& self@.submissions.contains_key((mission_id, hunter@))
                    &&& submission@ == self@.submissions[(mission_id, hunter@)]
                },
                Err(e) => e == QuidError::SubmissionNotFound && !self@.submissions.contains_key(
                    (mission_id, hunter@),
                ),
            },
    {
        match self.find_submission(mission_id, hunter) {
            Some(i) => Ok(self.submissions[i].1.clone()),
            None => Err(QuidError::SubmissionNotFound),
        }
    }

    /// Takes the hunter's work for the mission.
    ///
    /// `caller` is the identity that authenticated the call and must be the
    /// hunter. The mission must exist, be created or started, and have a slot
    /// left if it is bounded; the hunter must not have handed in work for it
    /// before. The new submission is pending. No participant is counted and
    /// no tokens move.
    pub fn submit_feedback(
        &mut self,
        caller: &Address,
        mission_id: u64,
        hunter: Address,
        ipfs_cid: String,
        now: u64,
    ) -> (result: Result<Receipt, QuidError>)
        requires
            old(self).wf(),
        ensures
            final(self).wf(),
            match result {
                Ok(receipt) => {
                    &&& old(self)@.submit_refusal(caller@, mission_id, hunter@) is None
                    &&& final(self)@ == old(self)@.after_submit(mission_id, hunter@, ipfs_cid@, now)
                    &&& receipt@ == LedgerState::submit_receipt(mission_id, hunter@)
                },
                Err(e) => {
                    &&& old(self)@.submit_refusal(caller@, mission_id, hunter@) == Some(e)
                    &&& final(self)@ == old(self)@
                },
            },
    {
        if *caller != hunter {
            return Err(QuidError::NotAuthorized);
        }
        let at = match self.find_mission(mission_id) {
            Some(i) => i,
            None => {
                return Err(QuidError::MissionNotFound);
            },
        };
        if !self.missions[at].status.accepts_submissions() {
            return Err(QuidError::MissionNotOpen);
        }
        if self.missions[at].max_participants != 0 && self.missions[at].participants_count
            >= self.missions[at].max_participants {
            return Err(QuidError::MissionFull);
        }
        if self.find_submission(mission_id, &hunter).is_some() {
            return Err(QuidError::AlreadySubmitted);
        }
        let mut writes: Vec<DataKey> = Vec::new();
        writes.push(DataKey::Submission(mission_id, hunter.clone()));
        let receipt = Receipt {
            mission_id,
            transfer: None,
            event: Some(Event::SubmissionCreated { mission_id, hunter: hunter.clone() }),
            writes,
        };
        let submission = Submission {
            hunter,
            ipfs_cid,
            status: SubmissionStatus::Pending,
            submitted_at: now,
        };
        proof {
            let before = submission_entries(old(self).submissions@);
            let key = (mission_id, submission.hunter@);
            lemma_to_map_keys_absent(before, key);
            lemma_to_map_push(before, key, submission@);
            lemma_distinct_push(before, key, submission@);
            assert(submission_entries(old(self).submissions@.push((mission_id, submission)))
                =~= before.push((key, submission@)));
            assert(receipt@.writes =~= LedgerState::submit_receipt(
                mission_id,
                submission.hunter@,
            ).writes);
        }
        self.submissions.push((mission_id, submission));
        Ok(receipt)
    }

    /// Replaces the content pointer of the hunter's submission.
    ///
    /// `caller` is the identity that authenticated the call and must be the
    /// hunter. The mission must exist and be in its open state, `Created`;
    /// the submission must exist and not be paid. Its status and the time it
    /// was handed in stay as they were.
    pub fn update_submission(
        &mut self,
        caller: &Address,
        mission_id: u64,
        hunter: &Address,
        ipfs_cid: String,
    ) -> (result: Result<Receipt, QuidError>)
        requires
            old(self).wf(),
        ensures
            final(self).wf(),
            match result {
                Ok(receipt) => {
                    &&& old(self)@.edit_refusal(caller@, mission_id, hunter@) is None
                    &&& final(self)@ == old(self)@.after_edit(mission_id, hunter@, ipfs_cid@)
                    &&& receipt@ == LedgerState::edit_receipt(mission_id, hunter@)
                },
                Err(e) => {
                    &&& old(self)@.edit_refusal(caller@, mission_id, hunter@) == Some(e)
                    &&& final(self)@ == old(self)@
                },
            },
    {
        if *caller != *hunter {
            return Err(QuidError::NotAuthorized);
        }
        let at = match self.find_mission(mission_id) {
            Some(i) => i,
            None => {
                return Err(QuidError::MissionNotFound);
            },
        };
        if !self.missions[at].status.accepts_edits() {
            return Err(QuidError::MissionNotOpen);
        }
        let filed = match self.find_submission(mission_id, hunter) {
            Some(j) => j,
            None => {
                return Err(QuidError::SubmissionNotFound);
            },
        };
        if self.submissions[filed].1.status == SubmissionStatus::Paid {
            return Err(QuidError::AlreadyPaid);
        }
        let mut writes: Vec<DataKey> = Vec::new();
        writes.push(DataKey::Submission(mission_id, hunter.clone()));
        let receipt = Receipt { mission_id, transfer: None, event: None, writes };
        proof {
            let before = submission_entries(old(self).submissions@);
            let edited = SubmissionView { ipfs_cid: ipfs_cid@, ..old(self).submissions@[filed as int].1@ };
            lemma_to_map_update(before, filed as int, edited);
            assert(receipt@.writes =~= LedgerState::edit_receipt(mission_id, hunter@).writes);
        }
        self.submissions[filed].1.ipfs_cid = ipfs_cid;
        proof {
            let before = submission_entries(old(self).submissions@);
            assert(submission_entries(self.submissions@) =~= before.update(
                filed as int,
                (before[filed as int].0, self.submissions@[filed as int].1@),
            ));
        }
        Ok(receipt)
    }

    /// Gives the mission kept at `at` the status `status`.
    fn set_status_at(&mut self, at: usize, status: MissionStatus)
        requires
            old(self).wf(),
            at < old(self).missions@.len(),
        ensures
            final(self).wf(),
            final(self)@ == old(self)@.after_status(old(self).missions@[at as int].id, status),
    {
        proof {
            let before = mission_entries(old(self).missions@);
            lemma_to_map_lookup(before, at as int);
            lemma_to_map_update(
                before,
                at as int,
                old(self).missions@[at as int]@.with_status(status),
            );
        }
        self.missions[at].status = status;
        proof {
            let before = mission_entries(old(self).missions@);
            assert(mission_entries(self.missions@) =~= before.update(
                at as int,
                (before[at as int].0, self.missions@[at as int]@),
            ));
        }
    }

    /// Sets the mission's status to any value. This is the owner's override:
    /// it asks nothing of the status the mission has or is given.
    ///
    /// `caller` is the identity that authenticated the call and must be the
    /// mission's owner.
    pub fn update_mission_status(
        &mut self,
        caller: &Address,
        mission_id: u64,
        new_status: MissionStatus,
    ) -> (result: Result<Receipt, QuidError>)
        requires
            old(self).wf(),
        ensures
            final(self).wf(),
            match result {
                Ok(receipt) => {
                    &&& old(self)@.status_refusal(caller@, mission_id) is None
                    &&& final(self)@ == old(self)@.after_status(mission_id, new_status)
                    &&& receipt@ == LedgerState::status_receipt(mission_id, new_status)
                },
                Err(e) => {
                    &&& old(self)@.status_refusal(caller@, mission_id) == Some(e)
                    &&& final(self)@ == old(self)@
                },
            },
    {
        let at = match self.find_mission(mission_id) {
            Some(i) => i,
            None => {
                return Err(QuidError::MissionNotFound);
            },
        };
        if *caller != self.missions[at].owner {
            return Err(QuidError::NotAuthorized);
        }
        self.set_status_at(at, new_status);
        let mut writes: Vec<DataKey> = Vec::new();
        writes.push(DataKey::Mission(mission_id));
        let receipt = Receipt {
            mission_id,
            transfer: None,
            event: Some(Event::MissionStatusUpdated { mission_id, status: new_status }),
            writes,
        };
        assert(receipt@.writes =~= LedgerState::status_receipt(mission_id, new_status).writes);
        Ok(receipt)
    }

    /// Pauses the mission, whatever its status was.
    ///
    /// `caller` is the identity that authenticated the call and must be the
    /// mission's owner.
    pub fn pause_mission(&mut self, caller: &Address, mission_id: u64) -> (result: Result<
        Receipt,
        QuidError,
    >)
        requires
            old(self).wf(),
        ensures
            final(self).wf(),
            match result {
                Ok(receipt) => {
                    &&& old(self)@.status_refusal(caller@, mission_id) is None
                    &&& final(self)@ == old(self)@.after_status(mission_id, MissionStatus::Paused)
                    &&& receipt@ == LedgerState::status_receipt(mission_id, MissionStatus::Paused)
                },
                Err(e) => {
                    &&& old(self)@.status_refusal(caller@, mission_id) == Some(e)
                    &&& final(self)@ == old(self)@
                },
            },
    {
        self.update_mission_status(caller, mission_id, MissionStatus::Paused)
    }

    /// Cancels the mission and gives the value of its unfilled slots back to
    /// the owner. What was paid out stays paid; an unbounded mission, for
    /// which nothing was put in escrow, gives nothing back.
    ///
    /// `caller` is the identity that authenticated the call and must be the
    /// mission's owner. A completed or cancelled mission cannot be cancelled.
    pub fn cancel_mission(&mut self, caller: &Address, mission_id: u64) -> (result: Result<
        Receipt,
        QuidError,
    >)
        requires
            old(self).wf(),
        ensures
            final(self).wf(),
            match result {
                Ok(receipt) => {
                    &&& old(self)@.cancel_refusal(caller@, mission_id) is None
                    &&& final(self)@ == old(self)@.after_status(
                        mission_id,
                        MissionStatus::Cancelled,
                    )
                    &&& receipt@ == old(self)@.cancel_receipt(mission_id)
                },
                Err(e) => {
                    &&& old(self)@.cancel_refusal(caller@, mission_id) == Some(e)
                    &&& final(self)@ == old(self)@
                },
            },
    {
        let at = match self.find_mission(mission_id) {
            Some(i) => i,
            None => {
                return Err(QuidError::MissionNotFound);
            },
        };
        if *caller != self.missions[at].owner {
            return Err(QuidError::NotAuthorized);
        }
        if self.missions[at].status.is_terminal() {
            return Err(QuidError::MissionClosed);
        }
        let max_participants = self.missions[at].max_participants;
        let participants_count = self.missions[at].participants_count;
        let remaining_slots: u32 = if max_participants != 0 && participants_count
            <= max_participants {
            max_participants - participants_count
        } else {
            0
        };
        let refund: i128 = match self.missions[at].reward_amount.checked_mul(
            remaining_slots as i128,
        ) {
            Some(refund) => refund,
            None => {
                assert(self.missions@[at as int]@.well_formed());
                assert(self.missions@[at as int]@.unfilled_value() == remaining_slots
                    * self.missions@[at as int].reward_amount) by (nonlinear_arith)
                    requires
                        self.missions@[at as int]@.unfilled_value()
                            == self.missions@[at as int]@.remaining_slots()
                            * self.missions@[at as int].reward_amount,
                        self.missions@[at as int]@.remaining_slots() == remaining_slots,
                ;
                return Err(QuidError::NegativeReward);
            },
        };
        assert(refund == self.missions@[at as int]@.unfilled_value()) by (nonlinear_arith)
            requires
                refund == self.missions@[at as int].reward_amount * (remaining_slots as i128),
                self.missions@[at as int]@.unfilled_value()
                    == self.missions@[at as int]@.remaining_slots()
                    * self.missions@[at as int].reward_amount,
                self.missions@[at as int]@.remaining_slots() == remaining_slots,
        ;
        let transfer = if refund > 0 {
            Some(
                Transfer::release(
                    self.missions[at].reward_token.clone(),
                    self.missions[at].owner.clone(),
                    refund,
                ),
            )
        } else {
            None
        };
        let mut writes: Vec<DataKey> = Vec::new();
        writes.push(DataKey::Mission(mission_id));
        let receipt = Receipt {
            mission_id,
            transfer,
            event: Some(Event::MissionCancelled { mission_id }),
            writes,
        };
        assert(receipt@.writes =~= old(self)@.cancel_receipt(mission_id).writes);
        self.set_status_at(at, MissionStatus::Cancelled);
        Ok(receipt)
    }

    /// Pays the hunter one reward for a pending submission.
    ///
    /// `caller` is the identity that authenticated the call and must be the
    /// mission's owner, as the mission records it. The mission must not be
    /// completed or cancelled and must have a slot left; the submission must
    /// exist and be pending. The submission becomes paid, the mission counts
    /// one more participant, and a bounded mission whose last slot this fills
    /// becomes completed. The receipt tells the host to move one reward from
    /// escrow to the hunter.
    pub fn payout_participant(&mut self, caller: &Address, mission_id: u64, hunter: &Address) -> (result:
        Result<Receipt, QuidError>)
        requires
            old(self).wf(),
        ensures
            final(self).wf(),
            match result {
                Ok(receipt) => {
                    &&& old(self)@.payout_refusal(caller@, mission_id, hunter@) is None
                    &&& final(self)@ == old(self)@.after_payout(mission_id, hunter@)
                    &&& receipt@ == old(self)@.payout_receipt(mission_id, hunter@)
                },
                Err(e) => {
                    &&& old(self)@.payout_refusal(caller@, mission_id, hunter@) == Some(e)
                    &&& final(self)@ == old(self)@
                },
            },
    {
        let at = match self.find_mission(mission_id) {
            Some(i) => i,
            None => {
                return Err(QuidError::MissionNotFound);
            },
        };
        if *caller != self.missions[at].owner {
            return Err(QuidError::NotAuthorized);
        }
        if self.missions[at].status.is_terminal() {
            return Err(QuidError::MissionClosed);
        }
        let filed = match self.find_submission(mission_id, hunter) {
            Some(j) => j,
            None => {
                return Err(QuidError::SubmissionNotFound);
            },
        };
        if self.submissions[filed].1.status == SubmissionStatus::Paid {
            return Err(QuidError::AlreadyPaid);
        }
        if self.submissions[filed].1.status != SubmissionStatus::Pending {
            return Err(QuidError::NotPending);
        }
        let max_participants = self.missions[at].max_participants;
        let participants_count = self.missions[at].participants_count;
        if (max_participants != 0 && participants_count >= max_participants) || participants_count
            == u32::MAX {
            return Err(QuidError::MissionFull);
        }
        let mut writes: Vec<DataKey> = Vec::new();
        writes.push(DataKey::Mission(mission_id));
        writes.push(DataKey::Submission(mission_id, hunter.clone()));
        let receipt = Receipt {
            mission_id,
            transfer: Some(
                Transfer::release(
                    self.missions[at].reward_token.clone(),
                    hunter.clone(),
                    self.missions[at].reward_amount,
                ),
            ),
            event: Some(Event::PayoutCompleted { mission_id, hunter: hunter.clone() }),
            writes,
        };
        proof {
            let missions = mission_entries(old(self).missions@);
            let submissions = submission_entries(old(self).submissions@);
            lemma_to_map_update(
                missions,
                at as int,
                LedgerState::paid_mission(old(self).missions@[at as int]@),
            );
            lemma_to_map_update(
                submissions,
                filed as int,
                SubmissionView {
                    status: SubmissionStatus::Paid,
                    ..old(self).submissions@[filed as int].1@
                },
            );
            assert(receipt@.writes =~= old(self)@.payout_receipt(mission_id, hunter@).writes);
        }
        self.submissions[filed].1.status = SubmissionStatus::Paid;
        let paid = participants_count + 1;
        self.missions[at].participants_count = paid;
        if max_participants != 0 && paid == max_participants {
            self.missions[at].status = MissionStatus::Completed;
        }
        proof {
            let missions = mission_entries(old(self).missions@);
            let submissions = submission_entries(old(self).submissions@);
            assert(mission_entries(self.missions@) =~= missions.update(
                at as int,
                (missions[at as int].0, self.missions@[at as int]@),
            ));
            assert(submission_entries(self.submissions@) =~= submissions.update(
                filed as int,
                (submissions[filed as int].0, self.submissions@[filed as int].1@),
            ));
            assert(self.missions@[at as int]@.well_formed());
        }
        Ok(receipt)
    }
}

} // verus!
