use quid_store::{
    Account, Address, Mission, MissionStatus, QuidError, QuidStoreContract, Receipt,
};

/// The balances of a token, kept by hand: what a host's token would hold.
struct TokenBook {
    balances: Vec<(String, String, i128)>,
}

fn account_name(account: &Account) -> String {
    match account {
        Account::Escrow => String::from("escrow"),
        Account::Holder(who) => format!("holder:{}", who.as_str()),
    }
}

impl TokenBook {
    fn new() -> Self {
        TokenBook { balances: Vec::new() }
    }

    fn balance(&self, token: &Address, account: &Account) -> i128 {
        let name = account_name(account);
        for (t, a, amount) in self.balances.iter() {
            if t == token.as_str() && *a == name {
                return *amount;
            }
        }
        0
    }

    fn credit(&mut self, token: &Address, account: &Account, amount: i128) {
        let name = account_name(account);
        for entry in self.balances.iter_mut() {
            if entry.0 == token.as_str() && entry.1 == name {
                entry.2 += amount;
                return;
            }
        }
        self.balances.push((String::from(token.as_str()), name, amount));
    }

    fn mint(&mut self, token: &Address, to: &Address, amount: i128) {
        self.credit(token, &Account::Holder(to.clone()), amount);
    }

    fn settle(&mut self, receipt: &Receipt) {
        if let Some(transfer) = &receipt.transfer {
            assert!(transfer.amount >= 0);
            assert!(self.balance(&transfer.token, &transfer.from) >= transfer.amount);
            self.credit(&transfer.token, &transfer.from, -transfer.amount);
            self.credit(&transfer.token, &transfer.to, transfer.amount);
        }
    }
}

/// A host around the ledger: it authenticates, keeps the clock and the
/// token, and fails loudly where the ledger refuses.
struct Client {
    store: QuidStoreContract,
    book: TokenBook,
    now: u64,
    /// The only identity that authenticates; everyone does where this is none.
    signer: Option<Address>,
}

fn accepted<T>(result: Result<T, QuidError>) -> T {
    match result {
        Ok(value) => value,
        Err(e) => panic!("Error(Contract, #{})", e.code()),
    }
}

impl Client {
    fn caller_for(&self, party: &Address) -> Address {
        match &self.signer {
            Some(signer) => signer.clone(),
            None => party.clone(),
        }
    }

    fn owner_of(&self, mission_id: u64) -> Address {
        match self.store.get_mission(mission_id) {
            Ok(mission) => mission.owner,
            Err(_) => Address::from_str("nobody"),
        }
    }

    fn create_mission(
        &mut self,
        owner: &Address,
        title: &String,
        description_cid: &String,
        reward_token: &Address,
        reward_amount: &i128,
        max_participants: &u32,
    ) -> u64 {
        assert!(self.store.get_mission_count() < u64::MAX, "Mission count overflow");
        let caller = self.caller_for(owner);
        let receipt = accepted(self.store.create_mission(
            &caller,
            owner.clone(),
            title.clone(),
            description_cid.clone(),
            reward_token.clone(),
            *reward_amount,
            *max_participants,
            self.now,
        ));
        self.book.settle(&receipt);
        receipt.mission_id
    }

    fn get_mission(&self, mission_id: &u64) -> Mission {
        accepted(self.store.get_mission(*mission_id))
    }

    fn get_missions(&self, mission_ids: &Vec<u64>) -> Vec<Result<Mission, QuidError>> {
        self.store.get_missions(mission_ids.clone())
    }

    fn mission_exists(&self, mission_id: &u64) -> bool {
        self.store.mission_exists(*mission_id)
    }

    fn get_mission_reward(&self, mission_id: &u64) -> (Address, i128) {
        accepted(self.store.get_mission_reward(*mission_id))
    }

    fn get_mission_status(&self, mission_id: &u64) -> MissionStatus {
        accepted(self.store.get_mission_status(*mission_id))
    }

    fn get_mission_count(&self) -> u64 {
        self.store.get_mission_count()
    }

    fn update_mission_status(&mut self, mission_id: &u64, new_status: &MissionStatus) {
        let caller = self.caller_for(&self.owner_of(*mission_id));
        let receipt = accepted(self.store.update_mission_status(&caller, *mission_id, *new_status));
        self.book.settle(&receipt);
    }

    fn cancel_mission(&mut self, mission_id: &u64) {
        let caller = self.caller_for(&self.owner_of(*mission_id));
        let receipt = accepted(self.store.cancel_mission(&caller, *mission_id));
        self.book.settle(&receipt);
    }

    fn pause_mission(&mut self, mission_id: &u64) {
        let caller = self.caller_for(&self.owner_of(*mission_id));
        let receipt = accepted(self.store.pause_mission(&caller, *mission_id));
        self.book.settle(&receipt);
    }
}

/// A fresh ledger, an owner with a large balance and the token it is in.
fn setup_test_env() -> (Client, Address, Address) {
    let owner = Address::from_str("GOWNER");
    let token_address = Address::from_str("CTOKEN");
    let mut book = TokenBook::new();
    book.mint(&token_address, &owner, 1_000_000_000_000);
    let client = Client { store: QuidStoreContract::new(), book, now: 0, signer: None };
    (client, owner, token_address)
}

#[test]
fn test_create_mission_success() {
    let (mut client, owner, token_address) = setup_test_env();

    let title = String::from("Test Mission");
    let description_cid = String::from("QmTest123456789");
    let reward_amount: i128 = 10_000_000;
    let max_participants: u32 = 50;

    let mission_id = client.create_mission(
        &owner,
        &title,
        &description_cid,
        &token_address,
        &reward_amount,
        &max_participants,
    );

    assert_eq!(mission_id, 1);

    let mission = client.get_mission(&mission_id);
    assert_eq!(mission.id, mission_id);
    assert_eq!(mission.owner, owner);
    assert_eq!(mission.title, title);
    assert_eq!(mission.description_cid, description_cid);
    assert_eq!(mission.reward_token, token_address);
    assert_eq!(mission.reward_amount, reward_amount);
    assert_eq!(mission.max_participants, max_participants);
    assert_eq!(mission.participants_count, 0);
    assert_eq!(mission.status, MissionStatus::Created);
    assert!(mission.created_at > 0);
}

#[test]
fn test_create_multiple_missions() {
    let (mut client, owner, token_address) = setup_test_env();

    let mission_id_1 = client.create_mission(
        &owner,
        &String::from("Mission 1"),
        &String::from("QmDesc1"),
        &token_address,
        &10_000_000,
        &50,
    );

    let mission_id_2 = client.create_mission(
        &owner,
        &String::from("Mission 2"),
        &String::from("QmDesc2"),
        &token_address,
        &20_000_000,
        &100,
    );

    assert_eq!(mission_id_1, 1);
    assert_eq!(mission_id_2, 2);

    let count = client.get_mission_count();
    assert_eq!(count, 2);

    let mission_1 = client.get_mission(&mission_id_1);
    let mission_2 = client.get_mission(&mission_id_2);

    assert_eq!(mission_1.title, String::from("Mission 1"));
    assert_eq!(mission_2.title, String::from("Mission 2"));
}

#[test]
fn test_create_mission_empty_title_succeeds() {
    let (mut client, owner, token_address) = setup_test_env();

    let empty_title = String::from("");
    let description_cid = String::from("QmDesc");

    let mission_id = client.create_mission(
        &owner,
        &empty_title,
        &description_cid,
        &token_address,
        &10_000_000,
        &50,
    );

    let mission = client.get_mission(&mission_id);
    assert_eq!(mission.title, empty_title);
}

#[test]
#[should_panic(expected = "Error(Contract, #7)")]
fn test_create_mission_negative_reward_fails() {
    let (mut client, owner, token_address) = setup_test_env();

    let title = String::from("Test Mission");
    let description_cid = String::from("QmDesc");
    let negative_reward: i128 = -10_000_000;

    client.create_mission(
        &owner,
        &title,
        &description_cid,
        &token_address,
        &negative_reward,
        &50,
    );
}

#[test]
#[should_panic(expected = "Error(Contract, #1)")]
fn test_get_mission_not_found() {
    let (client, _owner, _token_address) = setup_test_env();

    client.get_mission(&999);
}

#[test]
fn test_get_mission_count_starts_at_zero() {
    let (client, _owner, _token_address) = setup_test_env();

    let count = client.get_mission_count();
    assert_eq!(count, 0);
}

#[test]
fn test_create_mission_with_unlimited_participants() {
    let (mut client, owner, token_address) = setup_test_env();

    let mission_id = client.create_mission(
        &owner,
        &String::from("Unlimited Mission"),
        &String::from("QmDesc"),
        &token_address,
        &10_000_000,
        &0,
    );

    let mission = client.get_mission(&mission_id);
    assert_eq!(mission.max_participants, 0);
}

#[test]
#[should_panic]
fn test_create_mission_with_zero_reward_fails() {
    let (mut client, owner, token_address) = setup_test_env();

    client.create_mission(
        &owner,
        &String::from("Free Mission"),
        &String::from("QmDesc"),
        &token_address,
        &0,
        &50,
    );
}

#[test]
fn test_mission_owner_authentication() {
    let (mut client, owner, token_address) = setup_test_env();

    let mission_id = client.create_mission(
        &owner,
        &String::from("Owned Mission"),
        &String::from("QmDesc"),
        &token_address,
        &10_000_000,
        &50,
    );

    let mission = client.get_mission(&mission_id);

    assert_eq!(mission.owner, owner);
}

#[test]
fn test_mission_initial_status_is_created() {
    let (mut client, owner, token_address) = setup_test_env();

    let mission_id = client.create_mission(
        &owner,
        &String::from("Status Test"),
        &String::from("QmDesc"),
        &token_address,
        &10_000_000,
        &50,
    );

    let mission = client.get_mission(&mission_id);
    assert_eq!(mission.status, MissionStatus::Created);
}

#[test]
fn test_update_mission_status() {
    let (mut client, owner, token_address) = setup_test_env();

    let mission_id = client.create_mission(
        &owner,
        &String::from("Status Update Test"),
        &String::from("QmDesc"),
        &token_address,
        &10_000_000,
        &50,
    );

    let mission = client.get_mission(&mission_id);
    assert_eq!(mission.status, MissionStatus::Created);

    client.update_mission_status(&mission_id, &MissionStatus::Started);
    let mission = client.get_mission(&mission_id);
    assert_eq!(mission.status, MissionStatus::Started);

    client.update_mission_status(&mission_id, &MissionStatus::Completed);
    let mission = client.get_mission(&mission_id);
    assert_eq!(mission.status, MissionStatus::Completed);
}

#[test]
fn test_mission_created_at_timestamp() {
    let (mut client, owner, token_address) = setup_test_env();

    let before_time = client.now;

    let mission_id = client.create_mission(
        &owner,
        &String::from("Timestamp Test"),
        &String::from("QmDesc"),
        &token_address,
        &10_000_000,
        &50,
    );

    let after_time = client.now;
    let mission = client.get_mission(&mission_id);

    assert!(mission.created_at >= before_time);
    assert!(mission.created_at <= after_time || mission.created_at == after_time + 1);
}

#[test]
fn test_multiple_owners_create_missions() {
    let (mut client, owner1, token_address) = setup_test_env();

    let owner2 = Address::from_str("GOWNER2");

    client.book.mint(&token_address, &owner2, 10_000_000_000);

    let mission_id_1 = client.create_mission(
        &owner1,
        &String::from("Owner 1 Mission"),
        &String::from("QmDesc1"),
        &token_address,
        &10_000_000,
        &50,
    );

    let mission_id_2 = client.create_mission(
        &owner2,
        &String::from("Owner 2 Mission"),
        &String::from("QmDesc2"),
        &token_address,
        &20_000_000,
        &100,
    );

    let mission_1 = client.get_mission(&mission_id_1);
    let mission_2 = client.get_mission(&mission_id_2);

    assert_eq!(mission_1.owner, owner1);
    assert_eq!(mission_2.owner, owner2);
    assert_ne!(mission_1.owner, mission_2.owner);
}

#[test]
fn test_cancel_mission_success() {
    let (mut client, owner, token_address) = setup_test_env();

    let mission_id = client.create_mission(
        &owner,
        &String::from("Cancel Test Mission"),
        &String::from("QmDesc"),
        &token_address,
        &10_000_000,
        &50,
    );

    client.cancel_mission(&mission_id);

    let mission = client.get_mission(&mission_id);
    assert_eq!(mission.status, MissionStatus::Cancelled);
}

#[test]
#[should_panic(expected = "Error(Contract, #2)")]
fn test_cancel_mission_fails_if_completed() {
    let (mut client, owner, token_address) = setup_test_env();

    let mission_id = client.create_mission(
        &owner,
        &String::from("Completed Mission"),
        &String::from("QmDesc"),
        &token_address,
        &10_000_000,
        &50,
    );

    client.update_mission_status(&mission_id, &MissionStatus::Completed);

    client.cancel_mission(&mission_id);
}

#[test]
fn test_cancel_mission_from_started_status() {
    let (mut client, owner, token_address) = setup_test_env();

    let mission_id = client.create_mission(
        &owner,
        &String::from("Started Mission"),
        &String::from("QmDesc"),
        &token_address,
        &10_000_000,
        &50,
    );

    client.update_mission_status(&mission_id, &MissionStatus::Started);

    client.cancel_mission(&mission_id);

    let mission = client.get_mission(&mission_id);
    assert_eq!(mission.status, MissionStatus::Cancelled);
}

#[test]
#[should_panic(expected = "Error(Contract, #1)")]
fn test_cancel_mission_not_found() {
    let (mut client, _owner, _token_address) = setup_test_env();

    client.cancel_mission(&999);
}

#[test]
fn test_escrow_balance_after_mission_creation() {
    let (mut client, owner, token_id) = setup_test_env();

    let reward_amount = 10_000_000;
    let max_participants = 5;
    let total_needed = reward_amount * max_participants as i128;

    client.create_mission(
        &owner,
        &String::from("Escrow Test"),
        &String::from("QmDesc"),
        &token_id,
        &reward_amount,
        &max_participants,
    );

    let contract_balance = client.book.balance(&token_id, &Account::Escrow);

    assert_eq!(contract_balance, total_needed);
}

#[test]
fn test_get_mission_returns_exact_struct() {
    let (mut client, owner, token_address) = setup_test_env();

    let title = String::from("Exact Struct Test");
    let description_cid = String::from("QmExact123");
    let reward_amount: i128 = 15_000_000;
    let max_participants: u32 = 25;

    let mission_id = client.create_mission(
        &owner,
        &title,
        &description_cid,
        &token_address,
        &reward_amount,
        &max_participants,
    );

    let mission = client.get_mission(&mission_id);

    assert_eq!(mission.id, mission_id);
    assert_eq!(mission.owner, owner);
    assert_eq!(mission.title, title);
    assert_eq!(mission.description_cid, description_cid);
    assert_eq!(mission.reward_token, token_address);
    assert_eq!(mission.reward_amount, reward_amount);
    assert_eq!(mission.max_participants, max_participants);
    assert_eq!(mission.participants_count, 0);
    assert_eq!(mission.status, MissionStatus::Created);
    assert!(mission.created_at > 0);
}

#[test]
fn test_get_missions_batch_query() {
    let (mut client, owner, token_address) = setup_test_env();

    let id1 = client.create_mission(
        &owner,
        &String::from("Batch Test 1"),
        &String::from("QmBatch1"),
        &token_address,
        &10_000_000,
        &10,
    );

    let id2 = client.create_mission(
        &owner,
        &String::from("Batch Test 2"),
        &String::from("QmBatch2"),
        &token_address,
        &20_000_000,
        &20,
    );

    let ids = vec![id1, id2];
    let results = client.get_missions(&ids);

    assert_eq!(results.len(), 2);

    let result_1 = results.get(0).unwrap().clone();
    let result_2 = results.get(1).unwrap().clone();

    let mission_1 = result_1.unwrap();
    let mission_2 = result_2.unwrap();

    assert_eq!(mission_1.id, id1);
    assert_eq!(mission_2.id, id2);
    assert_eq!(mission_1.title, String::from("Batch Test 1"));
    assert_eq!(mission_2.title, String::from("Batch Test 2"));
}

#[test]
fn test_mission_exists_function() {
    let (mut client, owner, token_address) = setup_test_env();

    let mission_id = client.create_mission(
        &owner,
        &String::from("Existence Test"),
        &String::from("QmExist"),
        &token_address,
        &10_000_000,
        &10,
    );

    assert!(client.mission_exists(&mission_id));

    assert!(!client.mission_exists(&999));

    assert!(!client.mission_exists(&0));
}

#[test]
fn test_get_mission_reward_optimized_query() {
    let (mut client, owner, token_address) = setup_test_env();

    let reward_amount: i128 = 25_000_000;

    let mission_id = client.create_mission(
        &owner,
        &String::from("Reward Query Test"),
        &String::from("QmReward"),
        &token_address,
        &reward_amount,
        &15,
    );

    let (returned_token, returned_amount) = client.get_mission_reward(&mission_id);

    assert_eq!(returned_token, token_address);
    assert_eq!(returned_amount, reward_amount);
}

#[test]
#[should_panic(expected = "Error(Contract, #1)")]
fn test_get_mission_reward_not_found() {
    let (client, _owner, _token_address) = setup_test_env();

    client.get_mission_reward(&999);
}

#[test]
fn test_get_mission_status_lightweight_query() {
    let (mut client, owner, token_address) = setup_test_env();

    let mission_id = client.create_mission(
        &owner,
        &String::from("Status Query Test"),
        &String::from("QmStatus"),
        &token_address,
        &10_000_000,
        &10,
    );

    let status = client.get_mission_status(&mission_id);
    assert_eq!(status, MissionStatus::Created);

    client.update_mission_status(&mission_id, &MissionStatus::Started);

    let status = client.get_mission_status(&mission_id);
    assert_eq!(status, MissionStatus::Started);
}

#[test]
fn test_cancel_mission_full_refund() {
    let (mut client, owner, token_id) = setup_test_env();

    let reward_amount = 10_000_000;
    let max_participants = 5;
    let total_needed = reward_amount * max_participants as i128;

    let mission_id = client.create_mission(
        &owner,
        &String::from("Refund Test"),
        &String::from("QmDesc"),
        &token_id,
        &reward_amount,
        &max_participants,
    );

    let contract_balance_before = client.book.balance(&token_id, &Account::Escrow);
    assert_eq!(contract_balance_before, total_needed);

    client.cancel_mission(&mission_id);

    let contract_balance_after = client.book.balance(&token_id, &Account::Escrow);
    assert_eq!(contract_balance_after, 0);

    let owner_balance_final = client.book.balance(&token_id, &Account::Holder(owner.clone()));
    assert_eq!(owner_balance_final, 1_000_000_000_000);
}

#[test]
#[should_panic(expected = "Error(Contract, #2)")]
fn test_cancel_already_cancelled_mission_fails() {
    let (mut client, owner, token_id) = setup_test_env();

    let mission_id = client.create_mission(
        &owner,
        &String::from("Test"),
        &String::from("QmDesc"),
        &token_id,
        &10_000_000,
        &50,
    );

    client.cancel_mission(&mission_id);
    client.cancel_mission(&mission_id);
}

#[test]
fn test_pause_mission_success() {
    let (mut client, owner, token_id) = setup_test_env();

    let mission_id = client.create_mission(
        &owner,
        &String::from("Pause Test Mission"),
        &String::from("QmDesc"),
        &token_id,
        &10_000_000,
        &50,
    );

    let mission = client.get_mission(&mission_id);
    assert_eq!(mission.status, MissionStatus::Created);

    client.pause_mission(&mission_id);

    let mission = client.get_mission(&mission_id);
    assert_eq!(mission.status, MissionStatus::Paused);
}

#[test]
#[should_panic]
fn test_pause_mission_only_owner_can_pause() {
    let (mut client, owner, token_id) = setup_test_env();

    let mission_id = client.create_mission(
        &owner,
        &String::from("Owner Only Pause Test"),
        &String::from("QmDesc"),
        &token_id,
        &10_000_000,
        &50,
    );

    let non_owner = Address::from_str("GSTRANGER");

    client.signer = Some(non_owner);

    client.pause_mission(&mission_id);
}
