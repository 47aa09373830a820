use vstd::prelude::*;
use crate::address::Address;
use crate::types::{DataKey, DataKeyView, MissionStatus};

verus! {

/// One side of a token transfer: the ledger's own escrow, or a party.
#[derive(Debug, PartialEq, Eq)]
pub enum Account {
    /// The balance the ledger itself holds for its missions.
    Escrow,
    /// The balance of an owner or a hunter.
    Holder(Address),
}

/// An account as a mathematical value.
pub enum AccountView {
    Escrow,
    Holder(Seq<char>),
}

impl View for Account {
    type V = AccountView;

    open spec fn view(&self) -> AccountView {
        match self {
            Account::Escrow => AccountView::Escrow,
            Account::Holder(who) => AccountView::Holder(who@),
        }
    }
}

/// A movement of tokens that the host has to carry out.
#[derive(Debug, PartialEq, Eq)]
pub struct Transfer {
    pub token: Address,
    pub from: Account,
    pub to: Account,
    pub amount: i128,
}

/// A transfer as a mathematical record.
pub struct TransferView {
    pub token: Seq<char>,
    pub from: AccountView,
    pub to: AccountView,
    pub amount: i128,
}

impl TransferView {
    /// By how much the given account's balance of `token` changes when the
    /// transfer is carried out.
    pub open spec fn change_of(self, token: Seq<char>, account: AccountView) -> int {
        if self.token != token {
            0
        } else {
            (if self.to == account {
                self.amount as int
            } else {
                0
            }) - (if self.from == account {
                self.amount as int
            } else {
                0
            })
        }
    }
}

impl View for Transfer {
    type V = TransferView;

    open spec fn view(&self) -> TransferView {
        TransferView { token: self.token@, from: self.from@, to: self.to@, amount: self.amount }
    }
}

impl Transfer {
    /// A transfer from a party into escrow.
    pub fn deposit(token: Address, from: Address, amount: i128) -> (t: Transfer)
        ensures
            t@ == (TransferView {
                token: token@,
                from: AccountView::Holder(from@),
                to: AccountView::Escrow,
                amount,
            }),
    {
        Transfer { token, from: Account::Holder(from), to: Account::Escrow, amount }
    }

    /// A transfer out of escrow to a party.
    pub fn release(token: Address, to: Address, amount: i128) -> (t: Transfer)
        ensures
            t@ == (TransferView {
                token: token@,
                from: AccountView::Escrow,
                to: AccountView::Holder(to@),
                amount,
            }),
    {
        Transfer { token, from: Account::Escrow, to: Account::Holder(to), amount }
    }
}

/// What an operation announces to whoever follows the ledger.
#[derive(Debug, PartialEq, Eq)]
pub enum Event {
    MissionCreated { mission_id: u64, owner: Address },
    SubmissionCreated { mission_id: u64, hunter: Address },
    PayoutCompleted { mission_id: u64, hunter: Address },
    MissionCancelled { mission_id: u64 },
    MissionStatusUpdated { mission_id: u64, status: MissionStatus },
}

/// An event as a mathematical value.
pub enum EventView {
    MissionCreated { mission_id: u64, owner: Seq<char> },
    SubmissionCreated { mission_id: u64, hunter: Seq<char> },
    PayoutCompleted { mission_id: u64, hunter: Seq<char> },
    MissionCancelled { mission_id: u64 },
    MissionStatusUpdated { mission_id: u64, status: MissionStatus },
}

impl View for Event {
    type V = EventView;

    open spec fn view(&self) -> EventView {
        match self {
            Event::MissionCreated { mission_id, owner } => EventView::MissionCreated {
                mission_id: *mission_id,
                owner: owner@,
            },
            Event::SubmissionCreated { mission_id, hunter } => EventView::SubmissionCreated {
                mission_id: *mission_id,
                hunter: hunter@,
            },
            Event::PayoutCompleted { mission_id, hunter } => EventView::PayoutCompleted {
                mission_id: *mission_id,
                hunter: hunter@,
            },
            Event::MissionCancelled { mission_id } => EventView::MissionCancelled {
                mission_id: *mission_id,
            },
            Event::MissionStatusUpdated { mission_id, status } => EventView::MissionStatusUpdated {
                mission_id: *mission_id,
                status: *status,
            },
        }
    }
}

/// What a successful operation asks of the host.
///
/// The ledger has already taken the new state. The host carries out the
/// transfer first, then stores the records named in `writes` and publishes
/// the event. The transfer backs the new state: a host that cannot complete
/// it goes back to the ledger as it stood before the operation and stores
/// nothing.
#[derive(Debug, PartialEq, Eq)]
pub struct Receipt {
    /// The mission the operation worked on.
    pub mission_id: u64,
    /// The tokens to move, if any.
    pub transfer: Option<Transfer>,
    /// The event to publish, if any.
    pub event: Option<Event>,
    /// The keys of the records that changed.
    pub writes: Vec<DataKey>,
}

/// A receipt as a mathematical record.
pub struct ReceiptView {
    pub mission_id: u64,
    pub transfer: Option<TransferView>,
    pub event: Option<EventView>,
    pub writes: Seq<DataKeyView>,
}

impl ReceiptView {
    /// By how much the escrow's balance of `token` changes.
    pub open spec fn escrow_change(self, token: Seq<char>) -> int {
        match self.transfer {
            Some(t) => t.change_of(token, AccountView::Escrow),
            None => 0,
        }
    }

    /// By how much the balance that `who` holds of `token` changes.
    pub open spec fn holder_change(self, token: Seq<char>, who: Seq<char>) -> int {
        match self.transfer {
            Some(t) => t.change_of(token, AccountView::Holder(who)),
            None => 0,
        }
    }
}

impl View for Receipt {
    type V = ReceiptView;

    open spec fn view(&self) -> ReceiptView {
        ReceiptView {
            mission_id: self.mission_id,
            transfer: match self.transfer {
                Some(t) => Some(t@),
                None => None,
            },
            event: match self.event {
                Some(e) => Some(e@),
                None => None,
            },
            writes: Seq::new(self.writes@.len(), |i: int| self.writes@[i]@),
        }
    }
}

} // verus!
