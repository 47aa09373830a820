//! An escrow-backed ledger of missions and the submissions made against them.
//!
//! An owner funds a mission up front, hunters hand in work, and the owner
//! releases one reward per accepted submission. The ledger keeps the records
//! and decides every operation; moving tokens, checking signatures, reading
//! the clock and publishing events belong to the host. The host names the
//! identity that authenticated a call and the time of the call, and is told
//! what to do by the [`Receipt`] that the operation returns.
//!
//! - [`store`] holds the ledger, [`QuidStoreContract`], and its operations.
//! - [`model`] says what each operation does, over the ledger as a
//!   mathematical state; the operations' contracts are written in it.
//! - [`calls`] and [`laws`] state what holds of every call and of every
//!   history of calls.
//! - [`types`], [`receipt`], [`address`] and [`error`] hold the records and
//!   values that go in and out.
//! - [`assoc`] relates records kept in a sequence to the map they stand for.

pub mod address;
pub mod assoc;
pub mod calls;
pub mod error;
pub mod laws;
pub mod model;
pub mod receipt;
pub mod store;
pub mod types;

pub use address::Address;
pub use error::QuidError;
pub use receipt::{Account, Event, Receipt, Transfer};
pub use store::QuidStoreContract;
pub use types::{DataKey, Mission, MissionStatus, Submission, SubmissionStatus};
