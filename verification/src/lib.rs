//! Hash-time-locked escrow: value is locked under a hash commitment and a
//! deadline, released to the beneficiary on a matching secret before the
//! deadline, and returned to the depositor after it.
//!
//! The escrow runs against a [`Ledger`], which holds what it reads and
//! writes of its surroundings: the clock, the keyed store with its liveness
//! windows, the identifier counter and the transfers that it asks of the
//! gateway. Authorising the depositor and moving the value are the
//! caller's part: the caller takes the waiting transfers from the ledger
//! and has them made.

pub mod address;
pub mod contract;
pub mod error;
pub mod hashlock;
pub mod laws;
pub mod storage;
pub mod u256;

pub use contract::Contract;
pub use error::Error;
pub use storage::{DataItem, Entry, Ledger, Transfer};
pub use u256::U256;
