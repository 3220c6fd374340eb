//! Accounting core of a collateralized lending protocol over one asset:
//! per-account balances, debts and collateral, protocol-wide totals, and the
//! pause and admin gates that every transition passes first.

use vstd::prelude::*;

pub mod account;
pub mod error;
pub mod events;
pub mod lending;
pub mod positions;

pub use account::AccountId;
pub use error::Error;
pub use events::{
    Balance, Borrow, CollateralAdded, CollateralRemoved, ContractPaused, ContractUnpaused,
    Deposit, Event, Initialized, InterestAccrued, InterestRateModelUpdated, Liquidate, Repay,
    Withdraw,
};
pub use lending::LendingProtocol;

verus! {

} // verus!
