use vstd::prelude::*;

use crate::account::AccountId;

verus! {

/// Quantity of the protocol's single underlying asset.
pub type Balance = u128;

/// The protocol was created with these collaborators.
#[derive(Clone, Copy, Debug, PartialEq, Eq)]
pub struct Initialized {
    pub interest_rate_model: AccountId,
    pub underlying_asset: AccountId,
}

/// Assets were deposited.
#[derive(Clone, Copy, Debug, PartialEq, Eq)]
pub struct Deposit {
    pub from: AccountId,
    pub amount: Balance,
}

/// Assets were withdrawn.
#[derive(Clone, Copy, Debug, PartialEq, Eq)]
pub struct Withdraw {
    pub to: AccountId,
    pub amount: Balance,
}

/// Assets were borrowed.
#[derive(Clone, Copy, Debug, PartialEq, Eq)]
pub struct Borrow {
    pub borrower: AccountId,
    pub amount: Balance,
}

/// Debt was repaid.
#[derive(Clone, Copy, Debug, PartialEq, Eq)]
pub struct Repay {
    pub borrower: AccountId,
    pub amount: Balance,
}

/// A borrower's debt and collateral were reduced by a liquidator.
#[derive(Clone, Copy, Debug, PartialEq, Eq)]
pub struct Liquidate {
    pub liquidator: AccountId,
    pub borrower: AccountId,
    pub amount: Balance,
}

/// Interest was added to the total borrow.
#[derive(Clone, Copy, Debug, PartialEq, Eq)]
pub struct InterestAccrued {
    pub amount: Balance,
}

/// The interest rate model was replaced.
#[derive(Clone, Copy, Debug, PartialEq, Eq)]
pub struct InterestRateModelUpdated {
    pub new_model: AccountId,
}

/// Collateral was pledged.
#[derive(Clone, Copy, Debug, PartialEq, Eq)]
pub struct CollateralAdded {
    pub user: AccountId,
    pub amount: Balance,
}

/// Collateral was released.
#[derive(Clone, Copy, Debug, PartialEq, Eq)]
pub struct CollateralRemoved {
    pub user: AccountId,
    pub amount: Balance,
}

/// The pause gate was closed.
#[derive(Clone, Copy, Debug, PartialEq, Eq)]
pub struct ContractPaused;

/// The pause gate was opened.
#[derive(Clone, Copy, Debug, PartialEq, Eq)]
pub struct ContractUnpaused;

/// One notification, as handed to the host's notification sink.
#[derive(Clone, Copy, Debug, PartialEq, Eq)]
pub enum Event {
    Initialized(Initialized),
    Deposit(Deposit),
    Withdraw(Withdraw),
    Borrow(Borrow),
    Repay(Repay),
    Liquidate(Liquidate),
    InterestAccrued(InterestAccrued),
    InterestRateModelUpdated(InterestRateModelUpdated),
    CollateralAdded(CollateralAdded),
    CollateralRemoved(CollateralRemoved),
    ContractPaused(ContractPaused),
    ContractUnpaused(ContractUnpaused),
}

} // verus!
