use vstd::prelude::*;

use crate::account::AccountId;
use crate::error::Error;
use crate::events::{
    Balance, Borrow, CollateralAdded, CollateralRemoved, ContractPaused, ContractUnpaused,
    Deposit, Event, Initialized, InterestAccrued, InterestRateModelUpdated, Liquidate, Repay,
    Withdraw,
};
use crate::positions::{
    amount_of, balance_field, collateral_field, debt_field, lemma_amount_le_total, total,
    Position, PositionTable,
};

verus! {

/// The most an account may owe against `collateral`: half of it, rounded down.
pub open spec fn max_borrow(collateral: nat) -> nat {
    collateral / 2
}

/// The interest one accrual adds to `total_borrow`: one percent, rounded down.
pub open spec fn interest_on(total_borrow: nat) -> nat {
    total_borrow / 100
}

/// What a query of liquidity reports: collateral less debt, or zero on a deficit.
pub open spec fn liquidity(collateral: nat, debt: nat) -> nat {
    if collateral >= debt {
        (collateral - debt) as nat
    } else {
        0
    }
}

/// The abstract state of the ledger. An account absent from a map holds zero.
pub struct Ledger {
    pub admin: AccountId,
    pub interest_rate_model: AccountId,
    pub underlying_asset: AccountId,
    pub paused: bool,
    pub total_supply: nat,
    pub total_borrow: nat,
    pub balances: Map<AccountId, nat>,
    pub debts: Map<AccountId, nat>,
    pub collaterals: Map<AccountId, nat>,
    /// Notifications emitted and not yet taken by the host.
    pub events: Seq<Event>,
}

/// The ledger of a collateralized lending protocol over one asset.
pub struct LendingProtocol {
    interest_rate_model: AccountId,
    underlying_asset: AccountId,
    total_supply: Balance,
    total_borrow: Balance,
    paused: bool,
    positions: PositionTable,
    admin: AccountId,
    events: Vec<Event>,
}

impl View for LendingProtocol {
    type V = Ledger;

    closed spec fn view(&self) -> Ledger {
        Ledger {
            admin: self.admin,
            interest_rate_model: self.interest_rate_model,
            underlying_asset: self.underlying_asset,
            paused: self.paused,
            total_supply: self.total_supply as nat,
            total_borrow: self.total_borrow as nat,
            balances: Map::new(
                |a: AccountId| true,
                |a: AccountId| amount_of(self.positions@, a, balance_field()),
            ),
            debts: Map::new(
                |a: AccountId| true,
                |a: AccountId| amount_of(self.positions@, a, debt_field()),
            ),
            collaterals: Map::new(
                |a: AccountId| true,
                |a: AccountId| amount_of(self.positions@, a, collateral_field()),
            ),
            events: self.events@,
        }
    }
}

impl LendingProtocol {
    /// The sum of the balances of all accounts.
    pub closed spec fn sum_balances(&self) -> nat {
        total(self.positions@, balance_field())
    }

    /// The sum of the debts of all accounts.
    pub closed spec fn sum_debts(&self) -> nat {
        total(self.positions@, debt_field())
    }

    /// The recorded total borrow equals the sum of all debts.
    pub open spec fn borrow_matches(&self) -> bool {
        self@.total_borrow == self.sum_debts()
    }

    /// The ledger is well formed: one position per account, the total supply
    /// equals the sum of all balances, and the total borrow covers the sum of
    /// all debts.
    pub closed spec fn wf(&self) -> bool {
        &&& self.positions.wf()
        &&& self.total_supply as nat == self.sum_balances()
        &&& self.sum_debts() <= self.total_borrow as nat
    }

    /// The total supply of a well-formed ledger is the sum of all balances.
    pub proof fn lemma_supply_matches(&self)
        requires
            self.wf(),
        ensures
            self@.total_supply == self.sum_balances(),
    {
    }

    /// Creates an empty, unpaused ledger administered by `caller`, and emits
    /// `Initialized`.
    pub fn new(
        interest_rate_model: AccountId,
        underlying_asset: AccountId,
        caller: AccountId,
    ) -> (r: LendingProtocol)
        ensures
            r.wf(),
            r.borrow_matches(),
            r@.admin == caller,
            r@.interest_rate_model == interest_rate_model,
            r@.underlying_asset == underlying_asset,
            !r@.paused,
            r@.total_supply == 0,
            r@.total_borrow == 0,
            forall|a: AccountId|
                r@.balances[a] == 0 && r@.debts[a] == 0 && r@.collaterals[a] == 0,
            r@.events == seq![
                Event::Initialized(Initialized { interest_rate_model, underlying_asset }),
            ],
    {
        let mut events: Vec<Event> = Vec::new();
        events.push(Event::Initialized(Initialized { interest_rate_model, underlying_asset }));
        let r = LendingProtocol {
            interest_rate_model,
            underlying_asset,
            total_supply: 0,
            total_borrow: 0,
            paused: false,
            positions: PositionTable::new(),
            admin: caller,
            events,
        };
        assert(r@.events =~= seq![
            Event::Initialized(Initialized { interest_rate_model, underlying_asset }),
        ]);
        r
    }

    /// Reduces `borrower`'s debt and collateral by `amount`, on behalf of any
    /// caller.
    pub fn liquidate(&mut self, caller: AccountId, borrower: AccountId, amount: Balance) -> (r:
        Result<(), Error>)
        requires
            old(self).wf(),
        ensures
            final(self).wf(),
            r is Err ==> *final(self) == *old(self),
            old(self)@.paused ==> r == Err::<(), Error>(Error::ContractPaused),
            !old(self)@.paused && old(self)@.debts[borrower] < amount ==> r == Err::<(), Error>(
                Error::InsufficientBalance,
            ),
            !old(self)@.paused && old(self)@.debts[borrower] >= amount
                && old(self)@.collaterals[borrower] < amount ==> r == Err::<(), Error>(
                Error::InsufficientCollateral,
            ),
            !old(self)@.paused && old(self)@.debts[borrower] >= amount
                && old(self)@.collaterals[borrower] >= amount ==> {
                &&& r is Ok
                &&& final(self)@ == (Ledger {
                    debts: old(self)@.debts.insert(
                        borrower,
                        (old(self)@.debts[borrower] - amount) as nat,
                    ),
                    collaterals: old(self)@.collaterals.insert(
                        borrower,
                        (old(self)@.collaterals[borrower] - amount) as nat,
                    ),
                    events: old(self)@.events.push(
                        Event::Liquidate(Liquidate { liquidator: caller, borrower, amount }),
                    ),
                    ..old(self)@
                })
                &&& final(self).sum_debts() == old(self).sum_debts() - amount
            },
    {
        self.not_paused()?;
        let pos = self.positions.get(&borrower);
        if pos.debt < amount {
            return Err(Error::InsufficientBalance);
        }
        if pos.collateral < amount {
            return Err(Error::InsufficientCollateral);
        }
        self.store(Position { debt: pos.debt - amount, collateral: pos.collateral - amount, ..pos });
        self.events.push(Event::Liquidate(Liquidate { liquidator: caller, borrower, amount }));
        proof {
            assert(old(self)@.balances.insert(borrower, old(self)@.balances[borrower])
                =~= old(self)@.balances);
        }
        Ok(())
    }

    /// Adds `amount` to the caller's debt and to the total borrow, provided
    /// the new debt stays within half of the caller's collateral.
    pub fn borrow(&mut self, caller: AccountId, amount: Balance) -> (r: Result<(), Error>)
        requires
            old(self).wf(),
        ensures
            final(self).wf(),
            r is Err ==> *final(self) == *old(self),
            old(self).borrow_matches() ==> final(self).borrow_matches(),
            old(self)@.paused ==> r == Err::<(), Error>(Error::ContractPaused),
            !old(self)@.paused && old(self)@.debts[caller] + amount > max_borrow(
                old(self)@.collaterals[caller],
            ) ==> r == Err::<(), Error>(Error::InsufficientCollateral),
            !old(self)@.paused && old(self)@.debts[caller] + amount <= max_borrow(
                old(self)@.collaterals[caller],
            ) && old(self)@.total_borrow + amount > u128::MAX ==> r == Err::<(), Error>(
                Error::Overflow,
            ),
            !old(self)@.paused && old(self)@.debts[caller] + amount <= max_borrow(
                old(self)@.collaterals[caller],
            ) && old(self)@.total_borrow + amount <= u128::MAX ==> {
                &&& r is Ok
                &&& final(self)@ == (Ledger {
                    debts: old(self)@.debts.insert(caller, (old(self)@.debts[caller] + amount) as nat),
                    total_borrow: (old(self)@.total_borrow + amount) as nat,
                    events: old(self)@.events.push(
                        Event::Borrow(Borrow { borrower: caller, amount }),
                    ),
                    ..old(self)@
                })
            },
    {
        self.not_paused()?;
        let pos = self.positions.get(&caller);
        let max_borrow = Self::calculate_max_borrow(pos.collateral);
        if amount > max_borrow || pos.debt > max_borrow - amount {
            return Err(Error::InsufficientCollateral);
        }
        if amount > u128::MAX - self.total_borrow {
            return Err(Error::Overflow);
        }
        self.store(Position { debt: pos.debt + amount, ..pos });
        self.total_borrow = self.total_borrow + amount;
        self.events.push(Event::Borrow(Borrow { borrower: caller, amount }));
        proof {
            assert(old(self)@.balances.insert(caller, old(self)@.balances[caller])
                =~= old(self)@.balances);
            assert(old(self)@.collaterals.insert(caller, old(self)@.collaterals[caller])
                =~= old(self)@.collaterals);
        }
        Ok(())
    }

    /// Takes `amount` off the caller's balance and the total supply.
    pub fn withdraw(&mut self, caller: AccountId, amount: Balance) -> (r: Result<(), Error>)
        requires
            old(self).wf(),
        ensures
            final(self).wf(),
            r is Err ==> *final(self) == *old(self),
            old(self).borrow_matches() ==> final(self).borrow_matches(),
            old(self)@.paused ==> r == Err::<(), Error>(Error::ContractPaused),
            !old(self)@.paused && old(self)@.balances[caller] < amount ==> r == Err::<(), Error>(
                Error::InsufficientBalance,
            ),
            !old(self)@.paused && old(self)@.balances[caller] >= amount ==> {
                &&& r is Ok
                &&& final(self)@ == (Ledger {
                    balances: old(self)@.balances.insert(
                        caller,
                        (old(self)@.balances[caller] - amount) as nat,
                    ),
                    total_supply: (old(self)@.total_supply - amount) as nat,
                    events: old(self)@.events.push(Event::Withdraw(Withdraw { to: caller, amount })),
                    ..old(self)@
                })
            },
    {
        self.not_paused()?;
        let pos = self.positions.get(&caller);
        if pos.balance < amount {
            return Err(Error::InsufficientBalance);
        }
        proof {
            lemma_amount_le_total(self.positions@, caller, balance_field());
        }
        self.store(Position { balance: pos.balance - amount, ..pos });
        self.total_supply = self.total_supply - amount;
        self.events.push(Event::Withdraw(Withdraw { to: caller, amount }));
        proof {
            assert(old(self)@.debts.insert(caller, old(self)@.debts[caller]) =~= old(self)@.debts);
            assert(old(self)@.collaterals.insert(caller, old(self)@.collaterals[caller])
                =~= old(self)@.collaterals);
        }
        Ok(())
    }

    /// Takes `amount` off the caller's debt and the total borrow.
    pub fn repay(&mut self, caller: AccountId, amount: Balance) -> (r: Result<(), Error>)
        requires
            old(self).wf(),
        ensures
            final(self).wf(),
            r is Err ==> *final(self) == *old(self),
            old(self).borrow_matches() ==> final(self).borrow_matches(),
            old(self)@.paused ==> r == Err::<(), Error>(Error::ContractPaused),
            !old(self)@.paused && old(self)@.debts[caller] < amount ==> r == Err::<(), Error>(
                Error::InsufficientBalance,
            ),
            !old(self)@.paused && old(self)@.debts[caller] >= amount ==> {
                &&& r is Ok
                &&& final(self)@ == (Ledger {
                    debts: old(self)@.debts.insert(
                        caller,
                        (old(self)@.debts[caller] - amount) as nat,
                    ),
                    total_borrow: (old(self)@.total_borrow - amount) as nat,
                    events: old(self)@.events.push(
                        Event::Repay(Repay { borrower: caller, amount }),
                    ),
                    ..old(self)@
                })
            },
    {
        self.not_paused()?;
        let pos = self.positions.get(&caller);
        if pos.debt < amount {
            return Err(Error::InsufficientBalance);
        }
        proof {
            lemma_amount_le_total(self.positions@, caller, debt_field());
        }
        self.store(Position { debt: pos.debt - amount, ..pos });
        self.total_borrow = self.total_borrow - amount;
        self.events.push(Event::Repay(Repay { borrower: caller, amount }));
        proof {
            assert(old(self)@.balances.insert(caller, old(self)@.balances[caller])
                =~= old(self)@.balances);
            assert(old(self)@.collaterals.insert(caller, old(self)@.collaterals[caller])
                =~= old(self)@.collaterals);
        }
        Ok(())
    }

    /// Adds `amount` to the caller's balance and to the total supply.
    pub fn deposit(&mut self, caller: AccountId, amount: Balance) -> (r: Result<(), Error>)
        requires
            old(self).wf(),
        ensures
            final(self).wf(),
            r is Err ==> *final(self) == *old(self),
            old(self).borrow_matches() ==> final(self).borrow_matches(),
            old(self)@.paused ==> r == Err::<(), Error>(Error::ContractPaused),
            !old(self)@.paused && old(self)@.total_supply + amount > u128::MAX ==> r == Err::<
                (),
                Error,
            >(Error::Overflow),
            !old(self)@.paused && old(self)@.total_supply + amount <= u128::MAX ==> {
                &&& r is Ok
                &&& final(self)@ == (Ledger {
                    balances: old(self)@.balances.insert(
                        caller,
                        (old(self)@.balances[caller] + amount) as nat,
                    ),
                    total_supply: (old(self)@.total_supply + amount) as nat,
                    events: old(self)@.events.push(
                        Event::Deposit(Deposit { from: caller, amount }),
                    ),
                    ..old(self)@
                })
            },
    {
        self.not_paused()?;
        let pos = self.positions.get(&caller);
        if amount > u128::MAX - self.total_supply {
            return Err(Error::Overflow);
        }
        proof {
            lemma_amount_le_total(self.positions@, caller, balance_field());
        }
        self.store(Position { balance: pos.balance + amount, ..pos });
        self.total_supply = self.total_supply + amount;
        self.events.push(Event::Deposit(Deposit { from: caller, amount }));
        proof {
            assert(old(self)@.debts.insert(caller, old(self)@.debts[caller]) =~= old(self)@.debts);
            assert(old(self)@.collaterals.insert(caller, old(self)@.collaterals[caller])
                =~= old(self)@.collaterals);
        }
        Ok(())
    }

    /// Pledges `amount` more collateral for the caller.
    pub fn add_collateral(&mut self, caller: AccountId, amount: Balance) -> (r: Result<(), Error>)
        requires
            old(self).wf(),
        ensures
            final(self).wf(),
            r is Err ==> *final(self) == *old(self),
            old(self).borrow_matches() ==> final(self).borrow_matches(),
            old(self)@.paused ==> r == Err::<(), Error>(Error::ContractPaused),
            !old(self)@.paused && old(self)@.collaterals[caller] + amount > u128::MAX ==> r
                == Err::<(), Error>(Error::Overflow),
            !old(self)@.paused && old(self)@.collaterals[caller] + amount <= u128::MAX ==> {
                &&& r is Ok
                &&& final(self)@ == (Ledger {
                    collaterals: old(self)@.collaterals.insert(
                        caller,
                        (old(self)@.collaterals[caller] + amount) as nat,
                    ),
                    events: old(self)@.events.push(
                        Event::CollateralAdded(CollateralAdded { user: caller, amount }),
                    ),
                    ..old(self)@
                })
            },
    {
        self.not_paused()?;
        let pos = self.positions.get(&caller);
        if amount > u128::MAX - pos.collateral {
            return Err(Error::Overflow);
        }
        self.store(Position { collateral: pos.collateral + amount, ..pos });
        self.events.push(Event::CollateralAdded(CollateralAdded { user: caller, amount }));
        proof {
            assert(old(self)@.balances.insert(caller, old(self)@.balances[caller])
                =~= old(self)@.balances);
            assert(old(self)@.debts.insert(caller, old(self)@.debts[caller]) =~= old(self)@.debts);
        }
        Ok(())
    }

    /// Releases `amount` of the caller's collateral.
    pub fn remove_collateral(&mut self, caller: AccountId, amount: Balance) -> (r: Result<
        (),
        Error,
    >)
        requires
            old(self).wf(),
        ensures
            final(self).wf(),
            r is Err ==> *final(self) == *old(self),
            old(self).borrow_matches() ==> final(self).borrow_matches(),
            old(self)@.paused ==> r == Err::<(), Error>(Error::ContractPaused),
            !old(self)@.paused && old(self)@.collaterals[caller] < amount ==> r == Err::<
                (),
                Error,
            >(Error::InsufficientCollateral),
            !old(self)@.paused && old(self)@.collaterals[caller] >= amount ==> {
                &&& r is Ok
                &&& final(self)@ == (Ledger {
                    collaterals: old(self)@.collaterals.insert(
                        caller,
                        (old(self)@.collaterals[caller] - amount) as nat,
                    ),
                    events: old(self)@.events.push(
                        Event::CollateralRemoved(CollateralRemoved { user: caller, amount }),
                    ),
                    ..old(self)@
                })
            },
    {
        self.not_paused()?;
        let pos = self.positions.get(&caller);
        if pos.collateral < amount {
            return Err(Error::InsufficientCollateral);
        }
        self.store(Position { collateral: pos.collateral - amount, ..pos });
        self.events.push(Event::CollateralRemoved(CollateralRemoved { user: caller, amount }));
        proof {
            assert(old(self)@.balances.insert(caller, old(self)@.balances[caller])
                =~= old(self)@.balances);
            assert(old(self)@.debts.insert(caller, old(self)@.debts[caller]) =~= old(self)@.debts);
        }
        Ok(())
    }

    /// Adds one percent of the total borrow, rounded down, to the total borrow.
    /// No account's debt changes.
    pub fn accrue_interest(&mut self) -> (r: Result<(), Error>)
        requires
            old(self).wf(),
        ensures
            final(self).wf(),
            r is Err ==> *final(self) == *old(self),
            final(self).sum_debts() == old(self).sum_debts(),
            old(self)@.paused ==> r == Err::<(), Error>(Error::ContractPaused),
            !old(self)@.paused && old(self)@.total_borrow + interest_on(old(self)@.total_borrow)
                > u128::MAX ==> r == Err::<(), Error>(Error::Overflow),
            !old(self)@.paused && old(self)@.total_borrow + interest_on(old(self)@.total_borrow)
                <= u128::MAX ==> {
                &&& r is Ok
                &&& final(self)@ == (Ledger {
                    total_borrow: old(self)@.total_borrow + interest_on(old(self)@.total_borrow),
                    events: old(self)@.events.push(
                        Event::InterestAccrued(
                            InterestAccrued {
                                amount: interest_on(old(self)@.total_borrow) as Balance,
                            },
                        ),
                    ),
                    ..old(self)@
                })
            },
    {
        self.not_paused()?;
        let interest = self.calculate_interest();
        if interest > u128::MAX - self.total_borrow {
            return Err(Error::Overflow);
        }
        self.total_borrow = self.total_borrow + interest;
        self.events.push(Event::InterestAccrued(InterestAccrued { amount: interest }));
        Ok(())
    }

    /// Replaces both collaborator references; admin only.
    pub fn initialize(
        &mut self,
        caller: AccountId,
        interest_rate_model: AccountId,
        underlying_asset: AccountId,
    ) -> (r: Result<(), Error>)
        requires
            old(self).wf(),
        ensures
            final(self).wf(),
            final(self).sum_debts() == old(self).sum_debts(),
            caller != old(self)@.admin ==> r == Err::<(), Error>(Error::NotAuthorized),
            r is Err ==> *final(self) == *old(self),
            caller == old(self)@.admin ==> r is Ok && final(self)@ == (Ledger {
                interest_rate_model,
                underlying_asset,
                ..old(self)@
            }),
    {
        self.only_admin(&caller)?;
        self.interest_rate_model = interest_rate_model;
        self.underlying_asset = underlying_asset;
        Ok(())
    }

    /// Replaces the interest rate model; admin only.
    pub fn set_interest_rate_model(&mut self, caller: AccountId, new_model: AccountId) -> (r:
        Result<(), Error>)
        requires
            old(self).wf(),
        ensures
            final(self).wf(),
            final(self).sum_debts() == old(self).sum_debts(),
            caller != old(self)@.admin ==> r == Err::<(), Error>(Error::NotAuthorized),
            r is Err ==> *final(self) == *old(self),
            caller == old(self)@.admin ==> r is Ok && final(self)@ == (Ledger {
                interest_rate_model: new_model,
                events: old(self)@.events.push(
                    Event::InterestRateModelUpdated(InterestRateModelUpdated { new_model }),
                ),
                ..old(self)@
            }),
    {
        self.only_admin(&caller)?;
        self.interest_rate_model = new_model;
        self.events.push(Event::InterestRateModelUpdated(InterestRateModelUpdated { new_model }));
        Ok(())
    }

    /// Closes the pause gate; admin only.
    pub fn pause_contract(&mut self, caller: AccountId) -> (r: Result<(), Error>)
        requires
            old(self).wf(),
        ensures
            final(self).wf(),
            final(self).sum_debts() == old(self).sum_debts(),
            caller != old(self)@.admin ==> r == Err::<(), Error>(Error::NotAuthorized),
            r is Err ==> *final(self) == *old(self),
            caller == old(self)@.admin ==> r is Ok && final(self)@ == (Ledger {
                paused: true,
                events: old(self)@.events.push(Event::ContractPaused(ContractPaused)),
                ..old(self)@
            }),
    {
        self.only_admin(&caller)?;
        self.paused = true;
        self.events.push(Event::ContractPaused(ContractPaused));
        Ok(())
    }

    /// Opens the pause gate; admin only.
    pub fn unpause_contract(&mut self, caller: AccountId) -> (r: Result<(), Error>)
        requires
            old(self).wf(),
        ensures
            final(self).wf(),
            final(self).sum_debts() == old(self).sum_debts(),
            caller != old(self)@.admin ==> r == Err::<(), Error>(Error::NotAuthorized),
            r is Err ==> *final(self) == *old(self),
            caller == old(self)@.admin ==> r is Ok && final(self)@ == (Ledger {
                paused: false,
                events: old(self)@.events.push(Event::ContractUnpaused(ContractUnpaused)),
                ..old(self)@
            }),
    {
        self.only_admin(&caller)?;
        self.paused = false;
        self.events.push(Event::ContractUnpaused(ContractUnpaused));
        Ok(())
    }

    /// Collateral less debt of `user`, or zero where the debt is larger.
    pub fn get_account_liquidity(&self, user: AccountId) -> (r: Balance)
        requires
            self.wf(),
        ensures
            r == liquidity(self@.collaterals[user], self@.debts[user]),
    {
        let pos = self.positions.get(&user);
        pos.collateral.saturating_sub(pos.debt)
    }

    /// The total of all deposits.
    pub fn get_total_supply(&self) -> (r: Balance)
        ensures
            r == self@.total_supply,
    {
        self.total_supply
    }

    /// The total borrowed, interest included.
    pub fn get_total_borrow(&self) -> (r: Balance)
        ensures
            r == self@.total_borrow,
    {
        self.total_borrow
    }

    /// The deposited balance of `user`.
    pub fn balance_of(&self, user: AccountId) -> (r: Balance)
        requires
            self.wf(),
        ensures
            r == self@.balances[user],
    {
        self.positions.get(&user).balance
    }

    /// The debt of `user`.
    pub fn debt_of(&self, user: AccountId) -> (r: Balance)
        requires
            self.wf(),
        ensures
            r == self@.debts[user],
    {
        self.positions.get(&user).debt
    }

    /// The collateral pledged by `user`.
    pub fn collateral_of(&self, user: AccountId) -> (r: Balance)
        requires
            self.wf(),
        ensures
            r == self@.collaterals[user],
    {
        self.positions.get(&user).collateral
    }

    /// The account allowed to perform admin operations.
    pub fn admin(&self) -> (r: AccountId)
        ensures
            r == self@.admin,
    {
        self.admin
    }

    /// The current interest rate model reference.
    pub fn interest_rate_model(&self) -> (r: AccountId)
        ensures
            r == self@.interest_rate_model,
    {
        self.interest_rate_model
    }

    /// The current underlying asset reference.
    pub fn underlying_asset(&self) -> (r: AccountId)
        ensures
            r == self@.underlying_asset,
    {
        self.underlying_asset
    }

    /// Whether the pause gate is closed.
    pub fn is_paused(&self) -> (r: bool)
        ensures
            r == self@.paused,
    {
        self.paused
    }

    /// Hands the emitted notifications to the host, oldest first, and forgets them.
    pub fn take_events(&mut self) -> (r: Vec<Event>)
        requires
            old(self).wf(),
        ensures
            final(self).wf(),
            final(self).sum_debts() == old(self).sum_debts(),
            r@ == old(self)@.events,
            final(self)@ == (Ledger { events: Seq::empty(), ..old(self)@ }),
    {
        let mut taken: Vec<Event> = Vec::new();
        std::mem::swap(&mut taken, &mut self.events);
        assert(self@.events =~= Seq::<Event>::empty());
        taken
    }

    /// Records `p` for its account and leaves every other field alone.
    fn store(&mut self, p: Position)
        requires
            old(self).positions.wf(),
        ensures
            final(self).positions.wf(),
            final(self)@ == (Ledger {
                balances: old(self)@.balances.insert(p.account, p.balance as nat),
                debts: old(self)@.debts.insert(p.account, p.debt as nat),
                collaterals: old(self)@.collaterals.insert(p.account, p.collateral as nat),
                ..old(self)@
            }),
            final(self).sum_balances() == old(self).sum_balances() - old(self)@.balances[p.account]
                + p.balance,
            final(self).sum_debts() == old(self).sum_debts() - old(self)@.debts[p.account]
                + p.debt,
    {
        self.positions.put(p);
        assert(self@.balances =~= old(self)@.balances.insert(p.account, p.balance as nat));
        assert(self@.debts =~= old(self)@.debts.insert(p.account, p.debt as nat));
        assert(self@.collaterals =~= old(self)@.collaterals.insert(
            p.account,
            p.collateral as nat,
        ));
        assert(total(self.positions@, balance_field()) == total(old(self).positions@, balance_field())
            - amount_of(old(self).positions@, p.account, balance_field()) + p.balance);
        assert(total(self.positions@, debt_field()) == total(old(self).positions@, debt_field())
            - amount_of(old(self).positions@, p.account, debt_field()) + p.debt);
    }

    /// Fails with `ContractPaused` while the pause gate is closed.
    fn not_paused(&self) -> (r: Result<(), Error>)
        ensures
            r == (if self@.paused {
                Err::<(), Error>(Error::ContractPaused)
            } else {
                Ok(())
            }),
    {
        if self.paused {
            return Err(Error::ContractPaused);
        }
        Ok(())
    }

    /// Fails with `NotAuthorized` unless `caller` is the admin.
    fn only_admin(&self, caller: &AccountId) -> (r: Result<(), Error>)
        ensures
            r == (if *caller == self@.admin {
                Ok::<(), Error>(())
            } else {
                Err(Error::NotAuthorized)
            }),
    {
        if !caller.same_as(&self.admin) {
            return Err(Error::NotAuthorized);
        }
        Ok(())
    }

    /// Half of `collateral`, rounded down.
    fn calculate_max_borrow(collateral: Balance) -> (r: Balance)
        ensures
            r == max_borrow(collateral as nat),
    {
        collateral / 2
    }

    /// One percent of the total borrow, rounded down.
    fn calculate_interest(&self) -> (r: Balance)
        ensures
            r == interest_on(self@.total_borrow),
    {
        self.total_borrow / 100
    }
}

} // verus!
