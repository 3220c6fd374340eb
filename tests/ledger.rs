use lending_protocol::{
    AccountId, Borrow, CollateralAdded, CollateralRemoved, ContractPaused, ContractUnpaused,
    Deposit, Error, Event, Initialized, InterestAccrued, InterestRateModelUpdated,
    LendingProtocol, Liquidate, Repay, Withdraw,
};

fn acct(n: u8) -> AccountId {
    AccountId([n; 32])
}

fn admin() -> AccountId {
    acct(1)
}

fn fresh() -> LendingProtocol {
    let mut p = LendingProtocol::new(acct(200), acct(201), admin());
    p.take_events();
    p
}

#[test]
fn new_records_admin_and_emits_initialized() {
    let mut p = LendingProtocol::new(acct(200), acct(201), admin());
    assert_eq!(p.admin(), admin());
    assert_eq!(p.interest_rate_model(), acct(200));
    assert_eq!(p.underlying_asset(), acct(201));
    assert!(!p.is_paused());
    assert_eq!(p.get_total_supply(), 0);
    assert_eq!(p.get_total_borrow(), 0);
    assert_eq!(
        p.take_events(),
        vec![Event::Initialized(Initialized {
            interest_rate_model: acct(200),
            underlying_asset: acct(201),
        })]
    );
    assert!(p.take_events().is_empty());
}

#[test]
fn deposit_then_query_totals() {
    let a = acct(10);
    let mut p = fresh();
    assert_eq!(p.deposit(a, 100), Ok(()));
    assert_eq!(p.get_total_supply(), 100);
    assert_eq!(p.balance_of(a), 100);
    assert_eq!(p.take_events(), vec![Event::Deposit(Deposit { from: a, amount: 100 })]);
}

#[test]
fn total_supply_is_sum_of_balances() {
    let (a, b) = (acct(10), acct(11));
    let mut p = fresh();
    p.deposit(a, 100).unwrap();
    p.deposit(b, 50).unwrap();
    p.deposit(a, 7).unwrap();
    p.withdraw(b, 20).unwrap();
    assert_eq!(p.balance_of(a), 107);
    assert_eq!(p.balance_of(b), 30);
    assert_eq!(p.get_total_supply(), 137);
}

#[test]
fn withdraw_reduces_balance_and_supply() {
    let a = acct(10);
    let mut p = fresh();
    p.deposit(a, 100).unwrap();
    p.take_events();
    assert_eq!(p.withdraw(a, 40), Ok(()));
    assert_eq!(p.balance_of(a), 60);
    assert_eq!(p.get_total_supply(), 60);
    assert_eq!(p.take_events(), vec![Event::Withdraw(Withdraw { to: a, amount: 40 })]);
}

#[test]
fn withdraw_more_than_balance_fails() {
    let a = acct(10);
    let mut p = fresh();
    p.deposit(a, 100).unwrap();
    p.take_events();
    assert_eq!(p.withdraw(a, 101), Err(Error::InsufficientBalance));
    assert_eq!(p.balance_of(a), 100);
    assert_eq!(p.get_total_supply(), 100);
    assert!(p.take_events().is_empty());
}

#[test]
fn borrow_within_half_of_collateral() {
    let a = acct(10);
    let mut p = fresh();
    p.deposit(a, 100).unwrap();
    p.add_collateral(a, 200).unwrap();
    p.take_events();
    assert_eq!(p.borrow(a, 100), Ok(()));
    assert_eq!(p.get_total_borrow(), 100);
    assert_eq!(p.debt_of(a), 100);
    assert_eq!(p.take_events(), vec![Event::Borrow(Borrow { borrower: a, amount: 100 })]);
    assert_eq!(p.borrow(a, 1), Err(Error::InsufficientCollateral));
    assert_eq!(p.get_total_borrow(), 100);
    assert_eq!(p.debt_of(a), 100);
}

#[test]
fn borrow_boundary_at_half_collateral() {
    let a = acct(10);
    let mut p = fresh();
    p.add_collateral(a, 51).unwrap();
    assert_eq!(p.borrow(a, 26), Err(Error::InsufficientCollateral));
    assert_eq!(p.borrow(a, 25), Ok(()));
    assert_eq!(p.debt_of(a), 25);
}

#[test]
fn borrow_without_collateral_fails() {
    let a = acct(10);
    let mut p = fresh();
    assert_eq!(p.borrow(a, 1), Err(Error::InsufficientCollateral));
    assert_eq!(p.borrow(a, 0), Ok(()));
}

#[test]
fn borrow_fails_when_total_borrow_would_overflow() {
    let (a, b) = (acct(10), acct(11));
    let mut p = fresh();
    p.add_collateral(a, u128::MAX).unwrap();
    p.borrow(a, u128::MAX / 2).unwrap();
    p.add_collateral(b, u128::MAX).unwrap();
    p.borrow(b, u128::MAX / 2).unwrap();
    let c = acct(12);
    p.add_collateral(c, 10).unwrap();
    assert_eq!(p.borrow(c, 2), Err(Error::Overflow));
    assert_eq!(p.get_total_borrow(), u128::MAX - 1);
    assert_eq!(p.debt_of(c), 0);
    assert_eq!(p.borrow(c, 1), Ok(()));
    assert_eq!(p.get_total_borrow(), u128::MAX);
}

#[test]
fn repay_reduces_debt_and_total_borrow() {
    let a = acct(10);
    let mut p = fresh();
    p.add_collateral(a, 200).unwrap();
    p.borrow(a, 80).unwrap();
    p.take_events();
    assert_eq!(p.repay(a, 30), Ok(()));
    assert_eq!(p.debt_of(a), 50);
    assert_eq!(p.get_total_borrow(), 50);
    assert_eq!(p.take_events(), vec![Event::Repay(Repay { borrower: a, amount: 30 })]);
    assert_eq!(p.repay(a, 51), Err(Error::InsufficientBalance));
    assert_eq!(p.debt_of(a), 50);
}

#[test]
fn liquidate_clears_debt_and_collateral() {
    let (b, c) = (acct(11), acct(12));
    let mut p = fresh();
    p.add_collateral(b, 100).unwrap();
    p.borrow(b, 50).unwrap();
    p.remove_collateral(b, 50).unwrap();
    assert_eq!(p.debt_of(b), 50);
    assert_eq!(p.collateral_of(b), 50);
    p.take_events();
    assert_eq!(p.liquidate(c, b, 50), Ok(()));
    assert_eq!(p.debt_of(b), 0);
    assert_eq!(p.collateral_of(b), 0);
    assert_eq!(
        p.take_events(),
        vec![Event::Liquidate(Liquidate { liquidator: c, borrower: b, amount: 50 })]
    );
    assert_eq!(p.liquidate(c, b, 50), Err(Error::InsufficientBalance));
}

#[test]
fn liquidate_checks_debt_before_collateral() {
    let (b, c) = (acct(11), acct(12));
    let mut p = fresh();
    p.add_collateral(b, 100).unwrap();
    p.borrow(b, 50).unwrap();
    p.remove_collateral(b, 70).unwrap();
    assert_eq!(p.liquidate(c, b, 60), Err(Error::InsufficientBalance));
    assert_eq!(p.liquidate(c, b, 40), Err(Error::InsufficientCollateral));
    assert_eq!(p.debt_of(b), 50);
    assert_eq!(p.collateral_of(b), 30);
}

#[test]
fn accrue_interest_adds_one_percent() {
    let a = acct(10);
    let mut p = fresh();
    p.add_collateral(a, 2000).unwrap();
    p.borrow(a, 1000).unwrap();
    p.take_events();
    assert_eq!(p.accrue_interest(), Ok(()));
    assert_eq!(p.get_total_borrow(), 1010);
    assert_eq!(p.debt_of(a), 1000);
    assert_eq!(
        p.take_events(),
        vec![Event::InterestAccrued(InterestAccrued { amount: 10 })]
    );
}

#[test]
fn accrue_interest_truncates() {
    let a = acct(10);
    let mut p = fresh();
    p.add_collateral(a, 398).unwrap();
    p.borrow(a, 199).unwrap();
    assert_eq!(p.accrue_interest(), Ok(()));
    assert_eq!(p.get_total_borrow(), 200);
    p.accrue_interest().unwrap();
    assert_eq!(p.get_total_borrow(), 202);
}

#[test]
fn collateral_add_and_remove() {
    let a = acct(10);
    let mut p = fresh();
    assert_eq!(p.add_collateral(a, 30), Ok(()));
    assert_eq!(p.remove_collateral(a, 10), Ok(()));
    assert_eq!(p.collateral_of(a), 20);
    assert_eq!(
        p.take_events(),
        vec![
            Event::CollateralAdded(CollateralAdded { user: a, amount: 30 }),
            Event::CollateralRemoved(CollateralRemoved { user: a, amount: 10 }),
        ]
    );
    assert_eq!(p.remove_collateral(a, 21), Err(Error::InsufficientCollateral));
    assert_eq!(p.collateral_of(a), 20);
}

#[test]
fn add_collateral_overflow_fails() {
    let a = acct(10);
    let mut p = fresh();
    p.add_collateral(a, u128::MAX).unwrap();
    assert_eq!(p.add_collateral(a, 1), Err(Error::Overflow));
    assert_eq!(p.collateral_of(a), u128::MAX);
}

#[test]
fn deposit_overflow_fails() {
    let (a, b) = (acct(10), acct(11));
    let mut p = fresh();
    p.deposit(a, u128::MAX - 5).unwrap();
    assert_eq!(p.deposit(b, 6), Err(Error::Overflow));
    assert_eq!(p.balance_of(b), 0);
    assert_eq!(p.deposit(b, 5), Ok(()));
    assert_eq!(p.get_total_supply(), u128::MAX);
}

#[test]
fn liquidity_saturates_at_zero() {
    let a = acct(10);
    let mut p = fresh();
    p.add_collateral(a, 100).unwrap();
    p.borrow(a, 50).unwrap();
    assert_eq!(p.get_account_liquidity(a), 50);
    p.remove_collateral(a, 80).unwrap();
    assert_eq!(p.get_account_liquidity(a), 0);
    assert_eq!(p.get_account_liquidity(acct(99)), 0);
}

#[test]
fn paused_rejects_every_user_transition() {
    let (a, b) = (acct(10), acct(11));
    let mut p = fresh();
    p.deposit(a, 100).unwrap();
    p.add_collateral(a, 100).unwrap();
    p.borrow(a, 10).unwrap();
    assert_eq!(p.pause_contract(admin()), Ok(()));
    assert!(p.is_paused());
    p.take_events();
    assert_eq!(p.deposit(a, 1), Err(Error::ContractPaused));
    assert_eq!(p.withdraw(a, 1), Err(Error::ContractPaused));
    assert_eq!(p.borrow(a, 1), Err(Error::ContractPaused));
    assert_eq!(p.repay(a, 1), Err(Error::ContractPaused));
    assert_eq!(p.liquidate(b, a, 1), Err(Error::ContractPaused));
    assert_eq!(p.add_collateral(a, 1), Err(Error::ContractPaused));
    assert_eq!(p.remove_collateral(a, 1), Err(Error::ContractPaused));
    assert_eq!(p.accrue_interest(), Err(Error::ContractPaused));
    assert_eq!(p.withdraw(a, 1000), Err(Error::ContractPaused));
    assert!(p.take_events().is_empty());
    assert_eq!(p.balance_of(a), 100);
    assert_eq!(p.get_total_borrow(), 10);
    assert_eq!(p.set_interest_rate_model(admin(), acct(202)), Ok(()));
    assert_eq!(p.initialize(admin(), acct(203), acct(204)), Ok(()));
    assert_eq!(p.unpause_contract(admin()), Ok(()));
    assert!(!p.is_paused());
    assert_eq!(p.deposit(a, 1), Ok(()));
}

#[test]
fn non_admin_is_not_authorized() {
    let c = acct(12);
    let mut p = fresh();
    assert_eq!(p.set_interest_rate_model(c, acct(202)), Err(Error::NotAuthorized));
    assert_eq!(p.initialize(c, acct(203), acct(204)), Err(Error::NotAuthorized));
    assert_eq!(p.pause_contract(c), Err(Error::NotAuthorized));
    assert!(!p.is_paused());
    p.pause_contract(admin()).unwrap();
    assert_eq!(p.unpause_contract(c), Err(Error::NotAuthorized));
    assert!(p.is_paused());
    assert_eq!(p.interest_rate_model(), acct(200));
    assert_eq!(p.underlying_asset(), acct(201));
    assert_eq!(p.take_events(), vec![Event::ContractPaused(ContractPaused)]);
}

#[test]
fn admin_operations_update_state_and_emit() {
    let mut p = fresh();
    assert_eq!(p.set_interest_rate_model(admin(), acct(202)), Ok(()));
    assert_eq!(p.interest_rate_model(), acct(202));
    assert_eq!(p.initialize(admin(), acct(203), acct(204)), Ok(()));
    assert_eq!(p.interest_rate_model(), acct(203));
    assert_eq!(p.underlying_asset(), acct(204));
    p.pause_contract(admin()).unwrap();
    p.pause_contract(admin()).unwrap();
    p.unpause_contract(admin()).unwrap();
    assert_eq!(
        p.take_events(),
        vec![
            Event::InterestRateModelUpdated(InterestRateModelUpdated { new_model: acct(202) }),
            Event::ContractPaused(ContractPaused),
            Event::ContractPaused(ContractPaused),
            Event::ContractUnpaused(ContractUnpaused),
        ]
    );
}

#[test]
fn account_ids_differ_in_any_byte() {
    let mut x = [7u8; 32];
    let a = AccountId(x);
    x[31] = 8;
    let b = AccountId(x);
    assert!(a.same_as(&a));
    assert!(!a.same_as(&b));
    assert_ne!(a, b);
    let mut p = fresh();
    p.deposit(a, 5).unwrap();
    assert_eq!(p.balance_of(b), 0);
    assert_eq!(p.balance_of(a), 5);
}
