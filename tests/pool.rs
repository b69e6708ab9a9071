use lending_core::interest::get_interest;
use lending_core::pool::{Currency, Error, LoanPool, Transfer};

const LIQUIDATION_THRESHOLD: i128 = 800_000;
const YEAR: u64 = 31_556_926;
const MANAGER: u64 = 100;
const POOL: u64 = 200;
const XLM: u64 = 10;

fn xlm_pool(now: u64) -> LoanPool {
    let currency = Currency { token_address: XLM, ticker: "XLM".to_string() };
    LoanPool::initialize(POOL, MANAGER, currency, LIQUIDATION_THRESHOLD, now)
}

/// Balance of `account` after the transfers, starting from `start`.
fn balance_after(start: i128, account: u64, transfers: &[Transfer]) -> i128 {
    let mut balance = start;
    for t in transfers {
        if t.from == account {
            balance -= t.amount;
        }
        if t.to == account {
            balance += t.amount;
        }
    }
    balance
}

#[test]
fn contract_initialize() {
    let pool = xlm_pool(0);
    assert_eq!(pool.get_contract_balance(), 0);
    assert_eq!(pool.get_available_balance(), 0);
    assert_eq!(pool.get_total_balance_shares(), 0);
    assert_eq!(pool.get_accrual(), 10_000_000);
    assert_eq!(pool.get_liquidation_threshold(), LIQUIDATION_THRESHOLD);
    assert_eq!(pool.get_currency().ticker, "XLM");
}

#[test]
fn deposit() {
    let mut pool = xlm_pool(0);
    let user = 1;
    let amount: i128 = 100;
    let result = pool.deposit(user, amount, 0).unwrap();
    assert_eq!(result, amount);
}

#[test]
fn borrow() {
    let mut pool = xlm_pool(0);
    let depositer = 1;
    let borrower = 2;
    pool.deposit(depositer, 100, 0).unwrap();
    pool.borrow(MANAGER, borrower, 50, 0).unwrap();
    let transfers = pool.pending_transfers();
    assert_eq!(balance_after(100, depositer, transfers), 0);
    assert_eq!(balance_after(0, borrower, transfers), 50);
}

#[test]
fn withdraw() {
    let mut pool = xlm_pool(0);
    let user = 1;
    let amount: i128 = 100;
    let result = pool.deposit(user, amount, 0).unwrap();
    assert_eq!(result, amount);
    pool.withdraw(user, amount, 0).unwrap();
}

#[test]
fn repay_and_close() {
    let mut pool = xlm_pool(0);
    let user = 1;
    let borrowed_amount = 1000_i128;
    let max_allowed_amount = 1050_i128;
    let unpaid_interest = 20_i128;
    pool.repay_and_close(MANAGER, user, borrowed_amount, max_allowed_amount, unpaid_interest, 0)
        .unwrap();
    // A fee of 2 goes to the manager; nothing was lent out, so the 980 of
    // principal is new to the total as well.
    assert_eq!(pool.get_available_balance(), 998);
    assert_eq!(pool.get_contract_balance(), 998);
    assert_eq!(balance_after(2000, user, pool.pending_transfers()), 1000);
}

#[test]
fn repayment_beyond_what_was_lent_is_credited() {
    let mut pool = xlm_pool(0);
    pool.deposit(1, 1_000, 0).unwrap();
    pool.increase_liabilities(MANAGER, 5, 100).unwrap();
    assert_eq!(pool.repay(MANAGER, 5, 100, 0, 0), Ok(()));
    assert_eq!(pool.get_user_positions(5).liabilities, 0);
    assert_eq!(pool.get_available_balance(), 1_100);
    assert_eq!(pool.get_contract_balance(), 1_100);
    pool.increase_liabilities(MANAGER, 6, 50).unwrap();
    assert_eq!(pool.liquidate(MANAGER, 9, 50, 0, 6, 0), Ok(()));
    assert_eq!(pool.get_available_balance(), 1_150);
    assert_eq!(pool.get_contract_balance(), 1_150);
    assert_eq!(pool.repay_and_close(MANAGER, 7, 10, 10, 0, 0), Ok(()));
    assert_eq!(pool.get_contract_balance(), 1_160);
}

#[test]
fn withdraw_more_than_balance() {
    let mut pool = xlm_pool(0);
    let user = 1;
    let amount: i128 = 100;
    assert_eq!(pool.deposit(user, amount, 0), Ok(amount));
    assert_eq!(pool.withdraw(user, amount * 2, 0), Err(Error::InsufficientShares));
}

#[test]
fn withdraw_more_than_available_balance() {
    let mut pool = xlm_pool(0);
    let user = 1;
    let user2 = 2;
    let amount: i128 = 100;
    assert_eq!(pool.deposit(user, amount, 0), Ok(amount));
    assert_eq!(pool.borrow(MANAGER, user2, 500, 0), Err(Error::InsufficientLiquidity));
    assert_eq!(pool.borrow(MANAGER, user2, 60, 0), Ok(60));
    assert_eq!(pool.withdraw(user, amount, 0), Err(Error::InsufficientLiquidity));
}

#[test]
fn add_accrual_full_usage() {
    let mut pool = xlm_pool(1);
    let amount: i128 = 1000;
    assert_eq!(pool.deposit(1, amount, 1), Ok(amount));
    pool.borrow(MANAGER, 2, 999, 1).unwrap();
    pool.add_interest_to_accrual(1 + YEAR).unwrap();
    assert_eq!(12_980_000, pool.get_accrual());
    pool.add_interest_to_accrual(1 + YEAR).unwrap();
    assert_eq!(12_980_000, pool.get_accrual());
}

#[test]
fn add_accrual_half_usage() {
    let mut pool = xlm_pool(1);
    let amount: i128 = 1000;
    assert_eq!(pool.deposit(1, amount, 1), Ok(amount));
    pool.borrow(MANAGER, 2, 500, 1).unwrap();
    pool.add_interest_to_accrual(1 + YEAR).unwrap();
    assert_eq!(10_644_440, pool.get_accrual());
}

#[test]
fn pool_token_minted_and_deposited() {
    let mut pool = xlm_pool(0);
    let user1 = 1;
    pool.deposit(user1, 100, 0).unwrap();
    assert_eq!(
        pool.pending_transfers().clone(),
        vec![Transfer { token: XLM, from: user1, to: POOL, amount: 100 }]
    );
    assert_eq!(pool.get_user_positions(user1).receivable_shares, 100);
    assert_eq!(pool.get_user_positions(POOL).receivable_shares, 0);
    assert_eq!(balance_after(1000, user1, pool.pending_transfers()), 900);
    assert_eq!(balance_after(0, POOL, pool.pending_transfers()), 100);
}

#[test]
fn rate_curve_values() {
    assert_eq!(get_interest(0, 0), Ok(200_000));
    assert_eq!(get_interest(1000, 1000), Ok(200_000));
    assert_eq!(get_interest(1000, 500), Ok(644_440));
    assert_eq!(get_interest(1000, 100), Ok(1_000_000));
    assert_eq!(get_interest(1000, 1), Ok(2_980_000));
    assert_eq!(get_interest(1000, 0), Ok(3_000_000));
    assert_eq!(get_interest(i128::MAX, 0), Err(Error::ArithmeticOverflow));
}

#[test]
fn accrual_is_idempotent_at_one_timestamp() {
    let mut pool = xlm_pool(1);
    pool.deposit(1, 1000, 1).unwrap();
    pool.borrow(MANAGER, 2, 500, 1).unwrap();
    pool.add_interest_to_accrual(1000).unwrap();
    let first = pool.get_accrual();
    assert!(first > 10_000_000);
    pool.add_interest_to_accrual(1000).unwrap();
    assert_eq!(pool.get_accrual(), first);
    assert_eq!(pool.get_accrual_last_updated(), 1000);
}

#[test]
fn accrual_never_decreases() {
    let mut pool = xlm_pool(1);
    pool.deposit(1, 1000, 1).unwrap();
    pool.borrow(MANAGER, 2, 700, 1).unwrap();
    let mut last = pool.get_accrual();
    for now in [1, 10, 10, 5_000, 1_000_000, YEAR, 2 * YEAR] {
        pool.add_interest_to_accrual(now).unwrap();
        assert!(pool.get_accrual() >= last);
        last = pool.get_accrual();
    }
    // A timestamp before the last update is refused and changes nothing.
    assert_eq!(pool.add_interest_to_accrual(YEAR), Err(Error::ArithmeticOverflow));
    assert_eq!(pool.get_accrual(), last);
}

#[test]
fn deposit_then_withdraw_restores_balances() {
    let mut pool = xlm_pool(0);
    pool.deposit(1, 5_000, 0).unwrap();
    pool.borrow(MANAGER, 3, 1_000, 0).unwrap();
    let total = pool.get_contract_balance();
    let available = pool.get_available_balance();
    let shares = pool.get_user_positions(2).receivable_shares;
    pool.deposit(2, 777, 0).unwrap();
    let state = pool.withdraw(2, 777, 0).unwrap();
    assert_eq!(state.total_balance_tokens, total);
    assert_eq!(state.available_balance_tokens, available);
    assert_eq!(pool.get_contract_balance(), total);
    assert_eq!(pool.get_available_balance(), available);
    assert_eq!(pool.get_user_positions(2).receivable_shares, shares);
}

#[test]
fn withdraw_burns_shares_in_proportion() {
    let mut pool = xlm_pool(0);
    pool.deposit(1, 1_000, 0).unwrap();
    pool.borrow(MANAGER, 2, 500, 0).unwrap();
    // 100 of interest settled; a tenth of it goes to the manager.
    pool.repay(MANAGER, 2, 200, 100, 0).unwrap();
    assert_eq!(pool.get_contract_balance(), 1_090);
    assert_eq!(pool.get_available_balance(), 690);
    let state = pool.withdraw(1, 109, 0).unwrap();
    // 109 * 1000 / 1090 = 100 shares.
    assert_eq!(pool.get_user_positions(1).receivable_shares, 900);
    assert_eq!(state.total_balance_shares, 900);
    assert_eq!(state.total_balance_tokens, 981);
    assert_eq!(state.available_balance_tokens, 581);
}

#[test]
fn repay_splits_the_fee() {
    let mut pool = xlm_pool(0);
    pool.deposit(1, 1_000, 0).unwrap();
    pool.borrow(MANAGER, 2, 500, 0).unwrap();
    pool.take_transfers();
    pool.repay(MANAGER, 2, 100, 30, 0).unwrap();
    assert_eq!(
        pool.take_transfers(),
        vec![
            Transfer { token: XLM, from: 2, to: POOL, amount: 97 },
            Transfer { token: XLM, from: 2, to: MANAGER, amount: 3 },
        ]
    );
    assert!(pool.pending_transfers().is_empty());
    assert_eq!(pool.get_user_positions(2).liabilities, 400);
    assert_eq!(pool.get_available_balance(), 597);
    assert_eq!(pool.get_contract_balance(), 1_027);
}

#[test]
fn liquidation_moves_debt_and_collateral() {
    let mut pool = xlm_pool(0);
    pool.deposit(1, 1_000, 0).unwrap();
    pool.borrow(MANAGER, 2, 500, 0).unwrap();
    pool.deposit_collateral(2, 300, 0).unwrap();
    pool.take_transfers();
    pool.liquidate(MANAGER, 9, 100, 0, 2, 0).unwrap();
    pool.liquidate_transfer_collateral(MANAGER, 9, 105, 2).unwrap();
    let positions = pool.get_user_positions(2);
    assert_eq!(positions.liabilities, 400);
    assert_eq!(positions.collateral, 195);
    assert_eq!(pool.get_available_balance(), 600);
    assert_eq!(pool.get_contract_balance(), 1_000);
    assert_eq!(balance_after(0, 9, &pool.take_transfers()), 5);
}

#[test]
fn collateral_round_trip() {
    let mut pool = xlm_pool(0);
    assert_eq!(pool.deposit_collateral(2, 300, 0), Ok(300));
    assert_eq!(pool.withdraw_collateral(MANAGER, 2, 400, 0), Err(Error::InsufficientPositions));
    assert_eq!(pool.withdraw_collateral(2, 2, 100, 0), Err(Error::NotAuthorized));
    assert_eq!(pool.withdraw_collateral(MANAGER, 2, 300, 0), Ok(300));
    assert_eq!(pool.get_user_positions(2).collateral, 0);
}

#[test]
fn pool_errors() {
    let mut pool = xlm_pool(0);
    assert_eq!(pool.deposit(1, 0, 0), Err(Error::NegativeAmount));
    assert_eq!(pool.deposit_collateral(1, -5, 0), Err(Error::NegativeAmount));
    pool.deposit(1, 1_000, 0).unwrap();
    assert_eq!(pool.borrow(7, 2, 10, 0), Err(Error::NotAuthorized));
    assert_eq!(pool.borrow(MANAGER, 2, 1_000, 0), Err(Error::InsufficientLiquidity));
    assert_eq!(pool.withdraw(1, -1, 0), Err(Error::NegativeAmount));
    pool.borrow(MANAGER, 2, 100, 0).unwrap();
    pool.borrow(MANAGER, 3, 300, 0).unwrap();
    // More than the debtor owes.
    assert_eq!(pool.repay(MANAGER, 2, 200, 0, 0), Err(Error::InsufficientPositions));
    assert_eq!(pool.repay(MANAGER, 2, 50, -1, 0), Err(Error::NegativeAmount));
    assert_eq!(pool.repay_and_close(MANAGER, 2, 100, 90, 0, 0), Err(Error::SlippageExceeded));
    assert_eq!(pool.increase_liabilities(MANAGER, 2, -1), Err(Error::NegativeAmount));
    assert_eq!(pool.increase_liabilities(MANAGER, 2, i128::MAX), Err(Error::ArithmeticOverflow));
    assert_eq!(pool.liquidate_transfer_collateral(MANAGER, 9, 1, 2), Err(Error::InsufficientPositions));
    // Nothing above changed the pool.
    assert_eq!(pool.get_contract_balance(), 1_000);
    assert_eq!(pool.get_available_balance(), 600);
    assert_eq!(pool.get_user_positions(2).liabilities, 100);
}

#[test]
fn pool_state_reports_the_rate() {
    let mut pool = xlm_pool(0);
    pool.deposit(1, 1_000, 0).unwrap();
    pool.borrow(MANAGER, 2, 500, 0).unwrap();
    let state = pool.get_pool_state().unwrap();
    assert_eq!(state.total_balance_tokens, 1_000);
    assert_eq!(state.available_balance_tokens, 500);
    assert_eq!(state.total_balance_shares, 1_000);
    assert_eq!(state.annual_interest_rate, 644_440);
    assert_eq!(pool.get_interest(), Ok(644_440));
}

#[test]
fn zero_payments_are_accepted() {
    let mut pool = xlm_pool(0);
    pool.deposit(1, 1_000, 0).unwrap();
    pool.borrow(MANAGER, 2, 500, 0).unwrap();
    pool.take_transfers();
    assert_eq!(pool.repay(MANAGER, 2, 0, 30, 0), Ok(()));
    assert_eq!(pool.liquidate(MANAGER, 9, 0, 30, 2, 0), Ok(()));
    assert_eq!(pool.get_user_positions(2).liabilities, 500);
    assert_eq!(pool.get_available_balance(), 500);
    assert_eq!(pool.get_contract_balance(), 1_000);
    assert!(pool.take_transfers().iter().all(|t| t.amount == 0));
    assert_eq!(pool.repay(MANAGER, 2, -1, 30, 0), Err(Error::NegativeAmount));
    assert_eq!(pool.repay_and_close(MANAGER, 3, 0, 0, 0, 0), Ok(()));
    assert_eq!(pool.repay_and_close(MANAGER, 3, -1, 0, 0, 0), Err(Error::NegativeAmount));
    assert_eq!(pool.get_available_balance(), 500);
    assert_eq!(pool.get_contract_balance(), 1_000);
}
