use lending_core::manager::{calculate_health_factor, get_price, Error, LoanManager};
use lending_core::oracle::{Asset, MockPriceOracleContract, PriceData};
use lending_core::pool::{Currency, Error as PoolError, LoanPool, Transfer};

const LIQUIDATION_THRESHOLD: i128 = 800_000;
const YEAR: u64 = 31_556_926;
const MANAGER: u64 = 100;
const LOAN_POOL: u64 = 200;
const COLLATERAL_POOL: u64 = 300;
const XLM: u64 = 10;
const USDC: u64 = 20;
const ADMIN: u64 = 1;
const USER: u64 = 2;

fn pool(address: u64, token: u64, ticker: &str, now: u64) -> LoanPool {
    let currency = Currency { token_address: token, ticker: ticker.to_string() };
    LoanPool::initialize(address, MANAGER, currency, LIQUIDATION_THRESHOLD, now)
}

fn price(ticker: &str) -> Option<PriceData> {
    MockPriceOracleContract::lastprice(&Asset::Other(ticker.to_string()))
}

/// Balance of `account` after the transfers, starting from `start`.
fn balance_after(start: i128, account: u64, transfers: &[Transfer]) -> i128 {
    let mut balance = start;
    for t in transfers {
        if t.from == account {
            balance -= t.amount;
        }
        if t.to == account {
            balance += t.amount;
        }
    }
    balance
}

/// A manager, a loan pool funded by the admin with `funds`, and an empty
/// collateral pool, all as of `now`.
fn setup(funds: i128, now: u64) -> (LoanManager, LoanPool, LoanPool) {
    let manager = LoanManager::new(MANAGER);
    let mut loan_pool = pool(LOAN_POOL, XLM, "XLM", now);
    loan_pool.deposit(ADMIN, funds, now).unwrap();
    let collateral_pool = pool(COLLATERAL_POOL, USDC, "USDC", now);
    (manager, loan_pool, collateral_pool)
}

#[test]
fn initialize() {
    let mut manager = LoanManager::new(MANAGER);
    assert!(manager.initialize(ADMIN).is_ok());
    assert_eq!(manager.read_admin(), Ok(ADMIN));
}

#[test]
fn cannot_re_initialize() {
    let mut manager = LoanManager::new(MANAGER);
    manager.initialize(ADMIN).unwrap();
    assert!(manager.initialize(ADMIN).is_err());
    assert_eq!(manager.initialize(ADMIN), Err(Error::AlreadyInitialized));
}

#[test]
fn deploy_pool() {
    let mut manager = LoanManager::new(MANAGER);
    manager.initialize(ADMIN).unwrap();
    let loan_pool = manager.deploy_pool(LOAN_POOL, XLM, "XLM".to_string(), 800_000, 0).unwrap();
    let pool_balance = loan_pool.get_contract_balance();
    assert_eq!(pool_balance, 0);
    assert_eq!(loan_pool.get_loan_manager(), MANAGER);
    assert_eq!(manager.read_pool_addresses().clone(), vec![LOAN_POOL]);
}

#[test]
fn upgrade_manager_and_pool() {
    let mut manager = LoanManager::new(MANAGER);
    assert_eq!(manager.upgrade(), Err(Error::AdminNotFound));
    manager.initialize(ADMIN).unwrap();
    manager.deploy_pool(LOAN_POOL, XLM, "XLM".to_string(), 800_000, 0).unwrap();
    manager.deploy_pool(COLLATERAL_POOL, USDC, "USDC".to_string(), 800_000, 0).unwrap();
    assert_eq!(manager.upgrade(), Ok(vec![LOAN_POOL, COLLATERAL_POOL]));
}

#[test]
fn deploy_pool_needs_an_admin() {
    let mut manager = LoanManager::new(MANAGER);
    assert!(matches!(
        manager.deploy_pool(LOAN_POOL, XLM, "XLM".to_string(), 800_000, 0),
        Err(Error::AdminNotFound)
    ));
    assert!(manager.read_pool_addresses().is_empty());
}

#[test]
fn create_loan() {
    let (mut manager, mut loan_pool, mut collateral_pool) = setup(1000, 0);
    manager
        .create_loan(USER, 10, &mut loan_pool, 100, &mut collateral_pool, price("XLM"), price("USDC"), 0)
        .unwrap();
    assert_eq!(balance_after(0, USER, loan_pool.pending_transfers()), 10);
    assert_eq!(balance_after(1000, USER, collateral_pool.pending_transfers()), 900);
}

#[test]
fn add_interest() {
    let (mut manager, mut loan_pool, mut collateral_pool) = setup(10_001, 1);
    manager
        .create_loan(
            USER,
            10_000,
            &mut loan_pool,
            100_000,
            &mut collateral_pool,
            price("XLM"),
            price("USDC"),
            1,
        )
        .unwrap();
    let user_loan = manager.get_loan(USER).unwrap();
    assert_eq!(user_loan.borrowed_amount, 10_000);
    assert_eq!(balance_after(1_000_000, USER, collateral_pool.pending_transfers()), 900_000);
    assert_eq!(user_loan.health_factor, 100_000_000);

    manager.add_interest(USER, &mut loan_pool, price("XLM"), price("USDC"), 1 + YEAR).unwrap();

    let user_loan = manager.get_loan(USER).unwrap();
    assert_eq!(user_loan.borrowed_amount, 12_998);
    assert_eq!(user_loan.health_factor, 76_934_913);
    assert_eq!(user_loan.collateral_amount, 100_000);
    assert_eq!(user_loan.unpaid_interest, 2_998);
    assert_eq!(user_loan.last_accrual, loan_pool.get_accrual());
}

#[test]
fn repay() {
    let (mut manager, mut loan_pool, mut collateral_pool) = setup(1_000_000, 1);
    manager
        .create_loan(
            USER,
            1_000,
            &mut loan_pool,
            100_000,
            &mut collateral_pool,
            price("XLM"),
            price("USDC"),
            1,
        )
        .unwrap();
    let now = 1 + YEAR;
    assert_eq!(balance_after(0, USER, loan_pool.pending_transfers()), 1_000);
    assert_eq!(balance_after(1_000_000, USER, collateral_pool.pending_transfers()), 900_000);

    let user_loan = manager.get_loan(USER).unwrap();
    assert_eq!(user_loan.borrowed_amount, 1_000);
    assert_eq!(user_loan.collateral_amount, 100_000);

    manager.repay(USER, 100, &mut loan_pool, price("XLM"), price("USDC"), now).unwrap();
    let user_loan = manager.get_loan(USER).unwrap();
    assert_eq!(user_loan.borrowed_amount, 920);

    assert_eq!(
        (920, 820),
        manager.repay(USER, 100, &mut loan_pool, price("XLM"), price("USDC"), now).unwrap()
    );
    assert_eq!(999198, loan_pool.get_available_balance());
    assert_eq!(1000018, loan_pool.get_contract_balance());
    assert_eq!(1000000, loan_pool.get_total_balance_shares());
}

#[test]
fn contract_repay_and_close() {
    let (mut manager, mut loan_pool, mut collateral_pool) = setup(1_000_000, 1);
    manager
        .create_loan(
            USER,
            1_000,
            &mut loan_pool,
            100_000,
            &mut collateral_pool,
            price("XLM"),
            price("USDC"),
            1,
        )
        .unwrap();
    let now = 1 + YEAR;
    assert_eq!(balance_after(50, USER, loan_pool.pending_transfers()), 1_050);
    assert_eq!(balance_after(1_000_000, USER, collateral_pool.pending_transfers()), 900_000);

    let user_loan = manager.get_loan(USER).unwrap();
    assert_eq!(user_loan.borrowed_amount, 1_000);
    assert_eq!(user_loan.collateral_amount, 100_000);

    assert_eq!(
        1020,
        manager
            .repay_and_close_manager(
                USER,
                user_loan.borrowed_amount + 45,
                &mut loan_pool,
                &mut collateral_pool,
                price("XLM"),
                price("USDC"),
                now,
            )
            .unwrap()
    );

    assert_eq!(1000018, loan_pool.get_available_balance());
    assert_eq!(1000018, loan_pool.get_contract_balance());
    assert_eq!(1000000, loan_pool.get_total_balance_shares());
    assert!(!manager.user_loan_exists(USER));
    assert_eq!(balance_after(1_000_000, USER, collateral_pool.pending_transfers()), 1_000_000);
    assert_eq!(balance_after(50, USER, loan_pool.pending_transfers()), 30);
}

#[test]
fn repay_more_than_borrowed() {
    let (mut manager, mut loan_pool, mut collateral_pool) = setup(1_000_000, 0);
    manager
        .create_loan(
            USER,
            1_000,
            &mut loan_pool,
            100_000,
            &mut collateral_pool,
            price("XLM"),
            price("USDC"),
            0,
        )
        .unwrap();
    assert_eq!(
        manager.repay(USER, 2_000, &mut loan_pool, price("XLM"), price("USDC"), 0),
        Err(Error::ExceedsBorrowedAmount)
    );
    assert_eq!(manager.get_loan(USER).unwrap().borrowed_amount, 1_000);
}

#[test]
fn liquidate() {
    let (mut manager, mut loan_pool, mut collateral_pool) = setup(10_001, 1);
    manager
        .create_loan(
            USER,
            10_000,
            &mut loan_pool,
            12_001,
            &mut collateral_pool,
            price("XLM"),
            price("USDC"),
            1,
        )
        .unwrap();
    let user_loan = manager.get_loan(USER).unwrap();
    assert_eq!(user_loan.borrowed_amount, 10_000);

    manager.add_interest(USER, &mut loan_pool, price("XLM"), price("USDC"), 1).unwrap();
    assert_eq!(user_loan.borrowed_amount, 10_000);
    assert_eq!(user_loan.health_factor, 12_001_000);

    let now = 1 + YEAR;
    manager.add_interest(USER, &mut loan_pool, price("XLM"), price("USDC"), now).unwrap();
    let user_loan = manager.get_loan(USER).unwrap();
    assert_eq!(user_loan.borrowed_amount, 12_998);
    assert_eq!(user_loan.health_factor, 9_232_958);
    assert_eq!(user_loan.collateral_amount, 12_001);

    manager
        .liquidate(
            ADMIN,
            USER,
            5000,
            &mut loan_pool,
            &mut collateral_pool,
            price("XLM"),
            price("USDC"),
            now,
        )
        .unwrap();
    let user_loan = manager.get_loan(USER).unwrap();
    assert_eq!(user_loan.borrowed_amount, 7_998);
    assert_eq!(user_loan.health_factor, 8_440_860);
    assert_eq!(user_loan.collateral_amount, 6_751);
}

#[test]
fn health_factor_formula() {
    let p = |price: i128| Some(PriceData { price, timestamp: 1 });
    assert_eq!(calculate_health_factor(p(1), 10_000, p(1), 100_000), Ok(100_000_000));
    assert_eq!(calculate_health_factor(p(1), 12_998, p(1), 12_001), Ok(9_232_958));
    assert_eq!(calculate_health_factor(p(3), 10, p(2), 45), Ok(30_000_000));
    assert_eq!(calculate_health_factor(p(7), 3, p(1), 10), Ok(4_761_904));
    assert_eq!(calculate_health_factor(None, 10, p(1), 10), Err(Error::NoPriceAvailable));
    assert_eq!(calculate_health_factor(p(1), 10, None, 10), Err(Error::NoPriceAvailable));
    assert_eq!(calculate_health_factor(p(1), 0, p(1), 10), Err(Error::ArithmeticOverflow));
    assert_eq!(calculate_health_factor(p(0), 10, p(1), 10), Err(Error::ArithmeticOverflow));
    assert_eq!(
        calculate_health_factor(p(1), 10, p(i128::MAX), 2),
        Err(Error::ArithmeticOverflow)
    );
    assert_eq!(get_price(p(5)), Ok(5));
    assert_eq!(get_price(None), Err(Error::NoPriceAvailable));
}

#[test]
fn liquidation_is_refused_on_a_healthy_loan_or_too_large_an_amount() {
    let (mut manager, mut loan_pool, mut collateral_pool) = setup(10_001, 1);
    manager
        .create_loan(
            USER,
            10_000,
            &mut loan_pool,
            12_001,
            &mut collateral_pool,
            price("XLM"),
            price("USDC"),
            1,
        )
        .unwrap();
    assert_eq!(
        manager.liquidate(
            ADMIN,
            USER,
            100,
            &mut loan_pool,
            &mut collateral_pool,
            price("XLM"),
            price("USDC"),
            1,
        ),
        Err(Error::NotLiquidatable)
    );
    let now = 1 + YEAR;
    // Half of the debt of 12,998 is 6,499: liquidating that much is refused.
    assert_eq!(
        manager.liquidate(
            ADMIN,
            USER,
            6_499,
            &mut loan_pool,
            &mut collateral_pool,
            price("XLM"),
            price("USDC"),
            now,
        ),
        Err(Error::ExceedsLiquidationLimit)
    );
    assert_eq!(manager.get_loan(USER).unwrap().borrowed_amount, 10_000);
    assert_eq!(loan_pool.get_accrual(), 10_000_000);
    assert_eq!(
        manager.liquidate(
            ADMIN,
            USER,
            6_498,
            &mut loan_pool,
            &mut collateral_pool,
            price("XLM"),
            price("USDC"),
            now,
        ),
        Ok((6_500, 5_179))
    );
}

#[test]
fn create_loan_errors() {
    let (mut manager, mut loan_pool, mut collateral_pool) = setup(1_000, 0);
    // A health factor of exactly 1.2 is not enough.
    assert_eq!(
        manager.create_loan(USER, 100, &mut loan_pool, 120, &mut collateral_pool, price("XLM"), price("USDC"), 0),
        Err(Error::HealthFactorTooLow)
    );
    assert_eq!(
        manager.create_loan(USER, 100, &mut loan_pool, 500, &mut collateral_pool, None, price("USDC"), 0),
        Err(Error::NoPriceAvailable)
    );
    // The borrow fails after the collateral was taken: nothing is kept.
    assert_eq!(
        manager.create_loan(USER, 1_000, &mut loan_pool, 5_000, &mut collateral_pool, price("XLM"), price("USDC"), 0),
        Err(Error::Pool(PoolError::InsufficientLiquidity))
    );
    assert!(collateral_pool.pending_transfers().is_empty());
    assert_eq!(collateral_pool.get_user_positions(USER).collateral, 0);
    assert!(!manager.user_loan_exists(USER));

    manager
        .create_loan(USER, 100, &mut loan_pool, 500, &mut collateral_pool, price("XLM"), price("USDC"), 0)
        .unwrap();
    assert_eq!(
        manager.create_loan(USER, 100, &mut loan_pool, 500, &mut collateral_pool, price("XLM"), price("USDC"), 0),
        Err(Error::LoanAlreadyExists)
    );
    let loan = manager.get_loan(USER).unwrap();
    assert_eq!(loan.borrowed_from, LOAN_POOL);
    assert_eq!(loan.collateral_from, COLLATERAL_POOL);
    assert_eq!(loan.unpaid_interest, 0);
    assert_eq!(loan.last_accrual, 10_000_000);
}

#[test]
fn manager_errors() {
    let (mut manager, mut loan_pool, mut collateral_pool) = setup(1_000, 0);
    assert_eq!(
        manager.add_interest(USER, &mut loan_pool, price("XLM"), price("USDC"), 0),
        Err(Error::InvalidLoanState)
    );
    assert_eq!(manager.get_loan(USER), Err(Error::InvalidLoanState));
    manager
        .create_loan(USER, 100, &mut loan_pool, 500, &mut collateral_pool, price("XLM"), price("USDC"), 0)
        .unwrap();
    // The pools are swapped: the borrow pool is not the one the loan names.
    assert_eq!(
        manager.add_interest(USER, &mut collateral_pool, price("XLM"), price("USDC"), 0),
        Err(Error::AddressNotFound)
    );
    // The close would release collateral the pool does not hold.
    let before = loan_pool.get_available_balance();
    let mut other = pool(COLLATERAL_POOL, USDC, "USDC", 0);
    assert_eq!(
        manager.repay_and_close_manager(USER, 200, &mut loan_pool, &mut other, price("XLM"), price("USDC"), 0),
        Err(Error::Pool(PoolError::InsufficientPositions))
    );
    assert_eq!(loan_pool.get_available_balance(), before);
    assert!(manager.user_loan_exists(USER));
    // Slippage bound below the debt.
    assert_eq!(
        manager.repay_and_close_manager(USER, 99, &mut loan_pool, &mut collateral_pool, price("XLM"), price("USDC"), 0),
        Err(Error::Pool(PoolError::SlippageExceeded))
    );
}

#[test]
fn repaying_zero_changes_nothing_but_the_accrual() {
    let (mut manager, mut loan_pool, mut collateral_pool) = setup(1_000_000, 0);
    manager
        .create_loan(USER, 1_000, &mut loan_pool, 100_000, &mut collateral_pool, price("XLM"), price("USDC"), 0)
        .unwrap();
    assert_eq!(
        manager.repay(USER, 0, &mut loan_pool, price("XLM"), price("USDC"), 0),
        Ok((1_000, 1_000))
    );
    assert_eq!(loan_pool.get_available_balance(), 999_000);
    assert_eq!(loan_pool.get_contract_balance(), 1_000_000);
    assert_eq!(manager.get_loan(USER).unwrap().health_factor, 1_000_000_000);
}

#[test]
fn the_whole_accrued_debt_can_be_repaid() {
    let (mut manager, mut loan_pool, mut collateral_pool) = setup(1_000_000, 1);
    manager
        .create_loan(USER, 1_000, &mut loan_pool, 100_000, &mut collateral_pool, price("XLM"), price("USDC"), 1)
        .unwrap();
    let now = 1 + YEAR;
    manager.add_interest(USER, &mut loan_pool, price("XLM"), price("USDC"), now).unwrap();
    // The 20 of interest is a liability in the pool too.
    assert_eq!(loan_pool.get_user_positions(USER).liabilities, 1_020);
    assert!(matches!(
        manager.repay(USER, 1_020, &mut loan_pool, price("XLM"), price("USDC"), now),
        Err(Error::ArithmeticOverflow)
    ));
    assert_eq!(
        manager.repay(USER, 1_019, &mut loan_pool, price("XLM"), price("USDC"), now),
        Ok((1_020, 1))
    );
    assert_eq!(loan_pool.get_user_positions(USER).liabilities, 1);
    assert_eq!(loan_pool.get_available_balance(), 1_000_017);
    assert_eq!(loan_pool.get_contract_balance(), 1_000_018);
}
