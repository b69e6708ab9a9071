//! The loan manager: one loan per borrower, opened against collateral in one
//! pool and funds borrowed from another, brought up to date lazily against the
//! borrow pool's accrual index, and repaid, closed or partially liquidated.
//!
//! Every operation either succeeds as a whole or fails leaving the manager and
//! both pools unchanged.
use crate::fixed::{div_ok, fits, tdiv, SCALE};
use crate::oracle::PriceData;
use crate::pool::{interest_part, Currency, Error as PoolError, LoanPool, PoolView};
use std::collections::HashMap;
use vstd::prelude::*;

verus! {

broadcast use vstd::std_specs::hash::group_hash_axioms;

/// Health factor a loan must exceed to be opened, and stay at or above to
/// escape liquidation: 1.2.
pub const HEALTH_FACTOR_THRESHOLD: i128 = 12_000_000;

/// Collateral paid to a liquidator per unit of debt value repaid: 1.05.
pub const LIQUIDATION_BONUS: i128 = 10_500_000;

/// Failures of loan manager operations.
#[derive(Clone, Copy, Debug, PartialEq, Eq, Structural)]
pub enum Error {
    /// The manager already has an admin.
    AlreadyInitialized,
    /// The borrower already has an open loan.
    LoanAlreadyExists,
    /// No admin has been set.
    AdminNotFound,
    /// A checked addition, subtraction, multiplication or division failed.
    ArithmeticOverflow,
    /// The oracle has no price for one of the assets.
    NoPriceAvailable,
    /// A pool handed in is not the one the loan refers to.
    AddressNotFound,
    /// The borrower has no open loan.
    InvalidLoanState,
    /// The requested loan would not be collateralized enough.
    HealthFactorTooLow,
    /// The loan is collateralized enough not to be liquidated.
    NotLiquidatable,
    /// The repayment exceeds the debt.
    ExceedsBorrowedAmount,
    /// A liquidation must stay below half of the debt.
    ExceedsLiquidationLimit,
    /// A pool refused its part of the operation.
    Pool(PoolError),
}

/// Failures of the manager's record store.
#[derive(Clone, Copy, Debug, PartialEq, Eq, Structural)]
pub enum LoanManagerError {
    /// No admin has been recorded.
    NotInitialized,
    /// An admin is already recorded.
    AlreadyInitialized,
    /// A loan is already recorded for the borrower.
    LoanAlreadyExists,
    /// No loan is recorded for the borrower.
    InvalidLoanInStorage,
}

/// A borrower's open loan.
#[derive(Clone, Copy, Debug, PartialEq, Eq, Structural)]
pub struct Loan {
    pub borrower: u64,
    /// Debt, interest included.
    pub borrowed_amount: i128,
    /// Address of the pool the funds came from.
    pub borrowed_from: u64,
    pub collateral_amount: i128,
    /// Address of the pool holding the collateral.
    pub collateral_from: u64,
    pub health_factor: i128,
    /// Interest accrued and not yet paid.
    pub unpaid_interest: i128,
    /// Accrual index of the borrow pool up to which interest has been added.
    pub last_accrual: i128,
}

/// The manager's state as a mathematical value.
pub ghost struct ManagerView {
    pub address: u64,
    pub admin: Option<u64>,
    pub loans: Map<u64, Loan>,
    pub pool_addresses: Seq<u64>,
}

/// Collateral value over borrowed value, in `SCALE`, truncated toward zero,
/// or why it cannot be computed.
pub open spec fn health_factor(
    borrowed_price: Option<PriceData>,
    borrowed_amount: int,
    collateral_price: Option<PriceData>,
    collateral_amount: int,
) -> Result<int, Error> {
    if borrowed_price is None || collateral_price is None {
        Err(Error::NoPriceAvailable)
    } else {
        let collateral_value = collateral_price->Some_0.price * collateral_amount;
        let borrowed_value = borrowed_price->Some_0.price * borrowed_amount;
        if !fits(collateral_value) || !fits(borrowed_value) || !fits(collateral_value * SCALE)
            || !div_ok(collateral_value * SCALE, borrowed_value) {
            Err(Error::ArithmeticOverflow)
        } else {
            Ok(tdiv(collateral_value * SCALE, borrowed_value))
        }
    }
}

/// The loan brought up to the borrow pool's index `index`: the debt grows by
/// the ratio of `index` to the loan's anchor, the growth is added to the
/// unpaid interest, and the health factor is recomputed.
pub open spec fn accrue_loan(
    loan: Loan,
    index: int,
    borrowed_price: Option<PriceData>,
    collateral_price: Option<PriceData>,
) -> Result<Loan, Error> {
    let multiplier = tdiv(index * SCALE, loan.last_accrual as int);
    let grown = tdiv(loan.borrowed_amount * multiplier, SCALE as int);
    if !fits(index * SCALE) || !div_ok(index * SCALE, loan.last_accrual as int) || !fits(
        loan.borrowed_amount * multiplier,
    ) {
        Err(Error::ArithmeticOverflow)
    } else {
        match health_factor(borrowed_price, grown, collateral_price, loan.collateral_amount as int) {
            Err(e) => Err(e),
            Ok(hf) => if !fits(grown - loan.borrowed_amount) || !fits(
                loan.unpaid_interest + (grown - loan.borrowed_amount),
            ) {
                Err(Error::ArithmeticOverflow)
            } else {
                Ok(
                    Loan {
                        borrowed_amount: grown as i128,
                        health_factor: hf as i128,
                        unpaid_interest: (loan.unpaid_interest + (grown
                            - loan.borrowed_amount)) as i128,
                        last_accrual: index as i128,
                        ..loan
                    },
                )
            },
        }
    }
}

/// Collateral handed to a liquidator who repays `amount` of debt: the debt's
/// value with the bonus, converted at the collateral price, or why it cannot
/// be computed.
pub open spec fn liquidation_collateral(amount: int, borrowed_price: int, collateral_price: int) -> Result<
    int,
    Error,
> {
    let value = amount * borrowed_price;
    if !fits(value) || !fits(value * LIQUIDATION_BONUS) || !div_ok(
        value * LIQUIDATION_BONUS,
        collateral_price,
    ) {
        Err(Error::ArithmeticOverflow)
    } else {
        Ok(tdiv(tdiv(value * LIQUIDATION_BONUS, collateral_price), SCALE as int))
    }
}

impl ManagerView {
    /// The manager with `loan` recorded for `user`.
    pub open spec fn with_loan(self, user: u64, loan: Loan) -> ManagerView {
        ManagerView { loans: self.loans.insert(user, loan), ..self }
    }

    /// The loan of `user` brought up to date against the borrow pool `bp` at
    /// `now`, or why it cannot be.
    pub open spec fn loan_accrued(
        self,
        user: u64,
        bp: PoolView,
        borrowed_price: Option<PriceData>,
        collateral_price: Option<PriceData>,
        now: u64,
    ) -> Result<Loan, Error> {
        if !self.loans.contains_key(user) {
            Err(Error::InvalidLoanState)
        } else if bp.address != self.loans[user].borrowed_from {
            Err(Error::AddressNotFound)
        } else if !bp.accrues_at(now) {
            Err(Error::Pool(PoolError::ArithmeticOverflow))
        } else {
            accrue_loan(self.loans[user], bp.accrued(now).accrual as int, borrowed_price, collateral_price)
        }
    }

    /// The borrow pool once `loan`, the up-to-date loan of `user`, is recorded
    /// there: its index brought to `now` and the interest added since the
    /// loan was last brought up to date added to the borrower's liabilities.
    pub open spec fn interest_recorded(self, user: u64, bp: PoolView, loan: Loan, now: u64) -> Result<
        PoolView,
        Error,
    > {
        match bp.accrued(now).increase_liabilities_result(
            self.address,
            user,
            loan.borrowed_amount - self.loans[user].borrowed_amount,
        ) {
            Ok(b) => Ok(b),
            Err(e) => Err(Error::Pool(e)),
        }
    }

    /// Outcome of `add_interest`: the loan and the borrow pool afterwards.
    pub open spec fn add_interest_result(
        self,
        user: u64,
        bp: PoolView,
        borrowed_price: Option<PriceData>,
        collateral_price: Option<PriceData>,
        now: u64,
    ) -> Result<(Loan, PoolView), Error> {
        match self.loan_accrued(user, bp, borrowed_price, collateral_price, now) {
            Err(e) => Err(e),
            Ok(loan) => match self.interest_recorded(user, bp, loan, now) {
                Err(e) => Err(e),
                Ok(b) => Ok((loan, b)),
            },
        }
    }

    /// Outcome of `create_loan`: the new loan and both pools afterwards.
    pub open spec fn create_loan_result(
        self,
        user: u64,
        borrowed: int,
        bp: PoolView,
        collateral: int,
        cp: PoolView,
        borrowed_price: Option<PriceData>,
        collateral_price: Option<PriceData>,
        now: u64,
    ) -> Result<(Loan, PoolView, PoolView), Error> {
        if self.loans.contains_key(user) {
            Err(Error::LoanAlreadyExists)
        } else {
            match health_factor(borrowed_price, borrowed, collateral_price, collateral) {
                Err(e) => Err(e),
                Ok(hf) => if hf <= HEALTH_FACTOR_THRESHOLD {
                    Err(Error::HealthFactorTooLow)
                } else {
                    match cp.deposit_collateral_result(user, collateral, now) {
                        Err(e) => Err(Error::Pool(e)),
                        Ok(c) => match bp.borrow_result(self.address, user, borrowed, now) {
                            Err(e) => Err(Error::Pool(e)),
                            Ok(b) => Ok(
                                (
                                    Loan {
                                        borrower: user,
                                        borrowed_amount: borrowed as i128,
                                        borrowed_from: bp.address,
                                        collateral_amount: collateral as i128,
                                        collateral_from: cp.address,
                                        health_factor: hf as i128,
                                        unpaid_interest: 0,
                                        last_accrual: b.accrual,
                                    },
                                    b,
                                    c,
                                ),
                            ),
                        },
                    }
                },
            }
        }
    }

    /// Outcome of `repay`: the loan and the borrow pool afterwards.
    pub open spec fn repay_result(
        self,
        user: u64,
        amount: int,
        bp: PoolView,
        borrowed_price: Option<PriceData>,
        collateral_price: Option<PriceData>,
        now: u64,
    ) -> Result<(Loan, PoolView), Error> {
        match self.loan_accrued(user, bp, borrowed_price, collateral_price, now) {
            Err(e) => Err(e),
            Ok(loan) => {
                let remaining = loan.borrowed_amount - amount;
                if amount > loan.borrowed_amount {
                    Err(Error::ExceedsBorrowedAmount)
                } else if !fits(remaining) {
                    Err(Error::ArithmeticOverflow)
                } else {
                    match health_factor(
                        borrowed_price,
                        remaining,
                        collateral_price,
                        loan.collateral_amount as int,
                    ) {
                        Err(e) => Err(e),
                        Ok(hf) => match self.interest_recorded(user, bp, loan, now) {
                            Err(e) => Err(e),
                            Ok(b0) => match b0.settle_result(
                                self.address,
                                user,
                                user,
                                amount,
                                loan.unpaid_interest as int,
                                now,
                            ) {
                                Err(e) => Err(Error::Pool(e)),
                                Ok(b) => Ok(
                                    (
                                        Loan {
                                            borrowed_amount: remaining as i128,
                                            health_factor: hf as i128,
                                            unpaid_interest: (loan.unpaid_interest
                                                - interest_part(
                                                amount,
                                                loan.unpaid_interest as int,
                                            )) as i128,
                                            ..loan
                                        },
                                        b,
                                    ),
                                ),
                            },
                        },
                    }
                }
            },
        }
    }

    /// Outcome of `repay_and_close_manager`: the debt repaid and both pools
    /// afterwards.
    pub open spec fn close_result(
        self,
        user: u64,
        max_allowed: int,
        bp: PoolView,
        cp: PoolView,
        borrowed_price: Option<PriceData>,
        collateral_price: Option<PriceData>,
        now: u64,
    ) -> Result<(i128, PoolView, PoolView), Error> {
        match self.loan_accrued(user, bp, borrowed_price, collateral_price, now) {
            Err(e) => Err(e),
            Ok(loan) => if cp.address != loan.collateral_from {
                Err(Error::AddressNotFound)
            } else {
                match self.interest_recorded(user, bp, loan, now) {
                    Err(e) => Err(e),
                    Ok(b0) => match b0.repay_and_close_result(
                        self.address,
                        user,
                        loan.borrowed_amount as int,
                        max_allowed,
                        loan.unpaid_interest as int,
                        now,
                    ) {
                        Err(e) => Err(Error::Pool(e)),
                        Ok(b) => match cp.withdraw_collateral_result(
                            self.address,
                            user,
                            loan.collateral_amount as int,
                            now,
                        ) {
                            Err(e) => Err(Error::Pool(e)),
                            Ok(c) => Ok((loan.borrowed_amount, b, c)),
                        },
                    },
                }
            },
        }
    }

    /// Outcome of `liquidate`: the loan and both pools afterwards.
    pub open spec fn liquidate_result(
        self,
        liquidator: u64,
        borrower: u64,
        amount: int,
        bp: PoolView,
        cp: PoolView,
        borrowed_price: Option<PriceData>,
        collateral_price: Option<PriceData>,
        now: u64,
    ) -> Result<(Loan, PoolView, PoolView), Error> {
        match self.loan_accrued(borrower, bp, borrowed_price, collateral_price, now) {
            Err(e) => Err(e),
            Ok(loan) => if cp.address != loan.collateral_from {
                Err(Error::AddressNotFound)
            } else if loan.health_factor >= HEALTH_FACTOR_THRESHOLD {
                Err(Error::NotLiquidatable)
            } else if amount >= tdiv(loan.borrowed_amount as int, 2) {
                Err(Error::ExceedsLiquidationLimit)
            } else {
                match liquidation_collateral(
                    amount,
                    borrowed_price->Some_0.price as int,
                    collateral_price->Some_0.price as int,
                ) {
                    Err(e) => Err(e),
                    Ok(seized) => {
                        let remaining = loan.borrowed_amount - amount;
                        let collateral_left = loan.collateral_amount - seized;
                        if !fits(remaining) || !fits(collateral_left) {
                            Err(Error::ArithmeticOverflow)
                        } else {
                            match health_factor(
                                borrowed_price,
                                remaining,
                                collateral_price,
                                collateral_left,
                            ) {
                                Err(e) => Err(e),
                                Ok(hf) => match self.interest_recorded(borrower, bp, loan, now) {
                                    Err(e) => Err(e),
                                    Ok(b0) => match b0.settle_result(
                                        self.address,
                                        liquidator,
                                        borrower,
                                        amount,
                                        loan.unpaid_interest as int,
                                        now,
                                    ) {
                                        Err(e) => Err(Error::Pool(e)),
                                        Ok(b) => match cp.transfer_collateral_result(
                                            self.address,
                                            liquidator,
                                            seized,
                                            borrower,
                                        ) {
                                            Err(e) => Err(Error::Pool(e)),
                                            Ok(c) => Ok(
                                                (
                                                    Loan {
                                                        borrowed_amount: remaining as i128,
                                                        collateral_amount: collateral_left as i128,
                                                        health_factor: hf as i128,
                                                        unpaid_interest: (loan.unpaid_interest
                                                            - interest_part(
                                                            amount,
                                                            loan.unpaid_interest as int,
                                                        )) as i128,
                                                        ..loan
                                                    },
                                                    b,
                                                    c,
                                                ),
                                            ),
                                        },
                                    },
                                },
                            }
                        }
                    },
                }
            },
        }
    }
}

/// Collateral value over borrowed value, in `SCALE`. Fails with
/// `NoPriceAvailable` when either price is missing, and with
/// `ArithmeticOverflow` when a value overflows or the borrowed value is zero.
pub fn calculate_health_factor(
    borrowed_price: Option<PriceData>,
    token_amount: i128,
    collateral_price: Option<PriceData>,
    token_collateral_amount: i128,
) -> (r: Result<i128, Error>)
    ensures
        match health_factor(
            borrowed_price,
            token_amount as int,
            collateral_price,
            token_collateral_amount as int,
        ) {
            Ok(hf) => r == Ok::<i128, Error>(hf as i128),
            Err(e) => r == Err::<i128, Error>(e),
        },
        borrowed_price is None || collateral_price is None ==> r == Err::<i128, Error>(
            Error::NoPriceAvailable,
        ),
        borrowed_price is Some && collateral_price is Some && borrowed_price->Some_0.price
            * token_amount == 0 ==> r == Err::<i128, Error>(Error::ArithmeticOverflow),
{
    let (borrowed_price, collateral_price) = match (borrowed_price, collateral_price) {
        (Some(b), Some(c)) => (b.price, c.price),
        _ => return Err(Error::NoPriceAvailable),
    };
    let collateral_value = match collateral_price.checked_mul(token_collateral_amount) {
        Some(v) => v,
        None => return Err(Error::ArithmeticOverflow),
    };
    let borrowed_value = match borrowed_price.checked_mul(token_amount) {
        Some(v) => v,
        None => return Err(Error::ArithmeticOverflow),
    };
    let scaled = match collateral_value.checked_mul(SCALE) {
        Some(v) => v,
        None => return Err(Error::ArithmeticOverflow),
    };
    match scaled.checked_div(borrowed_value) {
        Some(hf) => Ok(hf),
        None => Err(Error::ArithmeticOverflow),
    }
}

/// The price in an oracle answer, or `NoPriceAvailable`.
pub fn get_price(price: Option<PriceData>) -> (r: Result<i128, Error>)
    ensures
        match price {
            Some(p) => r == Ok::<i128, Error>(p.price),
            None => r == Err::<i128, Error>(Error::NoPriceAvailable),
        },
{
    match price {
        Some(p) => Ok(p.price),
        None => Err(Error::NoPriceAvailable),
    }
}

/// The loan brought up to the borrow pool's index `index`.
fn accrue(
    loan: Loan,
    index: i128,
    borrowed_price: Option<PriceData>,
    collateral_price: Option<PriceData>,
) -> (r: Result<Loan, Error>)
    ensures
        r == accrue_loan(loan, index as int, borrowed_price, collateral_price),
{
    let scaled = match index.checked_mul(SCALE) {
        Some(v) => v,
        None => return Err(Error::ArithmeticOverflow),
    };
    let multiplier = match scaled.checked_div(loan.last_accrual) {
        Some(v) => v,
        None => return Err(Error::ArithmeticOverflow),
    };
    let grown = match loan.borrowed_amount.checked_mul(multiplier) {
        Some(v) => match v.checked_div(SCALE) {
            Some(g) => g,
            None => return Err(Error::ArithmeticOverflow),
        },
        None => return Err(Error::ArithmeticOverflow),
    };
    let hf = match calculate_health_factor(
        borrowed_price,
        grown,
        collateral_price,
        loan.collateral_amount,
    ) {
        Ok(hf) => hf,
        Err(e) => return Err(e),
    };
    let growth = match grown.checked_sub(loan.borrowed_amount) {
        Some(v) => v,
        None => return Err(Error::ArithmeticOverflow),
    };
    let unpaid = match loan.unpaid_interest.checked_add(growth) {
        Some(v) => v,
        None => return Err(Error::ArithmeticOverflow),
    };
    Ok(
        Loan {
            borrowed_amount: grown,
            health_factor: hf,
            unpaid_interest: unpaid,
            last_accrual: index,
            ..loan
        },
    )
}

/// The loan manager's state: its own account, its admin, the open loans by
/// borrower, and the pools it has deployed.
pub struct LoanManager {
    address: u64,
    admin: Option<u64>,
    loans: HashMap<u64, Loan>,
    pool_addresses: Vec<u64>,
}

impl View for LoanManager {
    type V = ManagerView;

    closed spec fn view(&self) -> ManagerView {
        ManagerView {
            address: self.address,
            admin: self.admin,
            loans: self.loans@,
            pool_addresses: self.pool_addresses@,
        }
    }
}

impl LoanManager {
    /// A manager at `address` with no admin, loans or pools.
    pub fn new(address: u64) -> (m: LoanManager)
        ensures
            m@ == (ManagerView {
                address,
                admin: None,
                loans: Map::empty(),
                pool_addresses: Seq::empty(),
            }),
    {
        LoanManager { address, admin: None, loans: HashMap::new(), pool_addresses: Vec::new() }
    }

    /// Sets the admin; fails with `AlreadyInitialized` if one is set.
    pub fn initialize(&mut self, admin: u64) -> (r: Result<(), Error>)
        ensures
            if old(self)@.admin is Some {
                r == Err::<(), Error>(Error::AlreadyInitialized) && final(self)@ == old(self)@
            } else {
                r is Ok && final(self)@ == (ManagerView { admin: Some(admin), ..old(self)@ })
            },
    {
        if self.admin.is_some() {
            return Err(Error::AlreadyInitialized);
        }
        self.admin = Some(admin);
        Ok(())
    }

    /// The manager's own account, the caller it presents to its pools.
    pub fn get_address(&self) -> (r: u64)
        ensures
            r == self@.address,
    {
        self.address
    }

    /// The admin, or `NotInitialized`.
    pub fn read_admin(&self) -> (r: Result<u64, LoanManagerError>)
        ensures
            match self@.admin {
                Some(a) => r == Ok::<u64, LoanManagerError>(a),
                None => r == Err::<u64, LoanManagerError>(LoanManagerError::NotInitialized),
            },
    {
        match self.admin {
            Some(a) => Ok(a),
            None => Err(LoanManagerError::NotInitialized),
        }
    }

    /// Whether an admin is set.
    pub fn admin_exists(&self) -> (r: bool)
        ensures
            r == self@.admin is Some,
    {
        self.admin.is_some()
    }

    /// Whether `user` has an open loan.
    pub fn user_loan_exists(&self, user: u64) -> (r: bool)
        ensures
            r == self@.loans.contains_key(user),
    {
        self.loans.contains_key(&user)
    }

    /// The open loan of `user`, or `InvalidLoanInStorage`.
    pub fn read_loan(&self, user: u64) -> (r: Result<Loan, LoanManagerError>)
        ensures
            if self@.loans.contains_key(user) {
                r == Ok::<Loan, LoanManagerError>(self@.loans[user])
            } else {
                r == Err::<Loan, LoanManagerError>(LoanManagerError::InvalidLoanInStorage)
            },
    {
        match self.loans.get(&user) {
            Some(l) => Ok(*l),
            None => Err(LoanManagerError::InvalidLoanInStorage),
        }
    }

    /// The open loan of `user`, or `InvalidLoanState`.
    pub fn get_loan(&self, user: u64) -> (r: Result<Loan, Error>)
        ensures
            if self@.loans.contains_key(user) {
                r == Ok::<Loan, Error>(self@.loans[user])
            } else {
                r == Err::<Loan, Error>(Error::InvalidLoanState)
            },
    {
        match self.read_loan(user) {
            Ok(l) => Ok(l),
            Err(_) => Err(Error::InvalidLoanState),
        }
    }

    /// Addresses of the pools deployed through this manager, oldest first.
    pub fn read_pool_addresses(&self) -> (r: &Vec<u64>)
        ensures
            r@ == self@.pool_addresses,
    {
        &self.pool_addresses
    }

    /// The pools an upgrade must reach, oldest first; only possible once an
    /// admin is set, who then authorizes the upgrade.
    pub fn upgrade(&self) -> (r: Result<Vec<u64>, Error>)
        ensures
            match self@.admin {
                Some(_) => r is Ok && r->Ok_0@ == self@.pool_addresses,
                None => r is Err && r->Err_0 == Error::AdminNotFound,
            },
    {
        if self.admin.is_none() {
            return Err(Error::AdminNotFound);
        }
        let mut pools: Vec<u64> = Vec::new();
        let mut i: usize = 0;
        while i < self.pool_addresses.len()
            invariant
                i <= self.pool_addresses.len(),
                pools@ == self.pool_addresses@.subrange(0, i as int),
            decreases self.pool_addresses.len() - i,
        {
            pools.push(self.pool_addresses[i]);
            i = i + 1;
        }
        assert(pools@ =~= self.pool_addresses@);
        Ok(pools)
    }

    /// Creates the pool at `pool_address` for the given asset, managed by this
    /// manager, and records its address. Only possible once an admin is set.
    pub fn deploy_pool(
        &mut self,
        pool_address: u64,
        token_address: u64,
        ticker: String,
        liquidation_threshold: i128,
        now: u64,
    ) -> (r: Result<LoanPool, Error>)
        ensures
            old(self)@.admin is None ==> r == Err::<LoanPool, Error>(Error::AdminNotFound)
                && final(self)@ == old(self)@,
            old(self)@.admin is Some ==> r is Ok && final(self)@ == (ManagerView {
                pool_addresses: old(self)@.pool_addresses.push(pool_address),
                ..old(self)@
            }) && r->Ok_0@ == (PoolView {
                address: pool_address,
                loan_manager: old(self)@.address,
                token: token_address,
                ticker: ticker@,
                liquidation_threshold,
                total_shares: 0,
                total_balance: 0,
                available_balance: 0,
                accrual: SCALE,
                accrual_last_updated: now,
                positions: Map::empty(),
                transfers: Seq::empty(),
            }) && r->Ok_0@.wf(),
    {
        if self.admin.is_none() {
            return Err(Error::AdminNotFound);
        }
        self.pool_addresses.push(pool_address);
        Ok(
            LoanPool::initialize(
                pool_address,
                self.address,
                Currency { token_address, ticker },
                liquidation_threshold,
                now,
            ),
        )
    }

    /// The loan of `user` brought up to date against `borrow_pool` at `now`,
    /// with the pool's index at that time; nothing is changed.
    fn accrued_loan(
        &self,
        user: u64,
        borrow_pool: &LoanPool,
        borrowed_price: Option<PriceData>,
        collateral_price: Option<PriceData>,
        now: u64,
    ) -> (r: Result<(Loan, i128), Error>)
        requires
            borrow_pool@.wf(),
        ensures
            match self@.loan_accrued(user, borrow_pool@, borrowed_price, collateral_price, now) {
                Ok(loan) => r == Ok::<(Loan, i128), Error>(
                    (loan, (loan.borrowed_amount - self@.loans[user].borrowed_amount) as i128),
                ) && self@.loans.contains_key(user) && borrow_pool@.accrues_at(now),
                Err(e) => r == Err::<(Loan, i128), Error>(e),
            },
    {
        let loan = match self.loans.get(&user) {
            Some(l) => *l,
            None => return Err(Error::InvalidLoanState),
        };
        if borrow_pool.get_address() != loan.borrowed_from {
            return Err(Error::AddressNotFound);
        }
        let index = match borrow_pool.accrual_at(now) {
            Ok(i) => i,
            Err(e) => return Err(Error::Pool(e)),
        };
        match accrue(loan, index, borrowed_price, collateral_price) {
            Ok(grown) => Ok((grown, grown.borrowed_amount - loan.borrowed_amount)),
            Err(e) => Err(e),
        }
    }

    /// Records the up-to-date loan of `user` in the borrow pool: brings its
    /// index to `now` and adds `growth`, the interest just added to the loan,
    /// to the borrower's liabilities there.
    fn record_interest(&self, user: u64, growth: i128, borrow_pool: &mut LoanPool, now: u64) -> (r:
        Result<(), Error>)
        requires
            old(borrow_pool)@.wf(),
            old(borrow_pool)@.accrues_at(now),
        ensures
            final(borrow_pool)@.wf(),
            match old(borrow_pool)@.accrued(now).increase_liabilities_result(
                self@.address,
                user,
                growth as int,
            ) {
                Ok(b) => r is Ok && final(borrow_pool)@ == b,
                Err(e) => r == Err::<(), Error>(Error::Pool(e)) && final(borrow_pool)@ == old(borrow_pool)@,
            },
    {
        let saved = borrow_pool.snapshot();
        match borrow_pool.add_interest_to_accrual(now) {
            Ok(()) => {},
            Err(e) => return Err(Error::Pool(e)),
        }
        match borrow_pool.increase_liabilities(self.address, user, growth) {
            Ok(()) => Ok(()),
            Err(e) => {
                *borrow_pool = saved;
                Err(Error::Pool(e))
            },
        }
    }

    /// Opens a loan of `borrowed` tokens from `borrow_pool` for `user`, against
    /// `collateral` tokens deposited into `collateral_pool`. Requires no open
    /// loan for `user` and a health factor above the threshold at the given
    /// prices.
    pub fn create_loan(
        &mut self,
        user: u64,
        borrowed: i128,
        borrow_pool: &mut LoanPool,
        collateral: i128,
        collateral_pool: &mut LoanPool,
        borrowed_price: Option<PriceData>,
        collateral_price: Option<PriceData>,
        now: u64,
    ) -> (r: Result<(), Error>)
        requires
            old(borrow_pool)@.wf(),
            old(collateral_pool)@.wf(),
        ensures
            final(borrow_pool)@.wf(),
            final(collateral_pool)@.wf(),
            match old(self)@.create_loan_result(
                user,
                borrowed as int,
                old(borrow_pool)@,
                collateral as int,
                old(collateral_pool)@,
                borrowed_price,
                collateral_price,
                now,
            ) {
                Ok((loan, b, c)) => r is Ok && final(self)@ == old(self)@.with_loan(user, loan)
                    && final(borrow_pool)@ == b && final(collateral_pool)@ == c,
                Err(e) => r == Err::<(), Error>(e) && final(self)@ == old(self)@ && final(borrow_pool)@ == old(borrow_pool)@ && final(collateral_pool)@ == old(collateral_pool)@,
            },
    {
        if self.loans.contains_key(&user) {
            return Err(Error::LoanAlreadyExists);
        }
        let health_factor = match calculate_health_factor(
            borrowed_price,
            borrowed,
            collateral_price,
            collateral,
        ) {
            Ok(hf) => hf,
            Err(e) => return Err(e),
        };
        if health_factor <= HEALTH_FACTOR_THRESHOLD {
            return Err(Error::HealthFactorTooLow);
        }
        let saved = collateral_pool.snapshot();
        let collateral_amount = match collateral_pool.deposit_collateral(user, collateral, now) {
            Ok(a) => a,
            Err(e) => return Err(Error::Pool(e)),
        };
        let borrowed_amount = match borrow_pool.borrow(self.address, user, borrowed, now) {
            Ok(a) => a,
            Err(e) => {
                *collateral_pool = saved;
                return Err(Error::Pool(e));
            },
        };
        let loan = Loan {
            borrower: user,
            borrowed_amount,
            borrowed_from: borrow_pool.get_address(),
            collateral_amount,
            collateral_from: collateral_pool.get_address(),
            health_factor,
            unpaid_interest: 0,
            last_accrual: borrow_pool.get_accrual(),
        };
        self.loans.insert(user, loan);
        Ok(())
    }

    /// Brings the loan of `user` up to date: the borrow pool's index is moved
    /// to `now`, the debt grows by the ratio of the new index to the loan's
    /// anchor, the growth is added to the unpaid interest and to the
    /// borrower's liabilities in the borrow pool, and the health factor is
    /// recomputed at the given prices.
    pub fn add_interest(
        &mut self,
        user: u64,
        borrow_pool: &mut LoanPool,
        borrowed_price: Option<PriceData>,
        collateral_price: Option<PriceData>,
        now: u64,
    ) -> (r: Result<(), Error>)
        requires
            old(borrow_pool)@.wf(),
        ensures
            final(borrow_pool)@.wf(),
            match old(self)@.add_interest_result(
                user,
                old(borrow_pool)@,
                borrowed_price,
                collateral_price,
                now,
            ) {
                Ok((loan, b)) => r is Ok && final(self)@ == old(self)@.with_loan(user, loan) && final(borrow_pool)@ == b,
                Err(e) => r == Err::<(), Error>(e) && final(self)@ == old(self)@ && final(borrow_pool)@ == old(borrow_pool)@,
            },
    {
        let (loan, growth) = match self.accrued_loan(
            user,
            borrow_pool,
            borrowed_price,
            collateral_price,
            now,
        ) {
            Ok(l) => l,
            Err(e) => return Err(e),
        };
        match self.record_interest(user, growth, borrow_pool, now) {
            Ok(()) => {},
            Err(e) => return Err(e),
        }
        self.loans.insert(user, loan);
        Ok(())
    }

    /// Repays `amount` of the loan of `user` after bringing it up to date.
    /// The payment settles unpaid interest first; the rest reduces the
    /// principal. Returns the debt before and after. The health factor is
    /// recomputed on what is left, so paying off the whole debt here fails
    /// with `ArithmeticOverflow` (no debt to measure against); a loan is paid
    /// off with `repay_and_close_manager`.
    pub fn repay(
        &mut self,
        user: u64,
        amount: i128,
        borrow_pool: &mut LoanPool,
        borrowed_price: Option<PriceData>,
        collateral_price: Option<PriceData>,
        now: u64,
    ) -> (r: Result<(i128, i128), Error>)
        requires
            old(borrow_pool)@.wf(),
        ensures
            final(borrow_pool)@.wf(),
            match old(self)@.repay_result(
                user,
                amount as int,
                old(borrow_pool)@,
                borrowed_price,
                collateral_price,
                now,
            ) {
                Ok((loan, b)) => r == Ok::<(i128, i128), Error>(
                    (
                        old(self)@.loan_accrued(
                            user,
                            old(borrow_pool)@,
                            borrowed_price,
                            collateral_price,
                            now,
                        )->Ok_0.borrowed_amount,
                        loan.borrowed_amount,
                    ),
                ) && final(self)@ == old(self)@.with_loan(user, loan) && final(borrow_pool)@
                    == b,
                Err(e) => r == Err::<(i128, i128), Error>(e) && final(self)@ == old(self)@
                    && final(borrow_pool)@ == old(borrow_pool)@,
            },
    {
        let (loan, growth) = match self.accrued_loan(
            user,
            borrow_pool,
            borrowed_price,
            collateral_price,
            now,
        ) {
            Ok(l) => l,
            Err(e) => return Err(e),
        };
        if amount > loan.borrowed_amount {
            return Err(Error::ExceedsBorrowedAmount);
        }
        let remaining = match loan.borrowed_amount.checked_sub(amount) {
            Some(v) => v,
            None => return Err(Error::ArithmeticOverflow),
        };
        let health_factor = match calculate_health_factor(
            borrowed_price,
            remaining,
            collateral_price,
            loan.collateral_amount,
        ) {
            Ok(hf) => hf,
            Err(e) => return Err(e),
        };
        let saved = borrow_pool.snapshot();
        match self.record_interest(user, growth, borrow_pool, now) {
            Ok(()) => {},
            Err(e) => return Err(e),
        }
        match borrow_pool.repay(self.address, user, amount, loan.unpaid_interest, now) {
            Ok(()) => {},
            Err(e) => {
                *borrow_pool = saved;
                return Err(Error::Pool(e));
            },
        }
        let unpaid = if amount < loan.unpaid_interest {
            loan.unpaid_interest - amount
        } else {
            0
        };
        self.loans.insert(
            user,
            Loan { borrowed_amount: remaining, health_factor, unpaid_interest: unpaid, ..loan },
        );
        Ok((loan.borrowed_amount, remaining))
    }
    /// Repays the whole up-to-date debt of `user` out of at most
    /// `max_allowed_amount` tokens, releases all of their collateral, and
    /// deletes the loan. Returns the debt repaid.
    pub fn repay_and_close_manager(
        &mut self,
        user: u64,
        max_allowed_amount: i128,
        borrow_pool: &mut LoanPool,
        collateral_pool: &mut LoanPool,
        borrowed_price: Option<PriceData>,
        collateral_price: Option<PriceData>,
        now: u64,
    ) -> (r: Result<i128, Error>)
        requires
            old(borrow_pool)@.wf(),
            old(collateral_pool)@.wf(),
        ensures
            final(borrow_pool)@.wf(),
            final(collateral_pool)@.wf(),
            match old(self)@.close_result(
                user,
                max_allowed_amount as int,
                old(borrow_pool)@,
                old(collateral_pool)@,
                borrowed_price,
                collateral_price,
                now,
            ) {
                Ok((repaid, b, c)) => r == Ok::<i128, Error>(repaid) && final(self)@ == (ManagerView {
                    loans: old(self)@.loans.remove(user),
                    ..old(self)@
                }) && final(borrow_pool)@ == b && final(collateral_pool)@ == c,
                Err(e) => r == Err::<i128, Error>(e) && final(self)@ == old(self)@ && final(borrow_pool)@ == old(borrow_pool)@
                    && final(collateral_pool)@ == old(collateral_pool)@,
            },
    {
        let (loan, growth) = match self.accrued_loan(
            user,
            borrow_pool,
            borrowed_price,
            collateral_price,
            now,
        ) {
            Ok(l) => l,
            Err(e) => return Err(e),
        };
        if collateral_pool.get_address() != loan.collateral_from {
            return Err(Error::AddressNotFound);
        }
        let saved = borrow_pool.snapshot();
        match self.record_interest(user, growth, borrow_pool, now) {
            Ok(()) => {},
            Err(e) => return Err(e),
        }
        match borrow_pool.repay_and_close(
            self.address,
            user,
            loan.borrowed_amount,
            max_allowed_amount,
            loan.unpaid_interest,
            now,
        ) {
            Ok(()) => {},
            Err(e) => {
                *borrow_pool = saved;
                return Err(Error::Pool(e));
            },
        }
        match collateral_pool.withdraw_collateral(self.address, user, loan.collateral_amount, now) {
            Ok(_) => {},
            Err(e) => {
                *borrow_pool = saved;
                return Err(Error::Pool(e));
            },
        }
        self.loans.remove(&user);
        Ok(loan.borrowed_amount)
    }

    /// Partial liquidation of the loan of `borrower` by `user`: after bringing
    /// the loan up to date, it must be under the health factor threshold and
    /// `amount` below half of the debt. The liquidator repays `amount` and
    /// receives its value plus the bonus in collateral. Returns the debt and
    /// collateral left.
    pub fn liquidate(
        &mut self,
        user: u64,
        borrower: u64,
        amount: i128,
        borrow_pool: &mut LoanPool,
        collateral_pool: &mut LoanPool,
        borrowed_price: Option<PriceData>,
        collateral_price: Option<PriceData>,
        now: u64,
    ) -> (r: Result<(i128, i128), Error>)
        requires
            old(borrow_pool)@.wf(),
            old(collateral_pool)@.wf(),
        ensures
            final(borrow_pool)@.wf(),
            final(collateral_pool)@.wf(),
            match old(self)@.liquidate_result(
                user,
                borrower,
                amount as int,
                old(borrow_pool)@,
                old(collateral_pool)@,
                borrowed_price,
                collateral_price,
                now,
            ) {
                Ok((loan, b, c)) => r == Ok::<(i128, i128), Error>(
                    (loan.borrowed_amount, loan.collateral_amount),
                ) && final(self)@ == old(self)@.with_loan(borrower, loan) && final(borrow_pool)@ == b
                    && final(collateral_pool)@ == c,
                Err(e) => r == Err::<(i128, i128), Error>(e) && final(self)@ == old(self)@ && final(borrow_pool)@ == old(borrow_pool)@
                    && final(collateral_pool)@ == old(collateral_pool)@,
            },
            r is Ok ==> ({
                let loan = old(self)@.loan_accrued(
                    borrower,
                    old(borrow_pool)@,
                    borrowed_price,
                    collateral_price,
                    now,
                )->Ok_0;
                &&& amount < tdiv(loan.borrowed_amount as int, 2)
                &&& loan.health_factor < HEALTH_FACTOR_THRESHOLD
            }),
    {
        let (loan, growth) = match self.accrued_loan(
            borrower,
            borrow_pool,
            borrowed_price,
            collateral_price,
            now,
        ) {
            Ok(l) => l,
            Err(e) => return Err(e),
        };
        if collateral_pool.get_address() != loan.collateral_from {
            return Err(Error::AddressNotFound);
        }
        if loan.health_factor >= HEALTH_FACTOR_THRESHOLD {
            return Err(Error::NotLiquidatable);
        }
        let half = match loan.borrowed_amount.checked_div(2) {
            Some(h) => h,
            None => return Err(Error::ArithmeticOverflow),
        };
        if amount >= half {
            return Err(Error::ExceedsLiquidationLimit);
        }
        let borrowed_unit = match get_price(borrowed_price) {
            Ok(p) => p,
            Err(e) => return Err(e),
        };
        let collateral_unit = match get_price(collateral_price) {
            Ok(p) => p,
            Err(e) => return Err(e),
        };
        let value = match amount.checked_mul(borrowed_unit) {
            Some(v) => v,
            None => return Err(Error::ArithmeticOverflow),
        };
        let with_bonus = match value.checked_mul(LIQUIDATION_BONUS) {
            Some(v) => v,
            None => return Err(Error::ArithmeticOverflow),
        };
        let seized = match with_bonus.checked_div(collateral_unit) {
            Some(v) => match v.checked_div(SCALE) {
                Some(s) => s,
                None => return Err(Error::ArithmeticOverflow),
            },
            None => return Err(Error::ArithmeticOverflow),
        };
        let remaining = match loan.borrowed_amount.checked_sub(amount) {
            Some(v) => v,
            None => return Err(Error::ArithmeticOverflow),
        };
        let collateral_left = match loan.collateral_amount.checked_sub(seized) {
            Some(v) => v,
            None => return Err(Error::ArithmeticOverflow),
        };
        let health_factor = match calculate_health_factor(
            borrowed_price,
            remaining,
            collateral_price,
            collateral_left,
        ) {
            Ok(hf) => hf,
            Err(e) => return Err(e),
        };
        let saved = borrow_pool.snapshot();
        match self.record_interest(borrower, growth, borrow_pool, now) {
            Ok(()) => {},
            Err(e) => return Err(e),
        }
        match borrow_pool.liquidate(
            self.address,
            user,
            amount,
            loan.unpaid_interest,
            borrower,
            now,
        ) {
            Ok(()) => {},
            Err(e) => {
                *borrow_pool = saved;
                return Err(Error::Pool(e));
            },
        }
        match collateral_pool.liquidate_transfer_collateral(self.address, user, seized, borrower) {
            Ok(()) => {},
            Err(e) => {
                *borrow_pool = saved;
                return Err(Error::Pool(e));
            },
        }
        let unpaid = if amount < loan.unpaid_interest {
            loan.unpaid_interest - amount
        } else {
            0
        };
        self.loans.insert(
            borrower,
            Loan {
                borrowed_amount: remaining,
                collateral_amount: collateral_left,
                health_factor,
                unpaid_interest: unpaid,
                ..loan
            },
        );
        Ok((remaining, collateral_left))
    }
}

} // verus!
