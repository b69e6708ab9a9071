//! The liquidity pool ledger of one asset: token balances, share accounting,
//! the accrual index, and the positions of its users.
//!
//! Every operation first brings the accrual index up to the given time, then
//! either succeeds as a whole or fails without changing anything. Token
//! movements the host must carry out are appended to the pool's outbox of
//! transfers.
use crate::fixed::{div_nonneg, fits, lemma_mul_nonneg, lemma_tdiv_nonneg, SCALE, SECONDS_IN_YEAR};
use crate::interest::{annual_rate, annual_rate_defined, get_interest};
use crate::positions::{
    book_is_valid, decrease_positions, increase_positions, position_of, read_positions, Positions,
};
use std::collections::HashMap;
use vstd::prelude::*;

verus! {

broadcast use vstd::std_specs::hash::group_hash_axioms;

/// Failures of pool operations.
#[derive(Clone, Copy, Debug, PartialEq, Eq, Structural)]
pub enum Error {
    /// The caller is not the loan manager the pool was initialized with.
    NotAuthorized,
    /// A checked addition, subtraction, multiplication or division failed.
    ArithmeticOverflow,
    /// An amount is negative, or zero where a deposit, withdrawal or borrow
    /// requires a positive one.
    NegativeAmount,
    /// The request exceeds the tokens the pool has available.
    InsufficientLiquidity,
    /// A withdrawal exceeds the user's receivable shares.
    InsufficientShares,
    /// A position field would become negative.
    InsufficientPositions,
    /// The debt to settle exceeds the most the payer allowed.
    SlippageExceeded,
}

/// The pool's underlying asset: the token it holds and the ticker under which
/// the oracle prices it.
pub struct Currency {
    pub token_address: u64,
    pub ticker: String,
}

/// A token movement to be carried out by the token service.
#[derive(Clone, Copy, Debug, PartialEq, Eq, Structural)]
pub struct Transfer {
    pub token: u64,
    pub from: u64,
    pub to: u64,
    pub amount: i128,
}

/// Summary of a pool's balances and its current annual rate.
#[derive(Clone, Copy, Debug, PartialEq, Eq, Structural)]
pub struct PoolState {
    pub total_balance_tokens: i128,
    pub available_balance_tokens: i128,
    pub total_balance_shares: i128,
    pub annual_interest_rate: i128,
}

/// The whole state of a pool, as a mathematical value.
pub ghost struct PoolView {
    pub address: u64,
    pub loan_manager: u64,
    pub token: u64,
    pub ticker: Seq<char>,
    pub liquidation_threshold: i128,
    pub total_shares: i128,
    pub total_balance: i128,
    pub available_balance: i128,
    pub accrual: i128,
    pub accrual_last_updated: u64,
    pub positions: Map<u64, Positions>,
    pub transfers: Seq<Transfer>,
}

/// Fraction of a year, in `SCALE`, that `elapsed` seconds make.
pub open spec fn year_fraction(elapsed: int) -> int {
    elapsed * SCALE / (SECONDS_IN_YEAR as int)
}

/// Interest a full year adds to `index` at `rate`.
pub open spec fn yearly_interest(index: int, rate: int) -> int {
    index * rate / SCALE as int
}

/// Growth of `index` over `elapsed` seconds at `rate`.
pub open spec fn index_growth(index: int, rate: int, elapsed: int) -> int {
    yearly_interest(index, rate) * year_fraction(elapsed) / SCALE as int
}

/// The accrual step can be computed in `i128`.
pub open spec fn accrual_fits(index: int, rate: int, elapsed: int) -> bool {
    fits(index * rate) && fits(yearly_interest(index, rate) * year_fraction(elapsed)) && fits(
        index + index_growth(index, rate, elapsed),
    )
}

/// Shares burned when `amount` tokens leave a pool of `total` tokens backed by
/// `shares` shares.
pub open spec fn shares_for(amount: int, shares: int, total: int) -> int {
    amount * shares / total
}

/// Protocol fee on a payment of `amount` against `unpaid` interest: a tenth of
/// the interest part of the payment.
pub open spec fn fee_on(amount: int, unpaid: int) -> int {
    interest_part(amount, unpaid) / 10
}

/// Principal paid back beyond what the pool has lent out, which the pool has
/// not yet counted in its total.
pub open spec fn beyond_lent(principal: int, lent: int) -> int {
    if principal > lent {
        principal - lent
    } else {
        0
    }
}

/// The part of a payment that settles interest.
pub open spec fn interest_part(amount: int, unpaid: int) -> int {
    if amount < unpaid {
        amount
    } else {
        unpaid
    }
}

impl PoolView {
    /// The pool invariant: balances ordered and non-negative, a non-negative
    /// share supply, an index of at least 1.0, and valid positions.
    pub open spec fn wf(self) -> bool {
        &&& 0 <= self.available_balance <= self.total_balance
        &&& 0 <= self.total_shares
        &&& self.accrual >= SCALE
        &&& book_is_valid(self.positions)
    }

    /// Annual rate at the current utilization.
    pub open spec fn rate(self) -> int {
        annual_rate(self.total_balance as int, self.available_balance as int)
    }

    /// Tokens lent out.
    pub open spec fn lent(self) -> int {
        self.total_balance - self.available_balance
    }

    /// Position of `user`.
    pub open spec fn position(self, user: u64) -> Positions {
        position_of(self.positions, user)
    }

    /// The index can be brought forward to `now`: time has not gone back and
    /// every step fits.
    pub open spec fn accrues_at(self, now: u64) -> bool {
        &&& now >= self.accrual_last_updated
        &&& annual_rate_defined(self.total_balance as int, self.available_balance as int)
        &&& accrual_fits(self.accrual as int, self.rate(), now - self.accrual_last_updated)
    }

    /// The pool with its index brought forward to `now`.
    pub open spec fn accrued(self, now: u64) -> PoolView {
        PoolView {
            accrual: (self.accrual + index_growth(
                self.accrual as int,
                self.rate(),
                now - self.accrual_last_updated,
            )) as i128,
            accrual_last_updated: now,
            ..self
        }
    }

    /// Balances and rate of the pool.
    pub open spec fn state(self) -> PoolState {
        PoolState {
            total_balance_tokens: self.total_balance,
            available_balance_tokens: self.available_balance,
            total_balance_shares: self.total_shares,
            annual_interest_rate: self.rate() as i128,
        }
    }

    /// A transfer of the pool's token.
    pub open spec fn transfer(self, from: u64, to: u64, amount: int) -> Transfer {
        Transfer { token: self.token, from, to, amount: amount as i128 }
    }

    /// Outcome of `deposit`.
    pub open spec fn deposit_result(self, user: u64, amount: int, now: u64) -> Result<PoolView, Error> {
        let p = self.accrued(now);
        let pos = p.position(user);
        if amount <= 0 {
            Err(Error::NegativeAmount)
        } else if !self.accrues_at(now) {
            Err(Error::ArithmeticOverflow)
        } else if !fits(p.total_balance + amount) || !fits(p.total_shares + amount) || !fits(
            pos.receivable_shares + amount,
        ) {
            Err(Error::ArithmeticOverflow)
        } else {
            Ok(
                PoolView {
                    total_balance: (p.total_balance + amount) as i128,
                    available_balance: (p.available_balance + amount) as i128,
                    total_shares: (p.total_shares + amount) as i128,
                    positions: p.positions.insert(
                        user,
                        Positions {
                            receivable_shares: (pos.receivable_shares + amount) as i128,
                            ..pos
                        },
                    ),
                    transfers: p.transfers.push(p.transfer(user, p.address, amount)),
                    ..p
                },
            )
        }
    }

    /// Outcome of `deposit_collateral`.
    pub open spec fn deposit_collateral_result(self, user: u64, amount: int, now: u64) -> Result<
        PoolView,
        Error,
    > {
        let p = self.accrued(now);
        let pos = p.position(user);
        if amount <= 0 {
            Err(Error::NegativeAmount)
        } else if !self.accrues_at(now) {
            Err(Error::ArithmeticOverflow)
        } else if !fits(pos.collateral + amount) {
            Err(Error::ArithmeticOverflow)
        } else {
            Ok(
                PoolView {
                    positions: p.positions.insert(
                        user,
                        Positions { collateral: (pos.collateral + amount) as i128, ..pos },
                    ),
                    transfers: p.transfers.push(p.transfer(user, p.address, amount)),
                    ..p
                },
            )
        }
    }

    /// Outcome of `borrow`.
    pub open spec fn borrow_result(self, caller: u64, user: u64, amount: int, now: u64) -> Result<
        PoolView,
        Error,
    > {
        let p = self.accrued(now);
        let pos = p.position(user);
        if caller != self.loan_manager {
            Err(Error::NotAuthorized)
        } else if amount <= 0 {
            Err(Error::NegativeAmount)
        } else if !self.accrues_at(now) {
            Err(Error::ArithmeticOverflow)
        } else if amount >= p.available_balance {
            Err(Error::InsufficientLiquidity)
        } else if !fits(pos.liabilities + amount) {
            Err(Error::ArithmeticOverflow)
        } else {
            Ok(
                PoolView {
                    available_balance: (p.available_balance - amount) as i128,
                    positions: p.positions.insert(
                        user,
                        Positions { liabilities: (pos.liabilities + amount) as i128, ..pos },
                    ),
                    transfers: p.transfers.push(p.transfer(p.address, user, amount)),
                    ..p
                },
            )
        }
    }

    /// Outcome of `withdraw`: `amount` tokens leave, and the shares burned are
    /// `amount` in proportion of shares to tokens, truncated.
    pub open spec fn withdraw_result(self, user: u64, amount: int, now: u64) -> Result<PoolView, Error> {
        let p = self.accrued(now);
        let pos = p.position(user);
        let burn = shares_for(amount, p.total_shares as int, p.total_balance as int);
        if amount <= 0 {
            Err(Error::NegativeAmount)
        } else if !self.accrues_at(now) {
            Err(Error::ArithmeticOverflow)
        } else if amount > pos.receivable_shares {
            Err(Error::InsufficientShares)
        } else if amount > p.available_balance {
            Err(Error::InsufficientLiquidity)
        } else if !fits(amount * p.total_shares) {
            Err(Error::ArithmeticOverflow)
        } else if burn > pos.receivable_shares {
            Err(Error::InsufficientPositions)
        } else {
            Ok(
                PoolView {
                    total_balance: (p.total_balance - amount) as i128,
                    available_balance: (p.available_balance - amount) as i128,
                    total_shares: (p.total_shares - burn) as i128,
                    positions: p.positions.insert(
                        user,
                        Positions { receivable_shares: (pos.receivable_shares - burn) as i128, ..pos },
                    ),
                    transfers: p.transfers.push(p.transfer(p.address, user, amount)),
                    ..p
                },
            )
        }
    }

    /// Outcome of `withdraw_collateral`.
    pub open spec fn withdraw_collateral_result(
        self,
        caller: u64,
        user: u64,
        amount: int,
        now: u64,
    ) -> Result<PoolView, Error> {
        let p = self.accrued(now);
        let pos = p.position(user);
        if caller != self.loan_manager {
            Err(Error::NotAuthorized)
        } else if amount <= 0 {
            Err(Error::NegativeAmount)
        } else if !self.accrues_at(now) {
            Err(Error::ArithmeticOverflow)
        } else if pos.collateral < amount {
            Err(Error::InsufficientPositions)
        } else {
            Ok(
                PoolView {
                    positions: p.positions.insert(
                        user,
                        Positions { collateral: (pos.collateral - amount) as i128, ..pos },
                    ),
                    transfers: p.transfers.push(p.transfer(p.address, user, amount)),
                    ..p
                },
            )
        }
    }

    /// Outcome of a payment of `amount` by `payer` against the debt of
    /// `debtor`, of which `unpaid` is interest (`repay` and `liquidate`). A
    /// payment of zero is accepted and moves nothing. The fee goes to the loan
    /// manager and everything else is credited to the pool: the available
    /// balance grows by `amount - fee`. The total balance already counts the
    /// lent-out principal, so what is new to it is the interest settled, net of
    /// the fee, and any principal paid back beyond what the pool has lent out;
    /// this keeps the available balance within the total.
    pub open spec fn settle_result(
        self,
        caller: u64,
        payer: u64,
        debtor: u64,
        amount: int,
        unpaid: int,
        now: u64,
    ) -> Result<PoolView, Error> {
        let p = self.accrued(now);
        let pos = p.position(debtor);
        let paid = interest_part(amount, unpaid);
        let fee = fee_on(amount, unpaid);
        if caller != self.loan_manager {
            Err(Error::NotAuthorized)
        } else if amount < 0 || unpaid < 0 {
            Err(Error::NegativeAmount)
        } else if !self.accrues_at(now) {
            Err(Error::ArithmeticOverflow)
        } else if !fits(p.total_balance + paid - fee + beyond_lent(amount - paid, p.lent())) {
            Err(Error::ArithmeticOverflow)
        } else if pos.liabilities < amount {
            Err(Error::InsufficientPositions)
        } else {
            Ok(
                PoolView {
                    total_balance: (p.total_balance + paid - fee + beyond_lent(
                        amount - paid,
                        p.lent(),
                    )) as i128,
                    available_balance: (p.available_balance + amount - fee) as i128,
                    positions: p.positions.insert(
                        debtor,
                        Positions { liabilities: (pos.liabilities - amount) as i128, ..pos },
                    ),
                    transfers: p.transfers.push(p.transfer(payer, p.address, amount - fee)).push(
                        p.transfer(payer, p.loan_manager, fee),
                    ),
                    ..p
                },
            )
        }
    }

    /// Outcome of `repay_and_close`: the whole debt `borrowed` is settled out
    /// of `max_allowed` tokens from `user`, the change goes back to them, and
    /// their liabilities are cleared. The fee is a tenth of
    /// `min(borrowed, unpaid)`. Closing settles all of the unpaid interest, so
    /// the total balance grows by `unpaid` net of the fee, plus any principal
    /// (`borrowed - unpaid`) beyond what the pool has lent out.
    pub open spec fn repay_and_close_result(
        self,
        caller: u64,
        user: u64,
        borrowed: int,
        max_allowed: int,
        unpaid: int,
        now: u64,
    ) -> Result<PoolView, Error> {
        let p = self.accrued(now);
        let pos = p.position(user);
        let paid = interest_part(borrowed, unpaid);
        let fee = fee_on(borrowed, unpaid);
        if caller != self.loan_manager {
            Err(Error::NotAuthorized)
        } else if borrowed < 0 || unpaid < 0 {
            Err(Error::NegativeAmount)
        } else if borrowed > max_allowed {
            Err(Error::SlippageExceeded)
        } else if !self.accrues_at(now) {
            Err(Error::ArithmeticOverflow)
        } else if !fits(p.total_balance + unpaid - fee + beyond_lent(borrowed - unpaid, p.lent())) {
            Err(Error::ArithmeticOverflow)
        } else {
            Ok(
                PoolView {
                    total_balance: (p.total_balance + unpaid - fee + beyond_lent(
                        borrowed - unpaid,
                        p.lent(),
                    )) as i128,
                    available_balance: (p.available_balance + borrowed - fee) as i128,
                    positions: p.positions.insert(user, Positions { liabilities: 0, ..pos }),
                    transfers: p.transfers.push(p.transfer(user, p.address, max_allowed)).push(
                        p.transfer(p.address, p.loan_manager, fee),
                    ).push(p.transfer(p.address, user, max_allowed - borrowed)),
                    ..p
                },
            )
        }
    }

    /// Outcome of `liquidate_transfer_collateral`: `amount` of the collateral
    /// of `owner` goes to `liquidator`.
    pub open spec fn transfer_collateral_result(
        self,
        caller: u64,
        liquidator: u64,
        amount: int,
        owner: u64,
    ) -> Result<PoolView, Error> {
        let pos = self.position(owner);
        if caller != self.loan_manager {
            Err(Error::NotAuthorized)
        } else if amount < 0 {
            Err(Error::NegativeAmount)
        } else if pos.collateral < amount {
            Err(Error::InsufficientPositions)
        } else {
            Ok(
                PoolView {
                    positions: self.positions.insert(
                        owner,
                        Positions { collateral: (pos.collateral - amount) as i128, ..pos },
                    ),
                    transfers: self.transfers.push(self.transfer(self.address, liquidator, amount)),
                    ..self
                },
            )
        }
    }

    /// Outcome of `increase_liabilities`.
    pub open spec fn increase_liabilities_result(self, caller: u64, user: u64, amount: int) -> Result<
        PoolView,
        Error,
    > {
        let pos = self.position(user);
        if caller != self.loan_manager {
            Err(Error::NotAuthorized)
        } else if amount < 0 {
            Err(Error::NegativeAmount)
        } else if !fits(pos.liabilities + amount) {
            Err(Error::ArithmeticOverflow)
        } else {
            Ok(
                PoolView {
                    positions: self.positions.insert(
                        user,
                        Positions { liabilities: (pos.liabilities + amount) as i128, ..pos },
                    ),
                    ..self
                },
            )
        }
    }
}

/// A liquidity pool of one asset.
pub struct LoanPool {
    address: u64,
    loan_manager: u64,
    currency: Currency,
    liquidation_threshold: i128,
    total_shares: i128,
    total_balance: i128,
    available_balance: i128,
    accrual: i128,
    accrual_last_updated: u64,
    positions: HashMap<u64, Positions>,
    transfers: Vec<Transfer>,
}

impl View for LoanPool {
    type V = PoolView;

    closed spec fn view(&self) -> PoolView {
        PoolView {
            address: self.address,
            loan_manager: self.loan_manager,
            token: self.currency.token_address,
            ticker: self.currency.ticker@,
            liquidation_threshold: self.liquidation_threshold,
            total_shares: self.total_shares,
            total_balance: self.total_balance,
            available_balance: self.available_balance,
            accrual: self.accrual,
            accrual_last_updated: self.accrual_last_updated,
            positions: self.positions@,
            transfers: self.transfers@,
        }
    }
}

/// Copies a list of transfers.
fn copy_transfers(v: &Vec<Transfer>) -> (r: Vec<Transfer>)
    ensures
        r@ == v@,
{
    let mut r: Vec<Transfer> = Vec::new();
    let mut i: usize = 0;
    while i < v.len()
        invariant
            i <= v.len(),
            r@ == v@.subrange(0, i as int),
        decreases v.len() - i,
    {
        r.push(v[i]);
        i = i + 1;
    }
    assert(r@ =~= v@);
    r
}

impl LoanPool {
    /// A new empty pool at `address`, managed by `loan_manager`, holding
    /// `currency`, with its index at 1.0 as of `now`.
    pub fn initialize(
        address: u64,
        loan_manager: u64,
        currency: Currency,
        liquidation_threshold: i128,
        now: u64,
    ) -> (pool: LoanPool)
        ensures
            pool@ == (PoolView {
                address,
                loan_manager,
                token: currency.token_address,
                ticker: currency.ticker@,
                liquidation_threshold,
                total_shares: 0,
                total_balance: 0,
                available_balance: 0,
                accrual: SCALE,
                accrual_last_updated: now,
                positions: Map::empty(),
                transfers: Seq::empty(),
            }),
            pool@.wf(),
    {
        LoanPool {
            address,
            loan_manager,
            currency,
            liquidation_threshold,
            total_shares: 0,
            total_balance: 0,
            available_balance: 0,
            accrual: SCALE,
            accrual_last_updated: now,
            positions: HashMap::new(),
            transfers: Vec::new(),
        }
    }

    /// An independent copy of the pool.
    pub fn snapshot(&self) -> (r: LoanPool)
        ensures
            r@ == self@,
    {
        LoanPool {
            address: self.address,
            loan_manager: self.loan_manager,
            currency: Currency {
                token_address: self.currency.token_address,
                ticker: self.currency.ticker.clone(),
            },
            liquidation_threshold: self.liquidation_threshold,
            total_shares: self.total_shares,
            total_balance: self.total_balance,
            available_balance: self.available_balance,
            accrual: self.accrual,
            accrual_last_updated: self.accrual_last_updated,
            positions: self.positions.clone(),
            transfers: copy_transfers(&self.transfers),
        }
    }

    /// The index the pool would have at `now`, without changing the pool.
    pub fn accrual_at(&self, now: u64) -> (r: Result<i128, Error>)
        requires
            self@.wf(),
        ensures
            match r {
                Ok(index) => self@.accrues_at(now) && index == self@.accrued(now).accrual,
                Err(e) => !self@.accrues_at(now) && e == Error::ArithmeticOverflow,
            },
    {
        let elapsed = match now.checked_sub(self.accrual_last_updated) {
            Some(e) => e,
            None => return Err(Error::ArithmeticOverflow),
        };
        let fraction = div_nonneg((elapsed as i128) * SCALE, SECONDS_IN_YEAR as i128);
        let rate = match get_interest(self.total_balance, self.available_balance) {
            Ok(rate) => rate,
            Err(e) => return Err(e),
        };
        proof {
            lemma_mul_nonneg(self.accrual as int, rate as int);
        }
        let yearly = match self.accrual.checked_mul(rate) {
            Some(x) => div_nonneg(x, SCALE),
            None => return Err(Error::ArithmeticOverflow),
        };
        proof {
            lemma_mul_nonneg(yearly as int, fraction as int);
        }
        let growth = match yearly.checked_mul(fraction) {
            Some(x) => div_nonneg(x, SCALE),
            None => return Err(Error::ArithmeticOverflow),
        };
        match self.accrual.checked_add(growth) {
            Some(index) => Ok(index),
            None => Err(Error::ArithmeticOverflow),
        }
    }

    /// Brings the accrual index forward to `now`. Calling it again at the
    /// same time changes nothing.
    pub fn add_interest_to_accrual(&mut self, now: u64) -> (r: Result<(), Error>)
        requires
            old(self)@.wf(),
        ensures
            final(self)@.wf(),
            final(self)@.accrual >= old(self)@.accrual,
            if old(self)@.accrues_at(now) {
                r is Ok && final(self)@ == old(self)@.accrued(now)
            } else {
                r == Err::<(), Error>(Error::ArithmeticOverflow) && final(self)@ == old(self)@
            },
    {
        proof {
            lemma_accrual_monotone(self@, now);
        }
        match self.accrual_at(now) {
            Ok(index) => {
                self.accrual = index;
                self.accrual_last_updated = now;
                Ok(())
            },
            Err(e) => Err(e),
        }
    }

    /// Deposits `amount` tokens from `user`, minting as many shares to them.
    /// Returns the amount deposited.
    pub fn deposit(&mut self, user: u64, amount: i128, now: u64) -> (r: Result<i128, Error>)
        requires
            old(self)@.wf(),
        ensures
            final(self)@.wf(),
            final(self)@.accrual >= old(self)@.accrual,
            match old(self)@.deposit_result(user, amount as int, now) {
                Ok(v) => r == Ok::<i128, Error>(amount) && final(self)@ == v,
                Err(e) => r == Err::<i128, Error>(e) && final(self)@ == old(self)@,
            },
    {
        proof {
            lemma_accrual_monotone(self@, now);
        }
        if amount <= 0 {
            return Err(Error::NegativeAmount);
        }
        let index = match self.accrual_at(now) {
            Ok(index) => index,
            Err(e) => return Err(e),
        };
        let total = match self.total_balance.checked_add(amount) {
            Some(v) => v,
            None => return Err(Error::ArithmeticOverflow),
        };
        let shares = match self.total_shares.checked_add(amount) {
            Some(v) => v,
            None => return Err(Error::ArithmeticOverflow),
        };
        match increase_positions(&mut self.positions, user, amount, 0, 0) {
            Ok(()) => {},
            Err(e) => return Err(e),
        }
        self.accrual = index;
        self.accrual_last_updated = now;
        self.total_balance = total;
        self.available_balance = self.available_balance + amount;
        self.total_shares = shares;
        self.transfers.push(
            Transfer {
                token: self.currency.token_address,
                from: user,
                to: self.address,
                amount,
            },
        );
        Ok(amount)
    }

    /// Deposits `amount` tokens from `user` as collateral. Returns the amount.
    pub fn deposit_collateral(&mut self, user: u64, amount: i128, now: u64) -> (r: Result<
        i128,
        Error,
    >)
        requires
            old(self)@.wf(),
        ensures
            final(self)@.wf(),
            final(self)@.accrual >= old(self)@.accrual,
            match old(self)@.deposit_collateral_result(user, amount as int, now) {
                Ok(v) => r == Ok::<i128, Error>(amount) && final(self)@ == v,
                Err(e) => r == Err::<i128, Error>(e) && final(self)@ == old(self)@,
            },
    {
        proof {
            lemma_accrual_monotone(self@, now);
        }
        if amount <= 0 {
            return Err(Error::NegativeAmount);
        }
        let index = match self.accrual_at(now) {
            Ok(index) => index,
            Err(e) => return Err(e),
        };
        match increase_positions(&mut self.positions, user, 0, 0, amount) {
            Ok(()) => {},
            Err(e) => return Err(e),
        }
        self.accrual = index;
        self.accrual_last_updated = now;
        self.transfers.push(
            Transfer {
                token: self.currency.token_address,
                from: user,
                to: self.address,
                amount,
            },
        );
        Ok(amount)
    }

    /// Lends `amount` tokens to `user`. Only the loan manager may call it, and
    /// the pool must keep some liquidity: `amount` stays below the available
    /// balance. Returns the amount lent.
    pub fn borrow(&mut self, caller: u64, user: u64, amount: i128, now: u64) -> (r: Result<
        i128,
        Error,
    >)
        requires
            old(self)@.wf(),
        ensures
            final(self)@.wf(),
            final(self)@.accrual >= old(self)@.accrual,
            match old(self)@.borrow_result(caller, user, amount as int, now) {
                Ok(v) => r == Ok::<i128, Error>(amount) && final(self)@ == v,
                Err(e) => r == Err::<i128, Error>(e) && final(self)@ == old(self)@,
            },
    {
        proof {
            lemma_accrual_monotone(self@, now);
        }
        if caller != self.loan_manager {
            return Err(Error::NotAuthorized);
        }
        if amount <= 0 {
            return Err(Error::NegativeAmount);
        }
        let index = match self.accrual_at(now) {
            Ok(index) => index,
            Err(e) => return Err(e),
        };
        if amount >= self.available_balance {
            return Err(Error::InsufficientLiquidity);
        }
        match increase_positions(&mut self.positions, user, 0, amount, 0) {
            Ok(()) => {},
            Err(e) => return Err(e),
        }
        self.accrual = index;
        self.accrual_last_updated = now;
        self.available_balance = self.available_balance - amount;
        self.transfers.push(
            Transfer {
                token: self.currency.token_address,
                from: self.address,
                to: user,
                amount,
            },
        );
        Ok(amount)
    }

    /// Withdraws `amount` tokens to `user`, burning their shares in proportion
    /// of shares to tokens (truncated, so rounding favours the pool). Returns
    /// the pool's balances and rate afterwards.
    pub fn withdraw(&mut self, user: u64, amount: i128, now: u64) -> (r: Result<PoolState, Error>)
        requires
            old(self)@.wf(),
        ensures
            final(self)@.wf(),
            final(self)@.accrual >= old(self)@.accrual,
            match old(self)@.withdraw_result(user, amount as int, now) {
                Ok(v) => r == Ok::<PoolState, Error>(v.state()) && final(self)@ == v,
                Err(e) => r == Err::<PoolState, Error>(e) && final(self)@ == old(self)@,
            },
    {
        proof {
            lemma_accrual_monotone(self@, now);
        }
        if amount <= 0 {
            return Err(Error::NegativeAmount);
        }
        let index = match self.accrual_at(now) {
            Ok(index) => index,
            Err(e) => return Err(e),
        };
        let pos = read_positions(&self.positions, user);
        if amount > pos.receivable_shares {
            return Err(Error::InsufficientShares);
        }
        if amount > self.available_balance {
            return Err(Error::InsufficientLiquidity);
        }
        proof {
            lemma_mul_nonneg(amount as int, self.total_shares as int);
        }
        let burn = match amount.checked_mul(self.total_shares) {
            Some(x) => div_nonneg(x, self.total_balance),
            None => return Err(Error::ArithmeticOverflow),
        };
        proof {
            lemma_shares_bound(amount as int, self.total_shares as int, self.total_balance as int);
        }
        match decrease_positions(&mut self.positions, user, burn, 0, 0) {
            Ok(()) => {},
            Err(e) => return Err(e),
        }
        self.accrual = index;
        self.accrual_last_updated = now;
        self.total_balance = self.total_balance - amount;
        self.available_balance = self.available_balance - amount;
        self.total_shares = self.total_shares - burn;
        self.transfers.push(
            Transfer {
                token: self.currency.token_address,
                from: self.address,
                to: user,
                amount,
            },
        );
        let rate = match get_interest(self.total_balance, self.available_balance) {
            Ok(rate) => rate,
            Err(e) => return Err(e),
        };
        Ok(
            PoolState {
                total_balance_tokens: self.total_balance,
                available_balance_tokens: self.available_balance,
                total_balance_shares: self.total_shares,
                annual_interest_rate: rate,
            },
        )
    }

    /// Returns `amount` of the collateral of `user` to them. Only the loan
    /// manager may release collateral.
    pub fn withdraw_collateral(&mut self, caller: u64, user: u64, amount: i128, now: u64) -> (r:
        Result<i128, Error>)
        requires
            old(self)@.wf(),
        ensures
            final(self)@.wf(),
            final(self)@.accrual >= old(self)@.accrual,
            match old(self)@.withdraw_collateral_result(caller, user, amount as int, now) {
                Ok(v) => r == Ok::<i128, Error>(amount) && final(self)@ == v,
                Err(e) => r == Err::<i128, Error>(e) && final(self)@ == old(self)@,
            },
    {
        proof {
            lemma_accrual_monotone(self@, now);
        }
        if caller != self.loan_manager {
            return Err(Error::NotAuthorized);
        }
        if amount <= 0 {
            return Err(Error::NegativeAmount);
        }
        let index = match self.accrual_at(now) {
            Ok(index) => index,
            Err(e) => return Err(e),
        };
        match decrease_positions(&mut self.positions, user, 0, 0, amount) {
            Ok(()) => {},
            Err(e) => return Err(e),
        }
        self.accrual = index;
        self.accrual_last_updated = now;
        self.transfers.push(
            Transfer {
                token: self.currency.token_address,
                from: self.address,
                to: user,
                amount,
            },
        );
        Ok(amount)
    }

    /// Payment of `amount` by `payer` against the debt of `debtor`.
    fn settle(
        &mut self,
        caller: u64,
        payer: u64,
        debtor: u64,
        amount: i128,
        unpaid_interest: i128,
        now: u64,
    ) -> (r: Result<(), Error>)
        requires
            old(self)@.wf(),
        ensures
            final(self)@.wf(),
            final(self)@.accrual >= old(self)@.accrual,
            match old(self)@.settle_result(
                caller,
                payer,
                debtor,
                amount as int,
                unpaid_interest as int,
                now,
            ) {
                Ok(v) => r is Ok && final(self)@ == v,
                Err(e) => r == Err::<(), Error>(e) && final(self)@ == old(self)@,
            },
    {
        proof {
            lemma_accrual_monotone(self@, now);
        }
        if caller != self.loan_manager {
            return Err(Error::NotAuthorized);
        }
        if amount < 0 || unpaid_interest < 0 {
            return Err(Error::NegativeAmount);
        }
        let index = match self.accrual_at(now) {
            Ok(index) => index,
            Err(e) => return Err(e),
        };
        let paid = if amount < unpaid_interest {
            amount
        } else {
            unpaid_interest
        };
        let fee = div_nonneg(paid, 10);
        let principal = amount - paid;
        let lent = self.total_balance - self.available_balance;
        let beyond = if principal > lent {
            principal - lent
        } else {
            0
        };
        let total = match self.total_balance.checked_add(paid - fee) {
            Some(v) => match v.checked_add(beyond) {
                Some(t) => t,
                None => return Err(Error::ArithmeticOverflow),
            },
            None => return Err(Error::ArithmeticOverflow),
        };
        match decrease_positions(&mut self.positions, debtor, 0, amount, 0) {
            Ok(()) => {},
            Err(e) => return Err(e),
        }
        self.accrual = index;
        self.accrual_last_updated = now;
        self.total_balance = total;
        self.available_balance = self.available_balance + (amount - fee);
        self.transfers.push(
            Transfer {
                token: self.currency.token_address,
                from: payer,
                to: self.address,
                amount: amount - fee,
            },
        );
        self.transfers.push(
            Transfer {
                token: self.currency.token_address,
                from: payer,
                to: self.loan_manager,
                amount: fee,
            },
        );
        Ok(())
    }

    /// Repayment of `amount` by `user`, of whose debt `unpaid_interest` is
    /// interest. A tenth of the interest part goes to the loan manager as a fee.
    /// Only the loan manager may call it.
    pub fn repay(
        &mut self,
        caller: u64,
        user: u64,
        amount: i128,
        unpaid_interest: i128,
        now: u64,
    ) -> (r: Result<(), Error>)
        requires
            old(self)@.wf(),
        ensures
            final(self)@.wf(),
            final(self)@.accrual >= old(self)@.accrual,
            match old(self)@.settle_result(
                caller,
                user,
                user,
                amount as int,
                unpaid_interest as int,
                now,
            ) {
                Ok(v) => r is Ok && final(self)@ == v,
                Err(e) => r == Err::<(), Error>(e) && final(self)@ == old(self)@,
            },
    {
        self.settle(caller, user, user, amount, unpaid_interest, now)
    }

    /// Repayment of `amount` of the debt of `loan_owner` by the liquidator
    /// `user`, with the same fee split as `repay`. Only the loan manager may
    /// call it.
    pub fn liquidate(
        &mut self,
        caller: u64,
        user: u64,
        amount: i128,
        unpaid_interest: i128,
        loan_owner: u64,
        now: u64,
    ) -> (r: Result<(), Error>)
        requires
            old(self)@.wf(),
        ensures
            final(self)@.wf(),
            final(self)@.accrual >= old(self)@.accrual,
            match old(self)@.settle_result(
                caller,
                user,
                loan_owner,
                amount as int,
                unpaid_interest as int,
                now,
            ) {
                Ok(v) => r is Ok && final(self)@ == v,
                Err(e) => r == Err::<(), Error>(e) && final(self)@ == old(self)@,
            },
    {
        self.settle(caller, user, loan_owner, amount, unpaid_interest, now)
    }

    /// Settles the whole debt `borrowed_amount` of `user` out of
    /// `max_allowed_amount` tokens they send, returns the change, and clears
    /// their liabilities. Only the loan manager may call it.
    pub fn repay_and_close(
        &mut self,
        caller: u64,
        user: u64,
        borrowed_amount: i128,
        max_allowed_amount: i128,
        unpaid_interest: i128,
        now: u64,
    ) -> (r: Result<(), Error>)
        requires
            old(self)@.wf(),
        ensures
            final(self)@.wf(),
            final(self)@.accrual >= old(self)@.accrual,
            match old(self)@.repay_and_close_result(
                caller,
                user,
                borrowed_amount as int,
                max_allowed_amount as int,
                unpaid_interest as int,
                now,
            ) {
                Ok(v) => r is Ok && final(self)@ == v,
                Err(e) => r == Err::<(), Error>(e) && final(self)@ == old(self)@,
            },
    {
        proof {
            lemma_accrual_monotone(self@, now);
        }
        if caller != self.loan_manager {
            return Err(Error::NotAuthorized);
        }
        if borrowed_amount < 0 || unpaid_interest < 0 {
            return Err(Error::NegativeAmount);
        }
        if borrowed_amount > max_allowed_amount {
            return Err(Error::SlippageExceeded);
        }
        let index = match self.accrual_at(now) {
            Ok(index) => index,
            Err(e) => return Err(e),
        };
        let paid = if borrowed_amount < unpaid_interest {
            borrowed_amount
        } else {
            unpaid_interest
        };
        let fee = div_nonneg(paid, 10);
        let principal = borrowed_amount - unpaid_interest;
        let lent = self.total_balance - self.available_balance;
        let beyond = if principal > lent {
            principal - lent
        } else {
            0
        };
        let total = match self.total_balance.checked_add(unpaid_interest - fee) {
            Some(v) => match v.checked_add(beyond) {
                Some(t) => t,
                None => return Err(Error::ArithmeticOverflow),
            },
            None => return Err(Error::ArithmeticOverflow),
        };
        let liabilities = read_positions(&self.positions, user).liabilities;
        match decrease_positions(&mut self.positions, user, 0, liabilities, 0) {
            Ok(()) => {},
            Err(e) => return Err(e),
        }
        self.accrual = index;
        self.accrual_last_updated = now;
        self.total_balance = total;
        self.available_balance = self.available_balance + (borrowed_amount - fee);
        self.transfers.push(
            Transfer {
                token: self.currency.token_address,
                from: user,
                to: self.address,
                amount: max_allowed_amount,
            },
        );
        self.transfers.push(
            Transfer {
                token: self.currency.token_address,
                from: self.address,
                to: self.loan_manager,
                amount: fee,
            },
        );
        self.transfers.push(
            Transfer {
                token: self.currency.token_address,
                from: self.address,
                to: user,
                amount: max_allowed_amount - borrowed_amount,
            },
        );
        Ok(())
    }

    /// Hands `amount_collateral` of the collateral of `loan_owner` to the
    /// liquidator `user`. Only the loan manager may call it.
    pub fn liquidate_transfer_collateral(
        &mut self,
        caller: u64,
        user: u64,
        amount_collateral: i128,
        loan_owner: u64,
    ) -> (r: Result<(), Error>)
        requires
            old(self)@.wf(),
        ensures
            final(self)@.wf(),
            final(self)@.accrual == old(self)@.accrual,
            match old(self)@.transfer_collateral_result(
                caller,
                user,
                amount_collateral as int,
                loan_owner,
            ) {
                Ok(v) => r is Ok && final(self)@ == v,
                Err(e) => r == Err::<(), Error>(e) && final(self)@ == old(self)@,
            },
    {
        if caller != self.loan_manager {
            return Err(Error::NotAuthorized);
        }
        if amount_collateral < 0 {
            return Err(Error::NegativeAmount);
        }
        match decrease_positions(&mut self.positions, loan_owner, 0, 0, amount_collateral) {
            Ok(()) => {},
            Err(e) => return Err(e),
        }
        self.transfers.push(
            Transfer {
                token: self.currency.token_address,
                from: self.address,
                to: user,
                amount: amount_collateral,
            },
        );
        Ok(())
    }

    /// Adds `amount` to the liabilities of `user`. Only the loan manager may
    /// call it.
    pub fn increase_liabilities(&mut self, caller: u64, user: u64, amount: i128) -> (r: Result<
        (),
        Error,
    >)
        requires
            old(self)@.wf(),
        ensures
            final(self)@.wf(),
            final(self)@.accrual == old(self)@.accrual,
            match old(self)@.increase_liabilities_result(caller, user, amount as int) {
                Ok(v) => r is Ok && final(self)@ == v,
                Err(e) => r == Err::<(), Error>(e) && final(self)@ == old(self)@,
            },
    {
        if caller != self.loan_manager {
            return Err(Error::NotAuthorized);
        }
        if amount < 0 {
            return Err(Error::NegativeAmount);
        }
        increase_positions(&mut self.positions, user, 0, amount, 0)
    }

    /// The accrual index.
    pub fn get_accrual(&self) -> (r: i128)
        ensures
            r == self@.accrual,
    {
        self.accrual
    }

    /// When the accrual index was last brought forward.
    pub fn get_accrual_last_updated(&self) -> (r: u64)
        ensures
            r == self@.accrual_last_updated,
    {
        self.accrual_last_updated
    }

    /// The position of `user`.
    pub fn get_user_positions(&self, user: u64) -> (r: Positions)
        ensures
            r == self@.position(user),
    {
        read_positions(&self.positions, user)
    }

    /// All tokens the pool accounts for, lent out or not.
    pub fn get_contract_balance(&self) -> (r: i128)
        ensures
            r == self@.total_balance,
    {
        self.total_balance
    }

    /// Shares in circulation.
    pub fn get_total_balance_shares(&self) -> (r: i128)
        ensures
            r == self@.total_shares,
    {
        self.total_shares
    }

    /// Tokens not lent out.
    pub fn get_available_balance(&self) -> (r: i128)
        ensures
            r == self@.available_balance,
    {
        self.available_balance
    }

    /// The pool's asset.
    pub fn get_currency(&self) -> (r: &Currency)
        ensures
            r.token_address == self@.token,
            r.ticker@ == self@.ticker,
    {
        &self.currency
    }

    /// The liquidation threshold the pool was initialized with.
    pub fn get_liquidation_threshold(&self) -> (r: i128)
        ensures
            r == self@.liquidation_threshold,
    {
        self.liquidation_threshold
    }

    /// The pool's own account.
    pub fn get_address(&self) -> (r: u64)
        ensures
            r == self@.address,
    {
        self.address
    }

    /// The only caller allowed to borrow, repay, liquidate and release
    /// collateral.
    pub fn get_loan_manager(&self) -> (r: u64)
        ensures
            r == self@.loan_manager,
    {
        self.loan_manager
    }

    /// The current annual interest rate.
    pub fn get_interest(&self) -> (r: Result<i128, Error>)
        requires
            self@.wf(),
        ensures
            match r {
                Ok(rate) => annual_rate_defined(
                    self@.total_balance as int,
                    self@.available_balance as int,
                ) && rate == self@.rate(),
                Err(e) => !annual_rate_defined(
                    self@.total_balance as int,
                    self@.available_balance as int,
                ) && e == Error::ArithmeticOverflow,
            },
    {
        get_interest(self.total_balance, self.available_balance)
    }

    /// Balances and current annual rate.
    pub fn get_pool_state(&self) -> (r: Result<PoolState, Error>)
        requires
            self@.wf(),
        ensures
            match r {
                Ok(state) => annual_rate_defined(
                    self@.total_balance as int,
                    self@.available_balance as int,
                ) && state == self@.state(),
                Err(e) => !annual_rate_defined(
                    self@.total_balance as int,
                    self@.available_balance as int,
                ) && e == Error::ArithmeticOverflow,
            },
    {
        let rate = match get_interest(self.total_balance, self.available_balance) {
            Ok(rate) => rate,
            Err(e) => return Err(e),
        };
        Ok(
            PoolState {
                total_balance_tokens: self.total_balance,
                available_balance_tokens: self.available_balance,
                total_balance_shares: self.total_shares,
                annual_interest_rate: rate,
            },
        )
    }

    /// Transfers recorded and not yet handed to the token service.
    pub fn pending_transfers(&self) -> (r: &Vec<Transfer>)
        ensures
            r@ == self@.transfers,
    {
        &self.transfers
    }

    /// Hands over the recorded transfers, emptying the outbox.
    pub fn take_transfers(&mut self) -> (r: Vec<Transfer>)
        ensures
            r@ == old(self)@.transfers,
            final(self)@ == (PoolView { transfers: Seq::empty(), ..old(self)@ }),
    {
        let taken = copy_transfers(&self.transfers);
        self.transfers = Vec::new();
        taken
    }
}

/// Shares burned for at most all tokens are at most all shares.
pub proof fn lemma_shares_bound(amount: int, shares: int, total: int)
    requires
        0 <= amount <= total,
        0 < total,
        0 <= shares,
    ensures
        0 <= shares_for(amount, shares, total) <= shares,
{
    assert(amount * shares <= total * shares) by (nonlinear_arith)
        requires
            0 <= amount <= total,
            0 <= shares,
    ;
    assert(amount * shares / total <= shares) by (nonlinear_arith)
        requires
            amount * shares <= total * shares,
            0 < total,
    ;
    lemma_mul_nonneg(amount, shares);
    lemma_tdiv_nonneg(amount * shares, total);
}

/// Accruing a second time at the same timestamp changes nothing: no time has
/// elapsed, so the index does not grow.
///
/// The second accrual also succeeds after a successful first one, unless the
/// index times the rate no longer fits in `i128`; either way the index stays.
pub proof fn lemma_accrual_idempotent(p: PoolView, now: u64)
    ensures
        p.accrued(now).accrued(now) == p.accrued(now),
        p.accrues_at(now) && fits(p.accrued(now).accrual * p.accrued(now).rate())
            ==> p.accrued(now).accrues_at(now),
{
    let q = p.accrued(now);
    assert(year_fraction(0) == 0);
    assert(yearly_interest(q.accrual as int, q.rate()) * 0 == 0);
}

/// The pool after accrual calls at each of `times` in turn; a call that
/// cannot accrue leaves the pool unchanged.
pub open spec fn accrue_through(p: PoolView, times: Seq<u64>) -> PoolView
    decreases times.len(),
{
    if times.len() == 0 {
        p
    } else {
        let next = if p.accrues_at(times[0]) {
            p.accrued(times[0])
        } else {
            p
        };
        accrue_through(next, times.subrange(1, times.len() as int))
    }
}

/// Over any sequence of accrual calls the pool stays valid and its index
/// never decreases.
pub proof fn lemma_accrual_monotone_through(p: PoolView, times: Seq<u64>)
    requires
        p.wf(),
    ensures
        accrue_through(p, times).wf(),
        accrue_through(p, times).accrual >= p.accrual,
    decreases times.len(),
{
    if times.len() > 0 {
        lemma_accrual_monotone(p, times[0]);
        let next = if p.accrues_at(times[0]) {
            p.accrued(times[0])
        } else {
            p
        };
        lemma_accrual_monotone_through(next, times.subrange(1, times.len() as int));
    }
}

/// A call of one of the pool's mutating operations, with its arguments.
pub enum PoolCall {
    Deposit { user: u64, amount: i128, now: u64 },
    Withdraw { user: u64, amount: i128, now: u64 },
    Borrow { caller: u64, user: u64, amount: i128, now: u64 },
    DepositCollateral { user: u64, amount: i128, now: u64 },
    WithdrawCollateral { caller: u64, user: u64, amount: i128, now: u64 },
    Repay { caller: u64, user: u64, amount: i128, unpaid: i128, now: u64 },
    RepayAndClose {
        caller: u64,
        user: u64,
        borrowed: i128,
        max_allowed: i128,
        unpaid: i128,
        now: u64,
    },
    Liquidate { caller: u64, liquidator: u64, amount: i128, unpaid: i128, owner: u64, now: u64 },
    TransferCollateral { caller: u64, liquidator: u64, amount: i128, owner: u64 },
    IncreaseLiabilities { caller: u64, user: u64, amount: i128 },
    Accrue { now: u64 },
}

/// Outcome of `call` on the pool `p`, as the operation's contract gives it.
pub open spec fn call_result(p: PoolView, call: PoolCall) -> Result<PoolView, Error> {
    match call {
        PoolCall::Deposit { user, amount, now } => p.deposit_result(user, amount as int, now),
        PoolCall::Withdraw { user, amount, now } => p.withdraw_result(user, amount as int, now),
        PoolCall::Borrow { caller, user, amount, now } => p.borrow_result(
            caller,
            user,
            amount as int,
            now,
        ),
        PoolCall::DepositCollateral { user, amount, now } => p.deposit_collateral_result(
            user,
            amount as int,
            now,
        ),
        PoolCall::WithdrawCollateral { caller, user, amount, now } => p.withdraw_collateral_result(
            caller,
            user,
            amount as int,
            now,
        ),
        PoolCall::Repay { caller, user, amount, unpaid, now } => p.settle_result(
            caller,
            user,
            user,
            amount as int,
            unpaid as int,
            now,
        ),
        PoolCall::RepayAndClose {
            caller,
            user,
            borrowed,
            max_allowed,
            unpaid,
            now,
        } => p.repay_and_close_result(
            caller,
            user,
            borrowed as int,
            max_allowed as int,
            unpaid as int,
            now,
        ),
        PoolCall::Liquidate { caller, liquidator, amount, unpaid, owner, now } => p.settle_result(
            caller,
            liquidator,
            owner,
            amount as int,
            unpaid as int,
            now,
        ),
        PoolCall::TransferCollateral {
            caller,
            liquidator,
            amount,
            owner,
        } => p.transfer_collateral_result(caller, liquidator, amount as int, owner),
        PoolCall::IncreaseLiabilities { caller, user, amount } => p.increase_liabilities_result(
            caller,
            user,
            amount as int,
        ),
        PoolCall::Accrue { now } => if p.accrues_at(now) {
            Ok(p.accrued(now))
        } else {
            Err(Error::ArithmeticOverflow)
        },
    }
}

/// The pool after `call`: its outcome on success, the pool unchanged on
/// failure.
pub open spec fn after_call(p: PoolView, call: PoolCall) -> PoolView {
    match call_result(p, call) {
        Ok(v) => v,
        Err(_) => p,
    }
}

/// The pool after `calls`, in order.
pub open spec fn after_calls(p: PoolView, calls: Seq<PoolCall>) -> PoolView
    decreases calls.len(),
{
    if calls.len() == 0 {
        p
    } else {
        after_calls(after_call(p, calls[0]), calls.subrange(1, calls.len() as int))
    }
}

/// Any one call keeps the pool valid and does not lower the accrual index.
pub proof fn lemma_call_keeps_index(p: PoolView, call: PoolCall)
    requires
        p.wf(),
    ensures
        after_call(p, call).wf(),
        after_call(p, call).accrual >= p.accrual,
{
    match call {
        PoolCall::Deposit { user, amount, now } => {
            lemma_accrual_monotone(p, now);
        },
        PoolCall::Withdraw { user, amount, now } => {
            lemma_accrual_monotone(p, now);
            let q = p.accrued(now);
            if call_result(p, call) is Ok {
                lemma_mul_nonneg(amount as int, q.total_shares as int);
                lemma_shares_bound(amount as int, q.total_shares as int, q.total_balance as int);
            }
        },
        PoolCall::Borrow { caller, user, amount, now } => {
            lemma_accrual_monotone(p, now);
        },
        PoolCall::DepositCollateral { user, amount, now } => {
            lemma_accrual_monotone(p, now);
        },
        PoolCall::WithdrawCollateral { caller, user, amount, now } => {
            lemma_accrual_monotone(p, now);
        },
        PoolCall::Repay { caller, user, amount, unpaid, now } => {
            lemma_accrual_monotone(p, now);
        },
        PoolCall::RepayAndClose { caller, user, borrowed, max_allowed, unpaid, now } => {
            lemma_accrual_monotone(p, now);
        },
        PoolCall::Liquidate { caller, liquidator, amount, unpaid, owner, now } => {
            lemma_accrual_monotone(p, now);
        },
        PoolCall::TransferCollateral { caller, liquidator, amount, owner } => {},
        PoolCall::IncreaseLiabilities { caller, user, amount } => {},
        PoolCall::Accrue { now } => {
            lemma_accrual_monotone(p, now);
        },
    }
}

/// Over any sequence of calls to the pool's operations the pool stays valid
/// and its accrual index never decreases: each call leaves it at least where
/// the previous one did.
pub proof fn lemma_calls_keep_index(p: PoolView, calls: Seq<PoolCall>)
    requires
        p.wf(),
    ensures
        after_calls(p, calls).wf(),
        after_calls(p, calls).accrual >= p.accrual,
        forall|i: int, j: int|
            0 <= i <= j <= calls.len() ==> #[trigger] after_calls(p, calls.take(i)).accrual
                <= #[trigger] after_calls(p, calls.take(j)).accrual,
    decreases calls.len(),
{
    if calls.len() > 0 {
        let q = after_call(p, calls[0]);
        let rest = calls.subrange(1, calls.len() as int);
        lemma_call_keeps_index(p, calls[0]);
        lemma_calls_keep_index(q, rest);
        assert forall|i: int, j: int|
            0 <= i <= j <= calls.len() implies #[trigger] after_calls(p, calls.take(i)).accrual
                <= #[trigger] after_calls(p, calls.take(j)).accrual by {
            assert(calls.take(0) =~= Seq::<PoolCall>::empty());
            if i > 0 {
                assert(calls.take(i).subrange(1, i) =~= rest.take(i - 1));
                assert(calls.take(j).subrange(1, j) =~= rest.take(j - 1));
                assert(after_calls(p, calls.take(i)) == after_calls(q, rest.take(i - 1)));
                assert(after_calls(p, calls.take(j)) == after_calls(q, rest.take(j - 1)));
            } else if j > 0 {
                assert(calls.take(j).subrange(1, j) =~= rest.take(j - 1));
                assert(after_calls(p, calls.take(j)) == after_calls(q, rest.take(j - 1)));
                lemma_calls_keep_index(q, rest.take(j - 1));
            }
        }
    }
}

/// Depositing `amount` and then withdrawing `amount` at the same time, while
/// shares and tokens stand one to one, returns the pool's balances, its share
/// supply and the user's receivable shares to what they were. The withdrawal
/// succeeds unless a product it computes leaves `i128`: the index times the
/// rate, or the amount times the share supply.
pub proof fn lemma_deposit_withdraw_round_trip(p: PoolView, user: u64, amount: int, now: u64)
    requires
        p.wf(),
        p.total_shares == p.total_balance,
        p.deposit_result(user, amount, now) is Ok,
        fits(
            p.deposit_result(user, amount, now)->Ok_0.accrual * p.deposit_result(
                user,
                amount,
                now,
            )->Ok_0.rate(),
        ),
        fits(amount * (p.total_shares + amount)),
    ensures
        p.deposit_result(user, amount, now)->Ok_0.withdraw_result(user, amount, now) is Ok,
        ({
            let r = p.deposit_result(user, amount, now)->Ok_0.withdraw_result(
                user,
                amount,
                now,
            )->Ok_0;
            &&& r.total_balance == p.total_balance
            &&& r.available_balance == p.available_balance
            &&& r.total_shares == p.total_shares
            &&& r.position(user).receivable_shares == p.position(user).receivable_shares
        }),
{
    let q = p.deposit_result(user, amount, now)->Ok_0;
    lemma_accrual_idempotent(p, now);
    lemma_accrual_monotone(p, now);
    assert(q.accrued(now) == q);
    assert(q.lent() == p.lent());
    assert(accrual_fits(q.accrual as int, q.rate(), 0)) by {
        assert(year_fraction(0) == 0);
        assert(yearly_interest(q.accrual as int, q.rate()) * 0 == 0);
    }
    assert(q.accrues_at(now));
    assert(p.position(user).is_valid());
    let x = q.total_balance as int;
    assert(amount * x / x == amount) by (nonlinear_arith)
        requires
            x > 0,
    ;
}

/// Bringing the index forward keeps the pool valid and never lowers the
/// index.
pub proof fn lemma_accrual_monotone(p: PoolView, now: u64)
    requires
        p.wf(),
    ensures
        p.accrues_at(now) ==> p.accrued(now).wf() && p.accrued(now).accrual >= p.accrual,
{
    if p.accrues_at(now) {
        let elapsed = now - p.accrual_last_updated;
        let rate = p.rate();
        if p.total_balance > 0 {
            let t = p.total_balance as int;
            let a = p.available_balance as int;
            lemma_mul_nonneg(t - a, 100_000_000);
            assert((t - a) * 100_000_000 <= t * 100_000_000) by (nonlinear_arith)
                requires
                    0 <= t - a <= t,
            ;
            assert((t - a) * 100_000_000 / t <= 100_000_000) by (nonlinear_arith)
                requires
                    (t - a) * 100_000_000 <= t * 100_000_000,
                    t > 0,
            ;
            lemma_tdiv_nonneg((t - a) * 100_000_000, t);
            crate::interest::lemma_rate_bounds((t - a) * 100_000_000 / t);
        }
        assert(rate >= 0);
        lemma_mul_nonneg(p.accrual as int, rate);
        lemma_mul_nonneg(elapsed, SCALE as int);
        let y = yearly_interest(p.accrual as int, rate);
        let f = year_fraction(elapsed);
        lemma_tdiv_nonneg(p.accrual * rate, SCALE as int);
        lemma_tdiv_nonneg(elapsed * SCALE, SECONDS_IN_YEAR as int);
        lemma_mul_nonneg(y, f);
        lemma_tdiv_nonneg(y * f, SCALE as int);
    }
}

} // verus!
