//! Per-user positions in a pool: receivable shares (lender side), liabilities
//! (borrower side) and posted collateral. A user without a record holds zero
//! of each; no operation ever drives a field negative.
use crate::fixed::fits;
use crate::pool::Error;
use std::collections::HashMap;
use vstd::prelude::*;

verus! {

broadcast use vstd::std_specs::hash::group_hash_axioms;

/// One user's balances in one pool.
#[derive(Clone, Copy, Debug, PartialEq, Eq, Structural)]
pub struct Positions {
    pub receivable_shares: i128,
    pub liabilities: i128,
    pub collateral: i128,
}

impl Positions {
    /// The position of a user the pool has never seen.
    pub open spec fn zero() -> Positions {
        Positions { receivable_shares: 0, liabilities: 0, collateral: 0 }
    }

    /// No field is negative.
    pub open spec fn is_valid(self) -> bool {
        self.receivable_shares >= 0 && self.liabilities >= 0 && self.collateral >= 0
    }
}

/// The position recorded for `user`, or the zero position.
pub open spec fn position_of(book: Map<u64, Positions>, user: u64) -> Positions {
    if book.contains_key(user) {
        book[user]
    } else {
        Positions::zero()
    }
}

/// Every recorded position is valid.
pub open spec fn book_is_valid(book: Map<u64, Positions>) -> bool {
    forall|u: u64| #[trigger] book.contains_key(u) ==> book[u].is_valid()
}

/// The position of `user` after adding the three amounts.
pub open spec fn increased(p: Positions, receivables: int, liabilities: int, collateral: int) -> Positions {
    Positions {
        receivable_shares: (p.receivable_shares + receivables) as i128,
        liabilities: (p.liabilities + liabilities) as i128,
        collateral: (p.collateral + collateral) as i128,
    }
}

/// The position of `user` after taking away the three amounts.
pub open spec fn decreased(p: Positions, receivables: int, liabilities: int, collateral: int) -> Positions {
    Positions {
        receivable_shares: (p.receivable_shares - receivables) as i128,
        liabilities: (p.liabilities - liabilities) as i128,
        collateral: (p.collateral - collateral) as i128,
    }
}

/// The three sums can be formed in `i128`.
pub open spec fn can_increase(p: Positions, receivables: int, liabilities: int, collateral: int) -> bool {
    fits(p.receivable_shares + receivables) && fits(p.liabilities + liabilities) && fits(
        p.collateral + collateral,
    )
}

/// Each field covers the amount to take away from it.
pub open spec fn can_decrease(p: Positions, receivables: int, liabilities: int, collateral: int) -> bool {
    p.receivable_shares >= receivables && p.liabilities >= liabilities && p.collateral
        >= collateral
}

/// The position of `user`; a user without a record holds zero of everything.
pub fn read_positions(book: &HashMap<u64, Positions>, user: u64) -> (p: Positions)
    ensures
        p == position_of(book@, user),
{
    match book.get(&user) {
        Some(p) => *p,
        None => Positions { receivable_shares: 0, liabilities: 0, collateral: 0 },
    }
}

/// Adds non-negative amounts to the position of `user`. Fails with
/// `ArithmeticOverflow`, changing nothing, when a sum does not fit.
pub fn increase_positions(
    book: &mut HashMap<u64, Positions>,
    user: u64,
    receivables: i128,
    liabilities: i128,
    collateral: i128,
) -> (r: Result<(), Error>)
    requires
        receivables >= 0,
        liabilities >= 0,
        collateral >= 0,
    ensures
        ({
            let p = position_of(old(book)@, user);
            if can_increase(p, receivables as int, liabilities as int, collateral as int) {
                r is Ok && final(book)@ == old(book)@.insert(
                    user,
                    increased(p, receivables as int, liabilities as int, collateral as int),
                )
            } else {
                r == Err::<(), Error>(Error::ArithmeticOverflow) && final(book)@ == old(book)@
            }
        }),
{
    let p = read_positions(book, user);
    let r = match p.receivable_shares.checked_add(receivables) {
        Some(v) => v,
        None => return Err(Error::ArithmeticOverflow),
    };
    let l = match p.liabilities.checked_add(liabilities) {
        Some(v) => v,
        None => return Err(Error::ArithmeticOverflow),
    };
    let c = match p.collateral.checked_add(collateral) {
        Some(v) => v,
        None => return Err(Error::ArithmeticOverflow),
    };
    book.insert(user, Positions { receivable_shares: r, liabilities: l, collateral: c });
    Ok(())
}

/// Takes non-negative amounts away from the position of `user`. Fails with
/// `InsufficientPositions`, changing nothing, when a field does not cover its
/// amount: a position never becomes negative.
pub fn decrease_positions(
    book: &mut HashMap<u64, Positions>,
    user: u64,
    receivables: i128,
    liabilities: i128,
    collateral: i128,
) -> (r: Result<(), Error>)
    requires
        receivables >= 0,
        liabilities >= 0,
        collateral >= 0,
    ensures
        ({
            let p = position_of(old(book)@, user);
            if can_decrease(p, receivables as int, liabilities as int, collateral as int) {
                r is Ok && final(book)@ == old(book)@.insert(
                    user,
                    decreased(p, receivables as int, liabilities as int, collateral as int),
                )
            } else {
                r == Err::<(), Error>(Error::InsufficientPositions) && final(book)@ == old(book)@
            }
        }),
{
    let p = read_positions(book, user);
    if p.receivable_shares < receivables || p.liabilities < liabilities || p.collateral
        < collateral {
        return Err(Error::InsufficientPositions);
    }
    book.insert(
        user,
        Positions {
            receivable_shares: p.receivable_shares - receivables,
            liabilities: p.liabilities - liabilities,
            collateral: p.collateral - collateral,
        },
    );
    Ok(())
}

} // verus!
