//! Prices as the oracle reports them, and a fixed-price oracle for tests and
//! local runs.
use vstd::prelude::*;

verus! {

/// What the oracle prices: a token by its address, or another asset by its
/// ticker.
#[derive(Clone, Debug)]
pub enum Asset {
    Stellar(u64),
    Other(String),
}

/// A price in the oracle's base asset and decimals, with the time it was
/// recorded.
#[derive(Clone, Copy, Debug, PartialEq, Eq, Structural)]
pub struct PriceData {
    pub price: i128,
    pub timestamp: u64,
}

/// An oracle that prices every asset at 1.
pub struct MockPriceOracleContract;

impl MockPriceOracleContract {
    /// The last price of `asset`: always 1, recorded at time 1.
    pub fn lastprice(asset: &Asset) -> (r: Option<PriceData>)
        ensures
            r == Some(PriceData { price: 1, timestamp: 1 }),
    {
        Some(PriceData { price: 1, timestamp: 1 })
    }
}

} // verus!
