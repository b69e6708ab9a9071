//! Accounting core of a collateralized lending protocol: per-asset liquidity
//! pools with share accounting and a utilization-driven accrual index, per-user
//! positions, and a loan manager that opens, accrues, repays, closes and
//! partially liquidates loans against oracle prices.
//!
//! All state lives in plain values passed explicitly to each operation. The
//! host around the library (storage, authorization, token transfers, the price
//! oracle, the clock) hands in what it read and carries out the token
//! transfers that the ledgers record.
pub mod fixed;
pub mod interest;
pub mod manager;
pub mod oracle;
pub mod pool;
pub mod positions;
