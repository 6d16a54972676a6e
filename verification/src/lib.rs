//! A pooled lending ledger.
//!
//! Accounts deposit an asset into a shared pool, other accounts borrow from
//! it, and the interest both sides see follows from how much of the pool is
//! lent out. Every amount is a whole number of asset units; every rate and
//! index is a fixed-point number with nine decimal places; time is counted in
//! accrual periods.
//!
//! The modules, leaf first: [`fixed`] holds the arithmetic, [`rate_model`] the
//! kinked rate curve, [`pool`] the pool record, [`accrual`] the compounding of
//! its interest, [`position`] the per-account record and the four
//! balance-changing transitions, [`pool_ledger`] and [`position_ledger`] the
//! keyed stores, and [`pallet`] the operations that callers dispatch to.

pub mod types;
pub mod fixed;
pub mod rate_model;
pub mod pool;
pub mod accrual;
pub mod position;
pub mod pool_ledger;
pub mod position_ledger;
pub mod pallet;
