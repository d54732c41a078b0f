//! Arbitrage bookkeeping for a crypto trading bot: price tracking across
//! exchanges, fee-aware trade detection, backtesting, candle records,
//! time-range splitting for historical downloads and indicator-driven traders.

pub mod atalanta;
pub mod config;
pub mod exchanges;
pub mod market;
pub mod record;
pub mod talaria;
pub mod traders;
pub mod traits;
pub mod utilities;
