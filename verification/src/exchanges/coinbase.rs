//! Coinbase: candle records from the candles endpoint.

use crate::record::{Exchange, Record};
use vstd::prelude::*;

verus! {

/// The Coinbase exchange.
pub struct CoinbaseExchange;

impl CoinbaseExchange {
    /// Record of a candle given in the endpoint's column order: time, low,
    /// high, open, close, volume.
    pub fn candle_record(candle: (u64, u64, u64, u64, u64, u64)) -> (r: Record)
        ensures
            r == (Record {
                exchange: Exchange::Coinbase,
                date: candle.0,
                low: candle.1,
                high: candle.2,
                open: candle.3,
                close: candle.4,
                volume: candle.5,
            }),
    {
        Record {
            exchange: Exchange::Coinbase,
            date: candle.0,
            open: candle.3,
            close: candle.4,
            high: candle.2,
            low: candle.1,
            volume: candle.5,
        }
    }
}

} // verus!
