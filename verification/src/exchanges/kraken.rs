//! Kraken: the OHLC request and its candle records.

use crate::record::{Exchange, Record};
use crate::utilities::decimal::{decimal, push_decimal};
use crate::utilities::time_range::timestamp_secs;
use vstd::prelude::*;
use vstd::string::StringExecFns;

verus! {

/// The Kraken exchange.
pub struct KrakenExchange;

impl KrakenExchange {
    /// URL of the OHLC request for ATOM/USD candles since `start`
    /// (milliseconds), which the endpoint takes in whole seconds.
    pub fn ohlc_url(start: i64) -> (url: String)
        ensures
            url@ == "https://api.kraken.com/0/public/OHLC?pair=ATOMUSD&since="@ + decimal(
                start as int / 1000,
            ),
    {
        let url = KrakenExchange::pair_ohlc_url("ATOMUSD", start);
        proof {
            reveal_strlit("ATOMUSD");
            reveal_strlit("https://api.kraken.com/0/public/OHLC?pair=");
            reveal_strlit("&since=");
            reveal_strlit("https://api.kraken.com/0/public/OHLC?pair=ATOMUSD&since=");
            assert("https://api.kraken.com/0/public/OHLC?pair="@ + "ATOMUSD"@ + "&since="@
                =~= "https://api.kraken.com/0/public/OHLC?pair=ATOMUSD&since="@);
        }
        url
    }

    /// URL of the OHLC request for the candles of `pair` since `start`
    /// (milliseconds), which the endpoint takes in whole seconds.
    pub fn pair_ohlc_url(pair: &str, start: i64) -> (url: String)
        ensures
            url@ == "https://api.kraken.com/0/public/OHLC?pair="@ + pair@ + "&since="@ + decimal(
                start as int / 1000,
            ),
    {
        let mut url = "https://api.kraken.com/0/public/OHLC?pair=".to_owned();
        url.append(pair);
        url.append("&since=");
        push_decimal(&mut url, timestamp_secs(start));
        url
    }

    /// Record of a candle given in the endpoint's column order: time, open,
    /// high, low, close, vwap, volume, count.
    pub fn ohlc_record(candle: (u64, u64, u64, u64, u64, u64, u64, u64)) -> (r: Record)
        ensures
            r == (Record {
                exchange: Exchange::Kraken,
                date: candle.0,
                open: candle.1,
                high: candle.2,
                low: candle.3,
                close: candle.4,
                volume: candle.6,
            }),
    {
        Record {
            exchange: Exchange::Kraken,
            date: candle.0,
            open: candle.1,
            high: candle.2,
            low: candle.3,
            close: candle.4,
            volume: candle.6,
        }
    }
}

} // verus!
