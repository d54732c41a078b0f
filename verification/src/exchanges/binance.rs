//! Binance: candle records from REST klines and from the kline stream.

use crate::record::{Exchange, Record};
use crate::utilities::time_range::TimeRange;
use vstd::prelude::*;

verus! {

/// Quotient of `a` by `b` rounded toward zero, as Rust's `/` computes it.
pub open spec fn truncated_div(a: int, b: int) -> int {
    if a >= 0 {
        a / b
    } else {
        -((-a) / b)
    }
}

/// Division rounded toward zero: for a positive divisor the quotient times
/// the divisor lies at most one divisor below a non-negative dividend, and at
/// most one divisor above a negative one, never on the far side of zero.
pub proof fn lemma_truncated_div(a: int, b: int)
    requires
        b > 0,
    ensures
        a >= 0 ==> 0 <= truncated_div(a, b) * b <= a < truncated_div(a, b) * b + b,
        a < 0 ==> truncated_div(a, b) * b - b < a <= truncated_div(a, b) * b <= 0,
{
    if a >= 0 {
        assert(0 <= (a / b) * b <= a < (a / b) * b + b) by (nonlinear_arith)
            requires
                a >= 0,
                b > 0,
        ;
    } else {
        let m = -a;
        assert(0 <= (m / b) * b <= m < (m / b) * b + b) by (nonlinear_arith)
            requires
                m > 0,
                b > 0,
        ;
        assert(truncated_div(a, b) * b == -((m / b) * b)) by (nonlinear_arith)
            requires
                truncated_div(a, b) == -(m / b),
        ;
    }
}

/// The Binance exchange.
pub struct BinanceExchange;

impl BinanceExchange {
    /// The start and end of a download window in milliseconds, as the
    /// unsigned values the kline request takes.
    pub fn kline_window(range: &TimeRange) -> (w: (u64, u64))
        ensures
            w.0 == range.start as u64,
            w.1 == range.end as u64,
    {
        (range.start as u64, range.end as u64)
    }

    /// Record of a REST kline; the opening time arrives in milliseconds and
    /// is kept in seconds.
    pub fn kline_record(open_time: i64, open: u64, high: u64, low: u64, close: u64, volume: u64) -> (r:
        Record)
        ensures
            r.exchange == Exchange::Binance,
            r.date == truncated_div(open_time as int, 1000) as u64,
            r.open == open,
            r.high == high,
            r.low == low,
            r.close == close,
            r.volume == volume,
    {
        let seconds = open_time / 1000;
        proof {
            if open_time < 0 {
                assert(seconds == -((-open_time) / 1000));
            }
        }
        Record {
            exchange: Exchange::Binance,
            date: seconds as u64,
            open,
            high,
            low,
            close,
            volume,
        }
    }

    /// Record of a kline stream event, dated by the event time as sent.
    pub fn stream_record(event_time: u64, open: u64, high: u64, low: u64, close: u64, volume: u64) -> (r:
        Record)
        ensures
            r == (Record { exchange: Exchange::Binance, date: event_time, open, close, high, low, volume }),
    {
        Record { exchange: Exchange::Binance, date: event_time, high, low, open, close, volume }
    }

    /// Record of a kline stream event once its bar is final, dated by the
    /// event time (milliseconds) in whole seconds; `None` for a bar still
    /// open.
    pub fn final_bar_record(
        is_final_bar: bool,
        event_time: u64,
        open: u64,
        high: u64,
        low: u64,
        close: u64,
        volume: u64,
    ) -> (r: Option<Record>)
        ensures
            r == (if is_final_bar {
                Some(
                    Record {
                        exchange: Exchange::Binance,
                        date: event_time / 1000,
                        open,
                        close,
                        high,
                        low,
                        volume,
                    },
                )
            } else {
                None
            }),
    {
        if is_final_bar {
            Some(BinanceExchange::stream_record(event_time / 1000, open, high, low, close, volume))
        } else {
            None
        }
    }
}

} // verus!
