//! A trader driven by the fast stochastic oscillator: buy when it falls
//! below 20, sell when it rises above 80.

use crate::market::{oscillator_decision, position_after, position_step, MarketAction};
use vstd::prelude::*;

verus! {

/// Trading state of the fast stochastic trader; the oscillator itself is computed
/// by the caller and handed to `trade` as a fixed-point reading.
pub struct FSOTrader {
    count: usize,
    period: usize,
    overbought: usize,
    oversold: usize,
    in_position: bool,
}

impl FSOTrader {
    /// Readings seen since creation.
    pub closed spec fn count(&self) -> nat {
        self.count as nat
    }

    /// Readings needed before the trader acts.
    pub closed spec fn period(&self) -> nat {
        self.period as nat
    }

    /// Level above which an open position is sold.
    pub closed spec fn overbought(&self) -> nat {
        self.overbought as nat
    }

    /// Level below which coins are bought.
    pub closed spec fn oversold(&self) -> nat {
        self.oversold as nat
    }

    /// Whether the trader holds coins.
    pub closed spec fn in_position(&self) -> bool {
        self.in_position
    }

    /// Readings seen so far.
    pub fn readings_seen(&self) -> (r: usize)
        ensures
            r == self.count(),
    {
        self.count
    }

    /// A trader acting after `period` readings; a zero period is refused.
    pub fn new(period: usize) -> (r: Result<Self, &'static str>)
        ensures
            period == 0 ==> (r matches Err(e) && e@
                == "Invalid parameter: period for RSITrader must be greater than 0."@),
            period > 0 ==> (r matches Ok(t) && t.period() == period && t.count() == 0
                && t.overbought() == 80 && t.oversold() == 20 && !t.in_position()),
    {
        match period {
            0 => Err("Invalid parameter: period for RSITrader must be greater than 0."),
            _ => Ok(
                Self {
                    period,
                    count: 0,
                    overbought: 80,
                    oversold: 20,
                    in_position: false,
                },
            ),
        }
    }

    /// Takes the next oscillator reading and decides: once more than
    /// `period` readings have been seen, buy below the oversold level when out
    /// of the market, sell above the overbought level when in it.
    pub fn trade(&mut self, reading: i64) -> (r: Option<MarketAction>)
        requires
            old(self).count() < usize::MAX,
        ensures
            final(self).count() == old(self).count() + 1,
            final(self).period() == old(self).period(),
            final(self).overbought() == old(self).overbought(),
            final(self).oversold() == old(self).oversold(),
            r == (if final(self).count() > old(self).period() {
                oscillator_decision(
                    old(self).in_position(),
                    reading as int,
                    old(self).oversold() as int,
                    old(self).overbought() as int,
                )
            } else {
                None
            }),
            final(self).in_position() == position_after(old(self).in_position(), r),
            position_step(old(self).in_position(), r, final(self).in_position()),
    {
        self.count = self.count + 1;
        if self.count > self.period {
            if (reading as i128) < (self.oversold as i128) * 1000000i128 && !self.in_position {
                self.in_position = true;
                return Some(MarketAction::Buy);
            } else if (reading as i128) > (self.overbought as i128) * 1000000i128
                && self.in_position {
                self.in_position = false;
                return Some(MarketAction::Sell);
            }
        }
        None
    }

}

} // verus!
