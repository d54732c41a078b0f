//! A trader driven by the slow stochastic oscillator: buy when it falls
//! below 20, sell when it rises above 80.

use crate::market::{oscillator_decision, position_after, position_step, MarketAction};
use vstd::prelude::*;

verus! {

/// Trading state of the slow stochastic trader; the oscillator itself is computed
/// by the caller and handed to `trade` as a fixed-point reading.
pub struct SSOTrader {
    count: usize,
    period: usize,
    overbought: usize,
    oversold: usize,
    in_position: bool,
    description: &'static str,
}

impl SSOTrader {
    /// Readings seen since creation or the last reset.
    pub closed spec fn count(&self) -> nat {
        self.count as nat
    }

    /// Readings needed before the trader acts.
    pub closed spec fn period(&self) -> nat {
        self.period as nat
    }

    /// Level above which an open position is sold.
    pub closed spec fn overbought(&self) -> nat {
        self.overbought as nat
    }

    /// Level below which coins are bought.
    pub closed spec fn oversold(&self) -> nat {
        self.oversold as nat
    }

    /// Whether the trader holds coins.
    pub closed spec fn in_position(&self) -> bool {
        self.in_position
    }

    /// The trader's name.
    pub closed spec fn spec_description(&self) -> Seq<char> {
        self.description@
    }

    /// Readings seen so far.
    pub fn readings_seen(&self) -> (r: usize)
        ensures
            r == self.count(),
    {
        self.count
    }

    /// A trader acting after `period` readings; a zero period is refused.
    pub fn new(period: usize) -> (r: Result<Self, &'static str>)
        ensures
            period == 0 ==> (r matches Err(e) && e@
                == "Invalid parameter: period for RSITrader must be greater than 0."@),
            period > 0 ==> (r matches Ok(t) && t.period() == period && t.count() == 0
                && t.overbought() == 80 && t.oversold() == 20 && !t.in_position()
                && t.spec_description() == "SSO Trader"@),
    {
        match period {
            0 => Err("Invalid parameter: period for RSITrader must be greater than 0."),
            _ => Ok(
                Self {
                    period,
                    count: 0,
                    overbought: 80,
                    oversold: 20,
                    in_position: false,
                    description: "SSO Trader",
                },
            ),
        }
    }

    /// Forgets the readings seen and leaves the market.
    pub fn reset(&mut self)
        ensures
            final(self).count() == 0,
            !final(self).in_position(),
            final(self).period() == old(self).period(),
            final(self).overbought() == old(self).overbought(),
            final(self).oversold() == old(self).oversold(),
            final(self).spec_description() == old(self).spec_description(),
    {
        self.count = 0;
        self.in_position = false;
    }

    /// Takes the next oscillator reading and decides: once more than
    /// `period` readings have been seen, buy below the oversold level when out
    /// of the market, sell above the overbought level when in it.
    pub fn trade(&mut self, reading: i64) -> (r: Option<MarketAction>)
        requires
            old(self).count() < usize::MAX,
        ensures
            final(self).count() == old(self).count() + 1,
            final(self).period() == old(self).period(),
            final(self).overbought() == old(self).overbought(),
            final(self).oversold() == old(self).oversold(),
            final(self).spec_description() == old(self).spec_description(),
            r == (if final(self).count() > old(self).period() {
                oscillator_decision(
                    old(self).in_position(),
                    reading as int,
                    old(self).oversold() as int,
                    old(self).overbought() as int,
                )
            } else {
                None
            }),
            final(self).in_position() == position_after(old(self).in_position(), r),
            position_step(old(self).in_position(), r, final(self).in_position()),
    {
        self.count = self.count + 1;
        if self.count > self.period {
            if (reading as i128) < (self.oversold as i128) * 1000000i128 && !self.in_position {
                self.in_position = true;
                return Some(MarketAction::Buy);
            } else if (reading as i128) > (self.overbought as i128) * 1000000i128
                && self.in_position {
                self.in_position = false;
                return Some(MarketAction::Sell);
            }
        }
        None
    }

    /// The trader's name.
    pub fn description(&self) -> (r: &str)
        ensures
            r@ == self.spec_description(),
    {
        self.description
    }
}

impl Default for SSOTrader {
    /// The trader with the customary 14-reading period.
    fn default() -> (t: Self)
        ensures
            t.period() == 14,
            t.count() == 0,
            t.overbought() == 80,
            t.oversold() == 20,
            !t.in_position(),
            t.spec_description() == "SSO Trader"@,
    {
        match SSOTrader::new(14) {
            Ok(t) => t,
            Err(_) => Self {
                period: 14,
                count: 0,
                overbought: 80,
                oversold: 20,
                in_position: false,
                description: "SSO Trader",
            },
        }
    }
}

} // verus!
