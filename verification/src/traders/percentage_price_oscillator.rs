//! A trader driven by the percentage price oscillator: buy when the
//! oscillator crosses above its signal line, sell when it crosses below.

use crate::market::{position_after, position_step, MarketAction};
use vstd::prelude::*;

verus! {

/// Decision of the PPO trader once warmed up: buy when the oscillator is
/// above its signal line while out of the market, sell when it is below
/// while in it.
pub open spec fn crossover_decision(in_position: bool, ppo: int, signal: int) -> Option<MarketAction> {
    if ppo > signal && !in_position {
        Some(MarketAction::Buy)
    } else if ppo < signal && in_position {
        Some(MarketAction::Sell)
    } else {
        None
    }
}

/// Once warmed up, the PPO trader buys exactly when it is out of the market
/// and the oscillator lies above its signal line, sells exactly when it is in
/// the market and the oscillator lies below it, and otherwise does nothing
/// (in particular when the two are equal).
pub proof fn lemma_crossover_decision(in_position: bool, ppo: int, signal: int)
    ensures
        (crossover_decision(in_position, ppo, signal) == Some(MarketAction::Buy)) <==> (!in_position
            && ppo > signal),
        (crossover_decision(in_position, ppo, signal) == Some(MarketAction::Sell)) <==> (in_position
            && ppo < signal),
        crossover_decision(in_position, ppo, signal) is None <==> (if in_position {
            ppo >= signal
        } else {
            ppo <= signal
        }),
        crossover_decision(in_position, ppo, ppo) is None,
{
}

/// Trading state of the PPO trader; the oscillator and its signal line are
/// computed by the caller and handed to `trade` as fixed-point readings.
pub struct PPOTrader {
    count: usize,
    fast_period: usize,
    slow_period: usize,
    signal_period: usize,
    in_position: bool,
    description: &'static str,
}

impl PPOTrader {
    /// Readings seen since creation or the last reset.
    pub closed spec fn count(&self) -> nat {
        self.count as nat
    }

    /// Period of the fast moving average.
    pub closed spec fn fast_period(&self) -> nat {
        self.fast_period as nat
    }

    /// Period of the slow moving average; readings needed before acting.
    pub closed spec fn slow_period(&self) -> nat {
        self.slow_period as nat
    }

    /// Period of the signal line.
    pub closed spec fn signal_period(&self) -> nat {
        self.signal_period as nat
    }

    /// Whether the trader holds coins.
    pub closed spec fn in_position(&self) -> bool {
        self.in_position
    }

    /// The trader's name.
    pub closed spec fn spec_description(&self) -> Seq<char> {
        self.description@
    }

    /// Readings seen so far.
    pub fn readings_seen(&self) -> (r: usize)
        ensures
            r == self.count(),
    {
        self.count
    }

    /// A trader over the given periods; each must be at least 1, checked in
    /// the order fast, slow, signal.
    pub fn new(fast_period: usize, slow_period: usize, signal_period: usize) -> (r: Result<
        Self,
        &'static str,
    >)
        ensures
            fast_period < 1 ==> (r matches Err(e) && e@ == "Fast period must be greater than 0"@),
            fast_period >= 1 && slow_period < 1 ==> (r matches Err(e) && e@
                == "Slow period must be greater than 0"@),
            fast_period >= 1 && slow_period >= 1 && signal_period < 1 ==> (r matches Err(e) && e@
                == "Signal period must be greater than 0"@),
            fast_period >= 1 && slow_period >= 1 && signal_period >= 1 ==> (r matches Ok(t)
                && t.fast_period() == fast_period && t.slow_period() == slow_period
                && t.signal_period() == signal_period && t.count() == 0 && !t.in_position()
                && t.spec_description() == "PPO Trader"@),
    {
        if fast_period < 1 {
            return Err("Fast period must be greater than 0");
        } else if slow_period < 1 {
            return Err("Slow period must be greater than 0");
        } else if signal_period < 1 {
            return Err("Signal period must be greater than 0");
        }
        Ok(
            Self {
                fast_period,
                slow_period,
                signal_period,
                count: 0,
                in_position: false,
                description: "PPO Trader",
            },
        )
    }

    /// Forgets the readings seen and leaves the market.
    pub fn reset(&mut self)
        ensures
            final(self).count() == 0,
            !final(self).in_position(),
            final(self).fast_period() == old(self).fast_period(),
            final(self).slow_period() == old(self).slow_period(),
            final(self).signal_period() == old(self).signal_period(),
            final(self).spec_description() == old(self).spec_description(),
    {
        self.count = 0;
        self.in_position = false;
    }

    /// Takes the next oscillator value and signal-line value and decides once
    /// more than `slow_period` readings have been seen.
    pub fn trade(&mut self, ppo: i64, signal: i64) -> (r: Option<MarketAction>)
        requires
            old(self).count() < usize::MAX,
        ensures
            final(self).count() == old(self).count() + 1,
            final(self).fast_period() == old(self).fast_period(),
            final(self).slow_period() == old(self).slow_period(),
            final(self).signal_period() == old(self).signal_period(),
            final(self).spec_description() == old(self).spec_description(),
            r == (if final(self).count() > old(self).slow_period() {
                crossover_decision(old(self).in_position(), ppo as int, signal as int)
            } else {
                None
            }),
            final(self).in_position() == position_after(old(self).in_position(), r),
            position_step(old(self).in_position(), r, final(self).in_position()),
    {
        self.count = self.count + 1;
        if self.count > self.slow_period {
            if ppo > signal && !self.in_position {
                self.in_position = true;
                return Some(MarketAction::Buy);
            } else if ppo < signal && self.in_position {
                self.in_position = false;
                return Some(MarketAction::Sell);
            }
        }
        None
    }

    /// The trader's name.
    pub fn description(&self) -> (r: &str)
        ensures
            r@ == self.spec_description(),
    {
        self.description
    }
}

} // verus!
