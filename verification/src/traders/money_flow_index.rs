//! A trader fed by the money flow index. Its buy and sell rules are not
//! enabled: it counts readings and never acts.

use crate::market::MarketAction;
use vstd::prelude::*;

verus! {

/// Trading state of the MFI trader; the index itself is computed by the
/// caller and handed to `trade` as a fixed-point reading.
pub struct MFITrader {
    count: usize,
    period: usize,
    overbought: usize,
    oversold: usize,
    in_position: bool,
    description: &'static str,
}

impl MFITrader {
    /// Readings seen since creation or the last reset.
    pub closed spec fn count(&self) -> nat {
        self.count as nat
    }

    /// Readings needed before the trader would act.
    pub closed spec fn period(&self) -> nat {
        self.period as nat
    }

    /// Level above which an open position would be sold.
    pub closed spec fn overbought(&self) -> nat {
        self.overbought as nat
    }

    /// Level below which coins would be bought.
    pub closed spec fn oversold(&self) -> nat {
        self.oversold as nat
    }

    /// Whether the trader holds coins.
    pub closed spec fn in_position(&self) -> bool {
        self.in_position
    }

    /// The trader's name.
    pub closed spec fn spec_description(&self) -> Seq<char> {
        self.description@
    }

    /// Readings seen so far.
    pub fn readings_seen(&self) -> (r: usize)
        ensures
            r == self.count(),
    {
        self.count
    }

    /// A trader over `period` readings; a zero period is refused.
    pub fn new(period: usize) -> (r: Result<Self, &'static str>)
        ensures
            period == 0 ==> (r matches Err(e) && e@
                == "Invalid parameter: period for MFITrader must be greater than 0."@),
            period > 0 ==> (r matches Ok(t) && t.period() == period && t.count() == 0
                && t.overbought() == 80 && t.oversold() == 20 && !t.in_position()
                && t.spec_description() == "MFI Trader"@),
    {
        match period {
            0 => Err("Invalid parameter: period for MFITrader must be greater than 0."),
            _ => Ok(
                Self {
                    period,
                    count: 0,
                    overbought: 80,
                    oversold: 20,
                    in_position: false,
                    description: "MFI Trader",
                },
            ),
        }
    }

    /// Forgets the readings seen and leaves the market.
    pub fn reset(&mut self)
        ensures
            final(self).count() == 0,
            !final(self).in_position(),
            final(self).period() == old(self).period(),
            final(self).overbought() == old(self).overbought(),
            final(self).oversold() == old(self).oversold(),
            final(self).spec_description() == old(self).spec_description(),
    {
        self.count = 0;
        self.in_position = false;
    }

    /// Takes the next index reading; counts it and takes no action.
    pub fn trade(&mut self, _mfi: i64) -> (r: Option<MarketAction>)
        requires
            old(self).count() < usize::MAX,
        ensures
            final(self).count() == old(self).count() + 1,
            final(self).period() == old(self).period(),
            final(self).overbought() == old(self).overbought(),
            final(self).oversold() == old(self).oversold(),
            final(self).in_position() == old(self).in_position(),
            final(self).spec_description() == old(self).spec_description(),
            r is None,
    {
        self.count = self.count + 1;
        None
    }

    /// The trader's name.
    pub fn description(&self) -> (r: &str)
        ensures
            r@ == self.spec_description(),
    {
        self.description
    }
}

} // verus!
