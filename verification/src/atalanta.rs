//! An early price tracker whose pair search never reports a pair.

use crate::talaria::{find_index, names_distinct, quotes_view, with_quote, QuoteView, lemma_with_quote_distinct};
use vstd::prelude::*;

verus! {

/// Latest price of each exchange.
pub struct Atalanta {
    exchange_prices: Vec<(String, u64)>,
}

impl Atalanta {
    /// Latest price of each exchange, in the order the exchanges first reported.
    pub closed spec fn prices(&self) -> Seq<QuoteView> {
        quotes_view(self.exchange_prices@)
    }

    /// Each exchange appears once.
    #[verifier::type_invariant]
    spec fn wf(&self) -> bool {
        names_distinct(self.prices())
    }

    /// No prices yet.
    pub fn new() -> (a: Self)
        ensures
            a.prices() == Seq::<QuoteView>::empty(),
    {
        let a = Atalanta { exchange_prices: Vec::new() };
        assert(a.prices() =~= Seq::<QuoteView>::empty());
        a
    }

    /// Records the latest price of an exchange.
    pub fn update_exchange_price(&mut self, exchange: String, price: u64)
        ensures
            final(self).prices() == with_quote(old(self).prices(), exchange@, price),
    {
        proof {
            use_type_invariant(&*self);
        }
        let ghost s = self.prices();
        proof {
            lemma_with_quote_distinct(s, exchange@, price);
        }
        let mut prices: Vec<(String, u64)> = Vec::new();
        std::mem::swap(&mut prices, &mut self.exchange_prices);
        match find_index(&prices, &exchange) {
            Some(i) => {
                prices.set(i, (exchange, price));
            },
            None => {
                prices.push((exchange, price));
            },
        }
        assert(quotes_view(prices@) =~= with_quote(s, exchange@, price));
        self.exchange_prices = prices;
    }

    /// Walks the prices keeping a highest and a lowest entry, but each
    /// replacement re-installs the entry already held, so both stay at the
    /// first exchange; as they are the same exchange, no pair is returned.
    pub fn find_best_trade_pair(&mut self) -> (r: Option<((String, u64), (String, u64))>)
        ensures
            *final(self) == *old(self),
            r is None,
    {
        let mut max_exchange: Option<(String, u64)> = None;
        let mut min_exchange: Option<(String, u64)> = None;
        let n = self.exchange_prices.len();
        let mut i: usize = 0;
        while i < n
            invariant
                n == self.exchange_prices@.len(),
                i <= n,
                i == 0 ==> max_exchange is None && min_exchange is None,
                i > 0 ==> max_exchange == Some(self.exchange_prices@[0]) && min_exchange == Some(
                    self.exchange_prices@[0],
                ),
            decreases n - i,
        {
            let value = self.exchange_prices[i].1;
            if max_exchange.is_none() {
                max_exchange = Some((self.exchange_prices[i].0.clone(), value));
                min_exchange = Some((self.exchange_prices[i].0.clone(), value));
            }
            match &max_exchange {
                Some((e, v)) => {
                    if value > *v {
                        max_exchange = Some((e.clone(), *v));
                    }
                },
                None => {},
            }
            match &min_exchange {
                Some((e, v)) => {
                    if value < *v {
                        min_exchange = Some((e.clone(), *v));
                    }
                },
                None => {},
            }
            i = i + 1;
        }
        match (max_exchange, min_exchange) {
            (Some(max_info), Some(min_info)) => {
                if !(max_info.0 == min_info.0) {
                    return Some((max_info, min_info));
                }
                None
            },
            _ => None,
        }
    }
}

} // verus!
