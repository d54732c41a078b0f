//! Cross-exchange arbitrage detection.
//!
//! Prices are fixed-point integers (see `record::PRICE_SCALE`); fee rates are
//! basis points, `BPS_DENOMINATOR` of which make the whole price.

use crate::record::Record;
use vstd::arithmetic::div_mod::{
    lemma_div_is_ordered, lemma_fundamental_div_mod, lemma_fundamental_div_mod_converse,
    lemma_mod_pos_bound,
};
use vstd::prelude::*;

verus! {

/// Basis points in a whole.
pub const BPS_DENOMINATOR: u64 = 10000u64;

/// Taker fee of Coinbase, in basis points (0.1 %).
pub const COINBASE_FEE_BPS: u64 = 10u64;

/// Taker fee of Binance, in basis points (0.1 %).
pub const BINANCE_FEE_BPS: u64 = 10u64;

/// Taker fee of Kraken, in basis points (0.26 %).
pub const KRAKEN_FEE_BPS: u64 = 26u64;

/// An exchange name with a number (a price or a fee rate), as specifications see it.
pub type QuoteView = (Seq<char>, u64);

/// The specification view of a named number.
pub open spec fn quote_view(q: (String, u64)) -> QuoteView {
    (q.0@, q.1)
}

/// The specification view of a list of named numbers.
pub open spec fn quotes_view(v: Seq<(String, u64)>) -> Seq<QuoteView> {
    v.map_values(|q: (String, u64)| quote_view(q))
}

/// The specification view of a best-pair answer.
pub open spec fn pair_view(p: ((String, u64), (String, u64))) -> (QuoteView, QuoteView) {
    (quote_view(p.0), quote_view(p.1))
}

/// No name occurs twice.
pub open spec fn names_distinct(s: Seq<QuoteView>) -> bool {
    forall|i: int, j: int| 0 <= i < j < s.len() ==> s[i].0 != s[j].0
}

/// Some entry carries `name`.
pub open spec fn has_name(s: Seq<QuoteView>, name: Seq<char>) -> bool {
    exists|i: int| 0 <= i < s.len() && s[i].0 == name
}

/// The position of the entry carrying `name`.
pub open spec fn index_of(s: Seq<QuoteView>, name: Seq<char>) -> int {
    choose|i: int| 0 <= i < s.len() && s[i].0 == name
}

/// The number recorded under `name`.
pub open spec fn value_of(s: Seq<QuoteView>, name: Seq<char>) -> u64 {
    s[index_of(s, name)].1
}

/// The list after `name` is given `value`: its entry is replaced in place, or
/// a new entry is appended.
pub open spec fn with_quote(s: Seq<QuoteView>, name: Seq<char>, value: u64) -> Seq<QuoteView> {
    if has_name(s, name) {
        s.update(index_of(s, name), (name, value))
    } else {
        s.push((name, value))
    }
}

/// Entry `i` holds the highest price, and no earlier entry does.
pub open spec fn is_first_max(s: Seq<QuoteView>, i: int) -> bool {
    &&& 0 <= i < s.len()
    &&& forall|j: int| 0 <= j < s.len() ==> s[j].1 <= s[i].1
    &&& forall|j: int| 0 <= j < i ==> s[j].1 < s[i].1
}

/// Entry `i` holds the lowest price, and no earlier entry does.
pub open spec fn is_first_min(s: Seq<QuoteView>, i: int) -> bool {
    &&& 0 <= i < s.len()
    &&& forall|j: int| 0 <= j < s.len() ==> s[i].1 <= s[j].1
    &&& forall|j: int| 0 <= j < i ==> s[i].1 < s[j].1
}

/// Two entries carry different prices.
pub open spec fn prices_differ(s: Seq<QuoteView>) -> bool {
    exists|i: int, j: int| 0 <= i < s.len() && 0 <= j < s.len() && s[i].1 != s[j].1
}

/// The best pair to trade: the first entry with the highest price and the
/// first with the lowest, when the prices are not all equal.
pub open spec fn best_trade_pair(s: Seq<QuoteView>) -> Option<(QuoteView, QuoteView)> {
    if prices_differ(s) {
        Some((s[choose|i: int| is_first_max(s, i)], s[choose|i: int| is_first_min(s, i)]))
    } else {
        None
    }
}

/// Both exchanges of the best pair, if there is one, have a known fee.
pub open spec fn fees_cover_pair(prices: Seq<QuoteView>, fees: Seq<QuoteView>) -> bool {
    match best_trade_pair(prices) {
        Some((high, low)) => has_name(fees, high.0) && has_name(fees, low.0),
        None => true,
    }
}

/// The fees of buying one unit at `low` and selling it at `high`, in
/// basis-point units of the price.
pub open spec fn pair_fees(high: QuoteView, low: QuoteView, fees: Seq<QuoteView>) -> int {
    high.1 * value_of(fees, high.0) + low.1 * value_of(fees, low.0)
}

/// The best pair and its price difference, when the difference exceeds the
/// fees of trading one unit across it.
pub open spec fn trade_signal(prices: Seq<QuoteView>, fees: Seq<QuoteView>) -> Option<
    ((QuoteView, QuoteView), u64),
> {
    match best_trade_pair(prices) {
        Some((high, low)) => if (high.1 - low.1) * BPS_DENOMINATOR > pair_fees(high, low, fees) {
            Some(((high, low), (high.1 - low.1) as u64))
        } else {
            None
        },
        None => None,
    }
}

/// The fee table every `Talaria` starts from.
pub open spec fn standard_fees() -> Seq<QuoteView> {
    seq![("coinbase"@, COINBASE_FEE_BPS), ("binance"@, BINANCE_FEE_BPS), ("kraken"@, KRAKEN_FEE_BPS)]
}

/// The standard fee table names each exchange once; Coinbase and Binance
/// take 0.1 %, and no fee exceeds the whole.
pub proof fn lemma_standard_fees()
    ensures
        names_distinct(standard_fees()),
        has_name(standard_fees(), "coinbase"@),
        has_name(standard_fees(), "binance"@),
        value_of(standard_fees(), "coinbase"@) == COINBASE_FEE_BPS,
        value_of(standard_fees(), "binance"@) == BINANCE_FEE_BPS,
        forall|i: int|
            0 <= i < standard_fees().len() ==> #[trigger] standard_fees()[i].1 <= BPS_DENOMINATOR,
{
    reveal_strlit("coinbase");
    reveal_strlit("binance");
    reveal_strlit("kraken");
    assert("coinbase"@[0] != "binance"@[0]);
    assert("coinbase"@.len() != "kraken"@.len());
    assert("binance"@[0] != "kraken"@[0]);
    lemma_index_of_unique(standard_fees(), 0);
    lemma_index_of_unique(standard_fees(), 1);
}

/// Only one entry carries a name, so it is the one `index_of` picks.
pub proof fn lemma_index_of_unique(s: Seq<QuoteView>, i: int)
    requires
        names_distinct(s),
        0 <= i < s.len(),
    ensures
        has_name(s, s[i].0),
        index_of(s, s[i].0) == i,
        value_of(s, s[i].0) == s[i].1,
{
    let j = index_of(s, s[i].0);
    assert(0 <= j < s.len() && s[j].0 == s[i].0);
    if j < i {
        assert(s[j].0 != s[i].0);
    } else if i < j {
        assert(s[i].0 != s[j].0);
    }
}

/// There is one first highest and one first lowest entry.
pub proof fn lemma_first_extremes_unique(s: Seq<QuoteView>, a: int, b: int)
    ensures
        is_first_max(s, a) && is_first_max(s, b) ==> a == b,
        is_first_min(s, a) && is_first_min(s, b) ==> a == b,
{
    if is_first_max(s, a) && is_first_max(s, b) && a != b {
        if a < b {
            assert(s[a].1 < s[b].1);
            assert(s[b].1 <= s[a].1);
        } else {
            assert(s[b].1 < s[a].1);
            assert(s[a].1 <= s[b].1);
        }
    }
    if is_first_min(s, a) && is_first_min(s, b) && a != b {
        if a < b {
            assert(s[b].1 < s[a].1);
            assert(s[a].1 <= s[b].1);
        } else {
            assert(s[a].1 < s[b].1);
            assert(s[b].1 <= s[a].1);
        }
    }
}

/// Giving a name a value keeps names distinct.
pub proof fn lemma_with_quote_distinct(s: Seq<QuoteView>, name: Seq<char>, value: u64)
    requires
        names_distinct(s),
    ensures
        names_distinct(with_quote(s, name, value)),
{
    let t = with_quote(s, name, value);
    if has_name(s, name) {
        let k = index_of(s, name);
        assert forall|i: int, j: int| 0 <= i < j < t.len() implies t[i].0 != t[j].0 by {
            if i != k && j != k {
                assert(s[i].0 != s[j].0);
            } else if i == k {
                assert(s[k].0 != s[j].0);
            } else {
                assert(s[i].0 != s[k].0);
            }
        }
    } else {
        assert forall|i: int, j: int| 0 <= i < j < t.len() implies t[i].0 != t[j].0 by {
            if j < s.len() {
                assert(s[i].0 != s[j].0);
            } else {
                assert(t[j].0 == name);
                assert(!(0 <= i < s.len() && s[i].0 == name));
            }
        }
    }
}

/// A price read back after it was written is the price written, and every
/// other exchange keeps its price.
pub proof fn lemma_with_quote_reads_back(
    s: Seq<QuoteView>,
    name: Seq<char>,
    value: u64,
    other: Seq<char>,
)
    requires
        names_distinct(s),
    ensures
        has_name(with_quote(s, name, value), name),
        value_of(with_quote(s, name, value), name) == value,
        other != name ==> (has_name(with_quote(s, name, value), other) == has_name(s, other)),
        other != name && has_name(s, other) ==> value_of(with_quote(s, name, value), other)
            == value_of(s, other),
{
    let t = with_quote(s, name, value);
    lemma_with_quote_distinct(s, name, value);
    let k = if has_name(s, name) {
        index_of(s, name)
    } else {
        s.len() as int
    };
    assert(t[k] == (name, value));
    lemma_index_of_unique(t, k);
    if other != name {
        if has_name(s, other) {
            let m = index_of(s, other);
            assert(m != k);
            assert(t[m] == s[m]);
            lemma_index_of_unique(t, m);
            lemma_index_of_unique(s, m);
        }
        if has_name(t, other) {
            let m = index_of(t, other);
            assert(m != k);
            assert(t[m] == s[m]);
        }
    }
}

/// The position of `name` in a list of named numbers whose names are distinct.
pub(crate) fn find_index(v: &Vec<(String, u64)>, name: &String) -> (r: Option<usize>)
    requires
        names_distinct(quotes_view(v@)),
    ensures
        r is None ==> !has_name(quotes_view(v@), name@),
        r matches Some(i) ==> i < v@.len() && has_name(quotes_view(v@), name@) && index_of(
            quotes_view(v@),
            name@,
        ) == i,
{
    let ghost s = quotes_view(v@);
    let mut i: usize = 0;
    while i < v.len()
        invariant
            i <= v@.len(),
            s == quotes_view(v@),
            names_distinct(s),
            forall|j: int| 0 <= j < i ==> s[j].0 != name@,
        decreases v@.len() - i,
    {
        if v[i].0 == *name {
            proof {
                lemma_index_of_unique(s, i as int);
            }
            return Some(i);
        }
        i = i + 1;
    }
    None
}

/// Detects price gaps between exchanges worth trading once fees are paid.
pub struct Talaria {
    exchange_fees: Vec<(String, u64)>,
    exchange_prices: Vec<(String, u64)>,
}

/// The two ends of a trade: the exchange with the highest price and the
/// exchange with the lowest.
pub type ExchangePair = ((String, u64), (String, u64));

impl Talaria {
    /// Latest price of each exchange, in the order the exchanges first reported.
    pub closed spec fn prices(&self) -> Seq<QuoteView> {
        quotes_view(self.exchange_prices@)
    }

    /// Fee rate of each exchange, in basis points.
    pub closed spec fn fees(&self) -> Seq<QuoteView> {
        quotes_view(self.exchange_fees@)
    }

    /// Each exchange appears once among prices and once among fees, and no
    /// fee exceeds the whole.
    #[verifier::type_invariant]
    spec fn wf(&self) -> bool {
        &&& names_distinct(self.prices())
        &&& names_distinct(self.fees())
        &&& forall|i: int| 0 <= i < self.fees().len() ==> #[trigger] self.fees()[i].1 <= BPS_DENOMINATOR
    }

    /// No prices yet; fees of 0.1 % on Coinbase and Binance and 0.26 % on Kraken.
    pub fn new() -> (t: Self)
        ensures
            t.prices() == Seq::<QuoteView>::empty(),
            t.fees() == standard_fees(),
    {
        let mut exchange_fees: Vec<(String, u64)> = Vec::new();
        exchange_fees.push(("coinbase".to_owned(), COINBASE_FEE_BPS));
        exchange_fees.push(("binance".to_owned(), BINANCE_FEE_BPS));
        exchange_fees.push(("kraken".to_owned(), KRAKEN_FEE_BPS));
        let exchange_prices: Vec<(String, u64)> = Vec::new();
        proof {
            reveal_strlit("coinbase");
            reveal_strlit("binance");
            reveal_strlit("kraken");
            assert(quotes_view(exchange_prices@) =~= Seq::<QuoteView>::empty());
            assert(quotes_view(exchange_fees@) =~= seq![
                ("coinbase"@, COINBASE_FEE_BPS),
                ("binance"@, BINANCE_FEE_BPS),
                ("kraken"@, KRAKEN_FEE_BPS),
            ]);
            assert("coinbase"@[0] != "binance"@[0]);
            assert("coinbase"@.len() != "kraken"@.len());
            assert("binance"@[0] != "kraken"@[0]);
        }
        let t = Talaria { exchange_fees, exchange_prices };
        t
    }

    /// Records the latest price of an exchange.
    pub fn update_exchange_price(&mut self, exchange: String, price: u64)
        ensures
            final(self).fees() == old(self).fees(),
            final(self).prices() == with_quote(old(self).prices(), exchange@, price),
    {
        proof {
            use_type_invariant(&*self);
        }
        let ghost s = self.prices();
        proof {
            lemma_with_quote_distinct(s, exchange@, price);
        }
        let mut prices: Vec<(String, u64)> = Vec::new();
        std::mem::swap(&mut prices, &mut self.exchange_prices);
        match find_index(&prices, &exchange) {
            Some(i) => {
                prices.set(i, (exchange, price));
            },
            None => {
                prices.push((exchange, price));
            },
        }
        assert(quotes_view(prices@) =~= with_quote(s, exchange@, price));
        self.exchange_prices = prices;
    }

    /// The fee rate of an exchange, in basis points, if known.
    pub fn exchange_fee(&self, exchange: &String) -> (r: Option<u64>)
        ensures
            r == (if has_name(self.fees(), exchange@) {
                Some(value_of(self.fees(), exchange@))
            } else {
                None
            }),
    {
        proof {
            use_type_invariant(&*self);
        }
        match find_index(&self.exchange_fees, exchange) {
            Some(i) => Some(self.exchange_fees[i].1),
            None => None,
        }
    }

    /// The latest price of an exchange, if it has reported one.
    pub fn exchange_price(&self, exchange: &String) -> (r: Option<u64>)
        ensures
            r == (if has_name(self.prices(), exchange@) {
                Some(value_of(self.prices(), exchange@))
            } else {
                None
            }),
    {
        proof {
            use_type_invariant(&*self);
        }
        match find_index(&self.exchange_prices, exchange) {
            Some(i) => Some(self.exchange_prices[i].1),
            None => None,
        }
    }

    /// The exchange with the highest price and the exchange with the lowest,
    /// each the first to report in case of ties; `None` when fewer than two
    /// different prices are known.
    pub fn find_best_trade_pair(&mut self) -> (r: Option<ExchangePair>)
        ensures
            *final(self) == *old(self),
            match r {
                Some(p) => best_trade_pair(old(self).prices()) == Some(pair_view(p)),
                None => best_trade_pair(old(self).prices()) is None,
            },
    {
        proof {
            use_type_invariant(&*self);
        }
        let ghost s = self.prices();
        let n = self.exchange_prices.len();
        if n == 0 {
            return None;
        }
        let mut max_i: usize = 0;
        let mut min_i: usize = 0;
        let mut i: usize = 1;
        while i < n
            invariant
                1 <= i <= n,
                n == s.len(),
                s == quotes_view(self.exchange_prices@),
                max_i < i,
                min_i < i,
                forall|j: int| 0 <= j < i ==> s[j].1 <= s[max_i as int].1,
                forall|j: int| 0 <= j < max_i ==> s[j].1 < s[max_i as int].1,
                forall|j: int| 0 <= j < i ==> s[min_i as int].1 <= s[j].1,
                forall|j: int| 0 <= j < min_i ==> s[min_i as int].1 < s[j].1,
            decreases n - i,
        {
            let value = self.exchange_prices[i].1;
            if value > self.exchange_prices[max_i].1 {
                max_i = i;
            } else if value < self.exchange_prices[min_i].1 {
                min_i = i;
            }
            i = i + 1;
        }
        proof {
            assert(is_first_max(s, max_i as int));
            assert(is_first_min(s, min_i as int));
        }
        if !(self.exchange_prices[max_i].0 == self.exchange_prices[min_i].0) {
            let high = (self.exchange_prices[max_i].0.clone(), self.exchange_prices[max_i].1);
            let low = (self.exchange_prices[min_i].0.clone(), self.exchange_prices[min_i].1);
            proof {
                assert(max_i != min_i);
                if s[max_i as int].1 == s[min_i as int].1 {
                    assert(is_first_max(s, min_i as int));
                    lemma_first_extremes_unique(s, max_i as int, min_i as int);
                }
                assert(prices_differ(s));
                let a = choose|k: int| is_first_max(s, k);
                let b = choose|k: int| is_first_min(s, k);
                lemma_first_extremes_unique(s, a, max_i as int);
                lemma_first_extremes_unique(s, b, min_i as int);
            }
            return Some((high, low));
        }
        proof {
            assert forall|a: int, b: int| 0 <= a < s.len() && 0 <= b < s.len() implies s[a].1
                == s[b].1 by {
                assert(s[a].1 <= s[max_i as int].1);
                assert(s[min_i as int].1 <= s[b].1);
                assert(s[b].1 <= s[max_i as int].1);
                assert(s[min_i as int].1 <= s[a].1);
            }
        }
        None
    }

    /// The trade worth making now, if any: the best pair, its price
    /// difference, the fees of trading one unit across it and the profit
    /// left after them (both in basis-point units of the price).
    pub fn trade_opportunity(&mut self) -> (r: Option<TradeOpportunity>)
        requires
            fees_cover_pair(old(self).prices(), old(self).fees()),
        ensures
            *final(self) == *old(self),
            match r {
                Some(o) => {
                    &&& trade_signal(old(self).prices(), old(self).fees()) == Some(
                        ((quote_view(o.high), quote_view(o.low)), o.price_diff),
                    )
                    &&& o.fees == pair_fees(quote_view(o.high), quote_view(o.low), old(self).fees())
                    &&& o.profit == o.price_diff * BPS_DENOMINATOR - o.fees
                    &&& o.profit > 0
                },
                None => trade_signal(old(self).prices(), old(self).fees()) is None,
            },
    {
        proof {
            use_type_invariant(&*self);
        }
        match self.check_for_trade_and_value() {
            Some(((high, low), price_diff)) => {
                let fees = match self.pair_fee_amount(&high, &low) {
                    Some(x) => x,
                    None => {
                        return None;
                    },
                };
                let scaled_diff = (price_diff as u128) * (BPS_DENOMINATOR as u128);
                if scaled_diff > fees {
                    let profit = scaled_diff - fees;
                    return Some(TradeOpportunity { high, low, price_diff, fees, profit });
                }
                None
            },
            None => None,
        }
    }

    /// Replays two aligned candle series through a fresh detector starting
    /// with 500 dollars and 1000 coins on each exchange, and returns the
    /// trades made: whenever a trade signal appears, up to 80 % of the funds
    /// on the cheap exchange buy coins there (capped by the coins held on the
    /// dear exchange) that are sold on the dear exchange, provided more than
    /// one coin changes hands and the buying side can pay.
    pub fn backtest(&mut self, coinbase_records: &Vec<Record>, binance_records: &Vec<Record>) -> (r:
        Vec<BacktestTrade>)
        requires
            dates_aligned(coinbase_records@, binance_records@),
        ensures
            *final(self) == *old(self),
            r@ == backtest_run(
                coinbase_records@,
                binance_records@,
                paired_len(coinbase_records@.len() as int, binance_records@.len() as int),
            ).1,
    {
        let n = if coinbase_records.len() < binance_records.len() {
            coinbase_records.len()
        } else {
            binance_records.len()
        };
        let mut funds = BacktestFunds {
            coinbase_funds: BACKTEST_START_FUNDS,
            binance_funds: BACKTEST_START_FUNDS,
        };
        let mut trades: Vec<BacktestTrade> = Vec::new();
        let mut tlr = Talaria::new();
        let mut i: usize = 0;
        proof {
            reveal_strlit("coinbase");
            reveal_strlit("binance");
            assert("coinbase"@[0] != "binance"@[0]);
        }
        while i < n
            invariant
                n == paired_len(coinbase_records@.len() as int, binance_records@.len() as int),
                i <= n,
                n <= coinbase_records@.len(),
                n <= binance_records@.len(),
                tlr.fees() == standard_fees(),
                i == 0 ==> tlr.prices() == Seq::<QuoteView>::empty(),
                i > 0 ==> tlr.prices() == seq![
                    ("coinbase"@, coinbase_records@[i - 1].close),
                    ("binance"@, binance_records@[i - 1].close),
                ],
                (funds, trades@) == backtest_run(coinbase_records@, binance_records@, i as int),
                "coinbase"@ != "binance"@,
            decreases n - i,
        {
            let coinbase_record = &coinbase_records[i];
            let binance_record = &binance_records[i];
            let ghost before = tlr.prices();
            tlr.update_exchange_price("coinbase".to_owned(), coinbase_record.close);
            proof {
                if i > 0 {
                    lemma_index_of_unique(before, 0);
                }
                assert(tlr.prices() =~= seq![("coinbase"@, coinbase_record.close)] || (i > 0
                    && tlr.prices() =~= before.update(0, ("coinbase"@, coinbase_record.close))));
            }
            let ghost middle = tlr.prices();
            tlr.update_exchange_price("binance".to_owned(), binance_record.close);
            proof {
                if i > 0 {
                    lemma_index_of_unique(middle, 1);
                } else {
                    assert(!has_name(middle, "binance"@));
                }
            }
            let ghost prices = seq![
                ("coinbase"@, coinbase_record.close),
                ("binance"@, binance_record.close),
            ];
            assert(tlr.prices() =~= prices);
            let (next, trade) = backtest_step_exec(
                &mut tlr,
                funds,
                coinbase_record.date,
            );
            funds = next;
            match trade {
                Some(t) => trades.push(t),
                None => {},
            }
            i = i + 1;
        }
        trades
    }

    /// A second backtest, not yet written: it leaves the detector as it is.
    pub fn backtest_v2(&mut self)
        ensures
            *final(self) == *old(self),
    {
    }

    /// Whether both exchanges of the best pair, if any, have a known fee, so
    /// that `check_for_trade_and_value` can price the trade.
    pub fn fees_known_for_best_pair(&mut self) -> (r: bool)
        ensures
            *final(self) == *old(self),
            r == fees_cover_pair(old(self).prices(), old(self).fees()),
    {
        proof {
            use_type_invariant(&*self);
        }
        match self.find_best_trade_pair() {
            Some((high, low)) => {
                let a = self.exchange_fee(&high.0);
                let b = self.exchange_fee(&low.0);
                a.is_some() && b.is_some()
            },
            None => true,
        }
    }

    /// The fees of trading one unit across `high` and `low`, in basis-point
    /// units of the price, when both exchanges have a known fee.
    fn pair_fee_amount(&self, high: &(String, u64), low: &(String, u64)) -> (r: Option<u128>)
        ensures
            r is Some <==> has_name(self.fees(), high.0@) && has_name(self.fees(), low.0@),
            r matches Some(x) ==> x == pair_fees(quote_view(*high), quote_view(*low), self.fees()),
    {
        proof {
            use_type_invariant(&*self);
        }
        let ghost f = self.fees();
        let high_fee = match self.exchange_fee(&high.0) {
            Some(fee) => fee,
            None => {
                return None;
            },
        };
        let low_fee = match self.exchange_fee(&low.0) {
            Some(fee) => fee,
            None => {
                return None;
            },
        };
        proof {
            lemma_fee_bounded(f, high.0@);
            lemma_fee_bounded(f, low.0@);
            assert((high.1 as u128) * (high_fee as u128) <= 0xffff_ffff_ffff_ffffu128
                * 10000u128) by (nonlinear_arith)
                requires
                    high_fee <= 10000,
            ;
            assert((low.1 as u128) * (low_fee as u128) <= 0xffff_ffff_ffff_ffffu128
                * 10000u128) by (nonlinear_arith)
                requires
                    low_fee <= 10000,
            ;
        }
        Some((high.1 as u128) * (high_fee as u128) + (low.1 as u128) * (low_fee as u128))
    }

    /// The best pair and its price difference, when the difference is larger
    /// than the fees of buying one unit on the cheap exchange and selling it
    /// on the dear one.
    pub fn check_for_trade_and_value(&mut self) -> (r: Option<(ExchangePair, u64)>)
        requires
            fees_cover_pair(old(self).prices(), old(self).fees()),
        ensures
            *final(self) == *old(self),
            match r {
                Some((p, diff)) => trade_signal(old(self).prices(), old(self).fees()) == Some(
                    (pair_view(p), diff),
                ),
                None => trade_signal(old(self).prices(), old(self).fees()) is None,
            },
    {
        proof {
            use_type_invariant(&*self);
        }
        let ghost s = self.prices();
        match self.find_best_trade_pair() {
            Some((high, low)) => {
                proof {
                    let a = choose|k: int| is_first_max(s, k);
                    let b = choose|k: int| is_first_min(s, k);
                    assert(is_first_max(s, a) && is_first_min(s, b)) by {
                        lemma_first_extremes_exist(s);
                    }
                    assert(s[b].1 <= s[a].1);
                }
                let price_diff = high.1 - low.1;
                let fee_1unit = match self.pair_fee_amount(&high, &low) {
                    Some(x) => x,
                    None => {
                        return None;
                    },
                };
                if (price_diff as u128) * (BPS_DENOMINATOR as u128) > fee_1unit {
                    return Some(((high, low), price_diff));
                }
                None
            },
            None => None,
        }
    }
}


/// A trade worth making: the exchange to sell on (`high`), the exchange to
/// buy on (`low`), their price difference, and the fees of trading one unit
/// and the profit left, both in basis-point units of the price.
pub struct TradeOpportunity {
    pub high: (String, u64),
    pub low: (String, u64),
    pub price_diff: u64,
    pub fees: u128,
    pub profit: u128,
}

/// Funds each backtest account starts with: 500 dollars in price units
/// (`record::PRICE_SCALE` per dollar).
pub const BACKTEST_START_FUNDS: u128 = 500u128 * 100000000u128;

/// Coins each backtest account holds: 1000.
pub const BACKTEST_COINS: u64 = 1000u64;

/// Funds of the two backtest accounts, in price units.
#[derive(Clone, Copy, Debug, PartialEq, Eq, Structural)]
pub struct BacktestFunds {
    pub coinbase_funds: u128,
    pub binance_funds: u128,
}

/// A backtest trade: the candle's date, whether coins were sold on Coinbase
/// (and bought on Binance) or the other way round, and the funds after it.
#[derive(Clone, Copy, Debug, PartialEq, Eq, Structural)]
pub struct BacktestTrade {
    pub date: u64,
    pub sold_on_coinbase: bool,
    pub coinbase_funds: u128,
    pub binance_funds: u128,
}

/// How many candle pairs two series of these lengths line up.
pub open spec fn paired_len(a: int, b: int) -> int {
    if a < b {
        a
    } else {
        b
    }
}

/// The amounts of a backtest trade, or `None` when it is not made. The
/// buying account spends 80 % of its `funds` at the `low` price, or buys all
/// the coins held when that would buy more (or the price is zero); the trade
/// is made when more than one coin changes hands and the buyer's funds
/// exceed the price of the coins plus the fee. The result is what the
/// selling account receives and what the buying account pays, fees
/// included, each rounded down to a whole price unit; every decision is
/// taken on the exact amounts.
pub open spec fn trade_amounts(funds: u128, high: u64, low: u64, high_fee: u64, low_fee: u64) -> Option<
    (int, int),
> {
    let coins = BACKTEST_COINS as int;
    let f = funds as int;
    if low > 0 && 8 * f < 10 * low * coins {
        if 8 * f > 10 * low && 100000 * f > 8 * f * (10000 + low_fee) {
            Some(
                (
                    (high * (8 * f * (10000 + high_fee))) / (100000 * low),
                    (8 * f * (10000 + low_fee)) / 100000,
                ),
            )
        } else {
            None
        }
    } else {
        if coins > 1 && 10000 * f > low * coins * (10000 + low_fee) {
            Some(
                (
                    (high * coins * (10000 + high_fee)) / 10000,
                    (low * coins * (10000 + low_fee)) / 10000,
                ),
            )
        } else {
            None
        }
    }
}

/// `a + b`, held at the largest `u128` when it would exceed it.
pub open spec fn add_capped(a: u128, b: int) -> u128 {
    if a + b > u128::MAX {
        u128::MAX
    } else {
        (a + b) as u128
    }
}

/// One backtest candle: the funds after it and the trade made, if any, when
/// Coinbase closed at `cb` and Binance at `bn`.
pub open spec fn backtest_step(funds: BacktestFunds, date: u64, cb: u64, bn: u64) -> (
    BacktestFunds,
    Option<BacktestTrade>,
) {
    let prices = seq![("coinbase"@, cb), ("binance"@, bn)];
    let fees = standard_fees();
    match trade_signal(prices, fees) {
        Some(((high, low), _)) => {
            let high_fee = value_of(fees, high.0);
            let low_fee = value_of(fees, low.0);
            if high.0 == "coinbase"@ {
                match trade_amounts(funds.binance_funds, high.1, low.1, high_fee, low_fee) {
                    Some((sell, buy)) => {
                        let next = BacktestFunds {
                            coinbase_funds: add_capped(funds.coinbase_funds, sell),
                            binance_funds: (funds.binance_funds - buy) as u128,
                        };
                        (
                            next,
                            Some(
                                BacktestTrade {
                                    date,
                                    sold_on_coinbase: true,
                                    coinbase_funds: next.coinbase_funds,
                                    binance_funds: next.binance_funds,
                                },
                            ),
                        )
                    },
                    None => (funds, None),
                }
            } else if high.0 == "binance"@ {
                match trade_amounts(funds.coinbase_funds, high.1, low.1, high_fee, low_fee) {
                    Some((sell, buy)) => {
                        let next = BacktestFunds {
                            coinbase_funds: (funds.coinbase_funds - buy) as u128,
                            binance_funds: add_capped(funds.binance_funds, sell),
                        };
                        (
                            next,
                            Some(
                                BacktestTrade {
                                    date,
                                    sold_on_coinbase: false,
                                    coinbase_funds: next.coinbase_funds,
                                    binance_funds: next.binance_funds,
                                },
                            ),
                        )
                    },
                    None => (funds, None),
                }
            } else {
                (funds, None)
            }
        },
        None => (funds, None),
    }
}

/// Funds after, and trades made during, the first `n` candle pairs.
pub open spec fn backtest_run(cb: Seq<Record>, bn: Seq<Record>, n: int) -> (
    BacktestFunds,
    Seq<BacktestTrade>,
)
    decreases n,
{
    if n <= 0 {
        (
            BacktestFunds {
                coinbase_funds: BACKTEST_START_FUNDS,
                binance_funds: BACKTEST_START_FUNDS,
            },
            Seq::empty(),
        )
    } else {
        let (funds, trades) = backtest_run(cb, bn, n - 1);
        let (next, trade) = backtest_step(funds, cb[n - 1].date, cb[n - 1].close, bn[n - 1].close);
        match trade {
            Some(t) => (next, trades.push(t)),
            None => (next, trades),
        }
    }
}

/// The best pair holds the highest and the lowest price of the list, the
/// highest strictly above the lowest, on two different exchanges; there is
/// no pair exactly when all prices are equal.
pub proof fn lemma_best_pair_extremes(s: Seq<QuoteView>)
    requires
        names_distinct(s),
    ensures
        best_trade_pair(s) is None <==> !prices_differ(s),
        best_trade_pair(s) matches Some((high, low)) ==> {
            &&& high.1 > low.1
            &&& high.0 != low.0
            &&& forall|i: int| 0 <= i < s.len() ==> low.1 <= #[trigger] s[i].1 <= high.1
            &&& has_name(s, high.0) && value_of(s, high.0) == high.1
            &&& has_name(s, low.0) && value_of(s, low.0) == low.1
        },
{
    if prices_differ(s) {
        lemma_first_extremes_exist(s);
        let a = choose|k: int| is_first_max(s, k);
        let b = choose|k: int| is_first_min(s, k);
        let (i, j) = choose|i: int, j: int| 0 <= i < s.len() && 0 <= j < s.len() && s[i].1 != s[j].1;
        assert(s[b].1 <= s[i].1 <= s[a].1);
        assert(s[b].1 <= s[j].1 <= s[a].1);
        assert(a != b);
        if a < b {
            assert(s[a].0 != s[b].0);
        } else {
            assert(s[b].0 != s[a].0);
        }
        lemma_index_of_unique(s, a);
        lemma_index_of_unique(s, b);
    }
}


/// Candles paired by position carry the same date.
pub open spec fn dates_aligned(cb: Seq<Record>, bn: Seq<Record>) -> bool {
    forall|i: int| 0 <= i < cb.len() && 0 <= i < bn.len() ==> #[trigger] cb[i].date == bn[i].date
}

/// How many leading candle pairs carry the same date: the index of the
/// first pair whose dates differ, or the number of pairs when none does.
/// A replay may run over exactly that many pairs.
pub fn aligned_len(coinbase_records: &Vec<Record>, binance_records: &Vec<Record>) -> (r: usize)
    ensures
        r <= paired_len(coinbase_records@.len() as int, binance_records@.len() as int),
        dates_aligned(coinbase_records@.take(r as int), binance_records@.take(r as int)),
        r < paired_len(coinbase_records@.len() as int, binance_records@.len() as int)
            ==> coinbase_records@[r as int].date != binance_records@[r as int].date,
{
    let n = if coinbase_records.len() < binance_records.len() {
        coinbase_records.len()
    } else {
        binance_records.len()
    };
    let mut i: usize = 0;
    while i < n && coinbase_records[i].date == binance_records[i].date
        invariant
            n == paired_len(coinbase_records@.len() as int, binance_records@.len() as int),
            i <= n,
            forall|k: int| 0 <= k < i ==> #[trigger] coinbase_records@[k].date
                == binance_records@[k].date,
        decreases n - i,
    {
        i = i + 1;
    }
    i
}

/// Funds of both accounts after a backtest trade.
pub open spec fn trade_total(t: BacktestTrade) -> int {
    t.coinbase_funds + t.binance_funds
}

/// The first `n` steps of a replay read only the first `n` candle pairs.
pub proof fn lemma_backtest_prefix(
    cb: Seq<Record>,
    bn: Seq<Record>,
    cb2: Seq<Record>,
    bn2: Seq<Record>,
    n: int,
)
    requires
        forall|i: int| 0 <= i < n ==> cb[i] == cb2[i] && bn[i] == bn2[i],
    ensures
        backtest_run(cb, bn, n) == backtest_run(cb2, bn2, n),
    decreases n,
{
    if n > 0 {
        lemma_backtest_prefix(cb, bn, cb2, bn2, n - 1);
        assert(cb[n - 1] == cb2[n - 1] && bn[n - 1] == bn2[n - 1]);
    }
}

/// Appending candles to one series, one that is not the shorter, changes
/// nothing: the replay gives the same funds and trades, and the dates line
/// up (so a replay is allowed) exactly when they did before.
pub proof fn lemma_backtest_extension(
    cb: Seq<Record>,
    bn: Seq<Record>,
    more_cb: Seq<Record>,
    more_bn: Seq<Record>,
)
    requires
        more_cb.len() == 0 || more_bn.len() == 0,
        more_cb.len() > 0 ==> cb.len() >= bn.len(),
        more_bn.len() > 0 ==> bn.len() >= cb.len(),
    ensures
        paired_len((cb + more_cb).len() as int, (bn + more_bn).len() as int) == paired_len(
            cb.len() as int,
            bn.len() as int,
        ),
        backtest_run(
            cb + more_cb,
            bn + more_bn,
            paired_len((cb + more_cb).len() as int, (bn + more_bn).len() as int),
        ) == backtest_run(cb, bn, paired_len(cb.len() as int, bn.len() as int)),
        dates_aligned(cb + more_cb, bn + more_bn) == dates_aligned(cb, bn),
{
    let n = paired_len(cb.len() as int, bn.len() as int);
    assert forall|i: int| 0 <= i < n implies cb[i] == (cb + more_cb)[i] && bn[i] == (bn
        + more_bn)[i] by {}
    lemma_backtest_prefix(cb, bn, cb + more_cb, bn + more_bn, n);
    if dates_aligned(cb, bn) {
        assert forall|i: int|
            0 <= i < (cb + more_cb).len() && 0 <= i < (bn + more_bn).len() implies #[trigger] (cb
            + more_cb)[i].date == (bn + more_bn)[i].date by {
            assert(i < n);
            assert(cb[i].date == bn[i].date);
        }
    }
    if dates_aligned(cb + more_cb, bn + more_bn) {
        assert forall|i: int| 0 <= i < cb.len() && 0 <= i < bn.len() implies #[trigger] cb[i].date
            == bn[i].date by {
            assert((cb + more_cb)[i].date == (bn + more_bn)[i].date);
        }
    }
}

/// Bound on what one backtest trade pays the selling account.
pub const TRADE_GAIN_BOUND: u128 = 0x1_0000_0000_0000_0000_0000u128;

/// How much a backtest trade moves. When the price on the cheap exchange is
/// zero, or 80 % of the buyer's funds would buy at least `BACKTEST_COINS`
/// coins, all `BACKTEST_COINS` coins held change hands, and the trade is made
/// exactly when the buyer's funds exceed their price plus fee: the seller
/// receives their price at `high` plus the seller's fee, the buyer pays their
/// price at `low` plus the buyer's fee. Otherwise 80 % of the buyer's funds
/// are spent, and the trade is made exactly when that buys more than one
/// coin and the buyer's funds exceed it plus fee. Whenever a trade is made
/// the buyer can pay for it.
pub proof fn lemma_trade_amounts_law(funds: u128, high: u64, low: u64, high_fee: u64, low_fee: u64)
    ensures
        low == 0 || 8 * funds >= 10 * low * BACKTEST_COINS ==> trade_amounts(
            funds,
            high,
            low,
            high_fee,
            low_fee,
        ) == (if 10000 * funds > low * BACKTEST_COINS * (10000 + low_fee) {
            Some(
                (
                    (high * BACKTEST_COINS * (10000 + high_fee)) / 10000,
                    (low * BACKTEST_COINS * (10000 + low_fee)) / 10000,
                ),
            )
        } else {
            None
        }),
        low > 0 && 8 * funds < 10 * low * BACKTEST_COINS ==> trade_amounts(
            funds,
            high,
            low,
            high_fee,
            low_fee,
        ) == (if 8 * funds > 10 * low && 100000 * funds > 8 * funds * (10000 + low_fee) {
            Some(
                (
                    (high * (8 * funds * (10000 + high_fee))) / (100000 * low),
                    (8 * funds * (10000 + low_fee)) / 100000,
                ),
            )
        } else {
            None
        }),
        trade_amounts(funds, high, low, high_fee, low_fee) matches Some((sell, buy)) ==> 0 <= buy
            < funds,
{
}

/// When a trade is made at equal fee rates, the buyer can pay, the seller
/// receives more than the buyer pays, and what the seller receives stays
/// below `TRADE_GAIN_BOUND`.
pub proof fn lemma_trade_amounts(funds: u128, high: u64, low: u64, fee: u64)
    requires
        low < high,
        fee <= BPS_DENOMINATOR,
    ensures
        trade_amounts(funds, high, low, fee, fee) matches Some((sell, buy)) ==> {
            &&& 0 <= buy < funds
            &&& buy < sell
            &&& sell < TRADE_GAIN_BOUND
        },
{
    let coins = BACKTEST_COINS as int;
    let f = funds as int;
    let k = 10000 + fee;
    let h = high as int;
    let l = low as int;
    if low > 0 && 8 * f < 10 * l * coins {
        if 8 * f > 10 * l && 100000 * f > 8 * f * k {
            let n = 8 * f * k;
            let m = 100000int;
            let b = n / m;
            lemma_fundamental_div_mod(n, m);
            lemma_mod_pos_bound(n, m);
            assert(b < f) by (nonlinear_arith)
                requires
                    n == m * b + n % m,
                    n % m >= 0,
                    100000 * f > n,
                    m == 100000,
            ;
            assert(h * n >= (b + 1) * (m * l)) by (nonlinear_arith)
                requires
                    n == 8 * f * k,
                    8 * f > 10 * l,
                    k >= 10000,
                    h >= l + 1,
                    l > 0,
                    n == m * b + n % m,
                    n % m >= 0,
                    m == 100000,
            ;
            lemma_div_is_ordered((b + 1) * (m * l), h * n, m * l);
            assert(((b + 1) * (m * l)) / (m * l) == b + 1) by (nonlinear_arith)
                requires
                    m * l > 0,
            ;
            assert(n < m * l * 20000) by (nonlinear_arith)
                requires
                    n == 8 * f * k,
                    8 * f < 10 * l * 1000,
                    0 < k <= 20000,
                    f >= 0,
                    l > 0,
                    m == 100000,
            ;
            assert(h * n <= h * 20000 * (m * l)) by (nonlinear_arith)
                requires
                    n < m * l * 20000,
                    h >= 0,
            ;
            lemma_div_is_ordered(h * n, h * 20000 * (m * l), m * l);
            assert((h * 20000 * (m * l)) / (m * l) == h * 20000) by (nonlinear_arith)
                requires
                    m * l > 0,
            ;
        }
    } else {
        let c = l * coins * k;
        let d = h * coins * k;
        let b = c / 10000;
        lemma_fundamental_div_mod(c, 10000);
        lemma_mod_pos_bound(c, 10000);
        assert(d >= c + 10000) by (nonlinear_arith)
            requires
                c == l * coins * k,
                d == h * coins * k,
                h >= l + 1,
                coins == 1000,
                k >= 10000,
        ;
        lemma_div_is_ordered(c + 10000, d, 10000);
        assert((c + 10000) / 10000 == b + 1);
        assert(d <= 0xffff_ffff_ffff_ffffint * 1000 * 20000) by (nonlinear_arith)
            requires
                d == h * coins * k,
                0 <= h <= 0xffff_ffff_ffff_ffffint,
                coins == 1000,
                0 <= k <= 20000,
        ;
        if 10000 * f > c {
            assert(b < f) by (nonlinear_arith)
                requires
                    c == 10000 * b + c % 10000,
                    c % 10000 >= 0,
                    10000 * f > c,
            ;
        }
    }
}

/// One backtest candle keeps both accounts above zero, and a trade raises
/// the funds of the two accounts together, by less than
/// `TRADE_GAIN_BOUND`, unless the selling account would pass the largest
/// `u128`.
pub proof fn lemma_backtest_step_gains(funds: BacktestFunds, date: u64, cb: u64, bn: u64)
    requires
        funds.coinbase_funds > 0,
        funds.binance_funds > 0,
    ensures
        backtest_step(funds, date, cb, bn).0.coinbase_funds > 0,
        backtest_step(funds, date, cb, bn).0.binance_funds > 0,
        backtest_step(funds, date, cb, bn).1 is None ==> backtest_step(funds, date, cb, bn).0
            == funds,
        backtest_step(funds, date, cb, bn).1 matches Some(t) ==> {
            &&& t.date == date
            &&& t.coinbase_funds == backtest_step(funds, date, cb, bn).0.coinbase_funds
            &&& t.binance_funds == backtest_step(funds, date, cb, bn).0.binance_funds
            &&& trade_total(t) < funds.coinbase_funds + funds.binance_funds + TRADE_GAIN_BOUND
            &&& funds.coinbase_funds + funds.binance_funds + TRADE_GAIN_BOUND <= u128::MAX
                ==> trade_total(t) > funds.coinbase_funds + funds.binance_funds
        },
{
    let prices = seq![("coinbase"@, cb), ("binance"@, bn)];
    reveal_strlit("coinbase");
    reveal_strlit("binance");
    assert("coinbase"@[0] != "binance"@[0]);
    assert(names_distinct(prices));
    lemma_standard_fees();
    lemma_best_pair_extremes(prices);
    lemma_best_pair_members(prices);
    match trade_signal(prices, standard_fees()) {
        Some(((high, low), _)) => {
            assert(best_trade_pair(prices) == Some((high, low)));
            assert(high.0 == "coinbase"@ || high.0 == "binance"@);
            assert(low.0 == "coinbase"@ || low.0 == "binance"@);
            if high.0 == "coinbase"@ {
                lemma_trade_amounts(funds.binance_funds, high.1, low.1, COINBASE_FEE_BPS);
            } else if high.0 == "binance"@ {
                lemma_trade_amounts(funds.coinbase_funds, high.1, low.1, BINANCE_FEE_BPS);
            }
        },
        None => {},
    }
}

/// Which way a backtest candle trades. A trade sells on the exchange that
/// closed higher and buys on the other: the selling account's funds do not
/// fall and the buying account's do not rise, and a candle without a trade
/// leaves the funds as they were. Conversely, when one exchange closes above
/// the other by more than the 0.1 % fees on both sides of one coin, and the
/// amounts of a trade from the cheap side's funds are due, the candle makes
/// that trade: the seller receives and the buyer pays exactly those amounts.
pub proof fn lemma_backtest_step_direction(funds: BacktestFunds, date: u64, cb: u64, bn: u64)
    ensures
        backtest_step(funds, date, cb, bn).1 is None ==> backtest_step(funds, date, cb, bn).0
            == funds,
        backtest_step(funds, date, cb, bn).1 matches Some(t) ==> {
            &&& t.date == date
            &&& t.coinbase_funds == backtest_step(funds, date, cb, bn).0.coinbase_funds
            &&& t.binance_funds == backtest_step(funds, date, cb, bn).0.binance_funds
            &&& t.sold_on_coinbase <==> cb > bn
            &&& t.sold_on_coinbase ==> t.coinbase_funds >= funds.coinbase_funds
                && t.binance_funds <= funds.binance_funds
            &&& !t.sold_on_coinbase ==> t.binance_funds >= funds.binance_funds
                && t.coinbase_funds <= funds.coinbase_funds
        },
        cb > bn && (cb - bn) * 10000 > cb * COINBASE_FEE_BPS + bn * BINANCE_FEE_BPS ==> (
        trade_amounts(funds.binance_funds, cb, bn, COINBASE_FEE_BPS, BINANCE_FEE_BPS) matches Some(
            (sell, buy),
        ) ==> backtest_step(funds, date, cb, bn).1 == Some(
            BacktestTrade {
                date,
                sold_on_coinbase: true,
                coinbase_funds: add_capped(funds.coinbase_funds, sell),
                binance_funds: (funds.binance_funds - buy) as u128,
            },
        )),
        bn > cb && (bn - cb) * 10000 > bn * BINANCE_FEE_BPS + cb * COINBASE_FEE_BPS ==> (
        trade_amounts(funds.coinbase_funds, bn, cb, BINANCE_FEE_BPS, COINBASE_FEE_BPS) matches Some(
            (sell, buy),
        ) ==> backtest_step(funds, date, cb, bn).1 == Some(
            BacktestTrade {
                date,
                sold_on_coinbase: false,
                coinbase_funds: (funds.coinbase_funds - buy) as u128,
                binance_funds: add_capped(funds.binance_funds, sell),
            },
        )),
{
    let prices = seq![("coinbase"@, cb), ("binance"@, bn)];
    reveal_strlit("coinbase");
    reveal_strlit("binance");
    assert("coinbase"@[0] != "binance"@[0]);
    assert(names_distinct(prices));
    lemma_standard_fees();
    lemma_best_pair_extremes(prices);
    lemma_best_pair_members(prices);
    assert(prices[0] == ("coinbase"@, cb));
    assert(prices[1] == ("binance"@, bn));
    lemma_trade_amounts_law(funds.binance_funds, cb, bn, COINBASE_FEE_BPS, BINANCE_FEE_BPS);
    lemma_trade_amounts_law(funds.coinbase_funds, bn, cb, BINANCE_FEE_BPS, COINBASE_FEE_BPS);
    if cb != bn {
        assert(prices_differ(prices)) by {
            assert(prices[0].1 != prices[1].1);
        }
    }
    match best_trade_pair(prices) {
        Some((high, low)) => {
            assert(high.0 == "coinbase"@ || high.0 == "binance"@);
            assert(low.0 == "coinbase"@ || low.0 == "binance"@);
            if high.0 == "coinbase"@ {
                assert(high.1 == cb);
                assert(low.0 == "binance"@);
                assert(low.1 == bn);
            } else {
                assert(high.1 == bn);
                assert(low.0 == "coinbase"@);
                assert(low.1 == cb);
            }
        },
        None => {},
    }
}

/// Over a replay both accounts stay above zero and their combined funds
/// grow by less than `TRADE_GAIN_BOUND` per candle; and over any replay of
/// at most 2^47 candle pairs the combined funds printed with each trade rise
/// strictly from one trade to the next, starting above the 1000 dollars the
/// two accounts begin with.
pub proof fn lemma_backtest_funds(cb: Seq<Record>, bn: Seq<Record>, n: int)
    ensures
        backtest_run(cb, bn, n).0.coinbase_funds > 0,
        backtest_run(cb, bn, n).0.binance_funds > 0,
        n >= 0 ==> backtest_run(cb, bn, n).0.coinbase_funds + backtest_run(cb, bn, n).0.binance_funds
            <= 2 * BACKTEST_START_FUNDS + n * TRADE_GAIN_BOUND,
        backtest_run(cb, bn, n).1.len() == 0 ==> backtest_run(cb, bn, n).0 == (BacktestFunds {
            coinbase_funds: BACKTEST_START_FUNDS,
            binance_funds: BACKTEST_START_FUNDS,
        }),
        backtest_run(cb, bn, n).1.len() > 0 ==> {
            &&& backtest_run(cb, bn, n).0.coinbase_funds == backtest_run(cb, bn, n).1.last().coinbase_funds
            &&& backtest_run(cb, bn, n).0.binance_funds == backtest_run(cb, bn, n).1.last().binance_funds
        },
        forall|k: int|
            0 <= k < backtest_run(cb, bn, n).1.len() ==> #[trigger] backtest_run(cb, bn, n).1[k].coinbase_funds
                > 0 && backtest_run(cb, bn, n).1[k].binance_funds > 0,
        n <= 0x8000_0000_0000int ==> {
            &&& forall|i: int, j: int|
                0 <= i < j < backtest_run(cb, bn, n).1.len() ==> trade_total(
                    #[trigger] backtest_run(cb, bn, n).1[i],
                ) < trade_total(#[trigger] backtest_run(cb, bn, n).1[j])
            &&& backtest_run(cb, bn, n).1.len() > 0 ==> trade_total(backtest_run(cb, bn, n).1[0])
                > 2 * BACKTEST_START_FUNDS
        },
    decreases n,
{
    if n > 0 {
        lemma_backtest_funds(cb, bn, n - 1);
        let (f, ts) = backtest_run(cb, bn, n - 1);
        lemma_backtest_step_gains(f, cb[n - 1].date, cb[n - 1].close, bn[n - 1].close);
        let (f2, t) = backtest_step(f, cb[n - 1].date, cb[n - 1].close, bn[n - 1].close);
        match t {
            Some(tr) => {
                let ts2 = ts.push(tr);
                assert(backtest_run(cb, bn, n).1 == ts2);
                assert forall|k: int| 0 <= k < ts.len() implies ts2[k] == ts[k] by {}
                assert(ts2[ts.len() as int] == tr);
                if n <= 0x8000_0000_0000int {
                    assert(f.coinbase_funds + f.binance_funds + TRADE_GAIN_BOUND <= u128::MAX);
                    assert(trade_total(tr) > f.coinbase_funds + f.binance_funds);
                    if ts.len() > 0 {
                        assert(f.coinbase_funds + f.binance_funds == trade_total(ts.last()));
                    }
                }
            },
            None => {
                assert(backtest_run(cb, bn, n).1 == ts);
            },
        }
    }
}

/// The entries of the best pair are entries of the list.
pub proof fn lemma_best_pair_members(s: Seq<QuoteView>)
    ensures
        best_trade_pair(s) matches Some((high, low)) ==> (exists|i: int|
            0 <= i < s.len() && s[i] == high) && (exists|j: int| 0 <= j < s.len() && s[j] == low),
{
    if prices_differ(s) {
        lemma_first_extremes_exist(s);
    }
}

/// `x * y / z` rounded down, for products wider than `u128`.
fn mul_div_floor(x: u64, y: u128, z: u128) -> (r: u128)
    requires
        0 < z < 0x4000_0000_0000_0000_0000_0000u128,
        y < 0x4000_0000_0000_0000_0000_0000u128,
        (x * y) / (z as int) < 0x100_0000_0000_0000_0000_0000_0000_0000int,
    ensures
        r == (x * y) / (z as int),
{
    let q1 = y / z;
    let r1 = y % z;
    let xh = (x / 0x1_0000_0000u64) as u128;
    let xl = (x % 0x1_0000_0000u64) as u128;
    proof {
        lemma_fundamental_div_mod(y as int, z as int);
        lemma_mod_pos_bound(y as int, z as int);
        assert(xh < 0x1_0000_0000u128);
        assert(xh * r1 < 0x1_0000_0000int * 0x4000_0000_0000_0000_0000_0000int) by (nonlinear_arith)
            requires
                xh < 0x1_0000_0000u128,
                r1 < 0x4000_0000_0000_0000_0000_0000u128,
        ;
        assert(xl * r1 < 0x1_0000_0000int * 0x4000_0000_0000_0000_0000_0000int) by (nonlinear_arith)
            requires
                xl < 0x1_0000_0000u128,
                r1 < 0x4000_0000_0000_0000_0000_0000u128,
        ;
    }
    let t = xh * r1;
    let q2 = t / z;
    let r2 = t % z;
    proof {
        lemma_fundamental_div_mod(t as int, z as int);
        lemma_mod_pos_bound(t as int, z as int);
        assert(q2 < 0x1_0000_0000int) by (nonlinear_arith)
            requires
                t == xh * r1,
                t == z * q2 + r2,
                0 <= r2,
                r1 < z,
                xh < 0x1_0000_0000u128,
                z > 0,
        ;
        assert(r2 * 0x1_0000_0000int < 0x4000_0000_0000_0000_0000_0000int * 0x1_0000_0000int)
            by (nonlinear_arith)
            requires
                r2 < 0x4000_0000_0000_0000_0000_0000u128,
        ;
        assert(x * q1 <= (x * y) / (z as int)) by {
            assert(x * q1 * z <= x * y) by (nonlinear_arith)
                requires
                    y == z * q1 + r1,
                    r1 >= 0,
                    x >= 0,
            ;
            lemma_div_is_ordered(x * q1 * z, x * y, z as int);
            assert((x * q1 * z) / (z as int) == x * q1) by (nonlinear_arith)
                requires
                    z > 0,
            ;
        }
    }
    let u = r2 * 0x1_0000_0000u128 + xl * r1;
    let head = (x as u128) * q1;
    let mid = q2 * 0x1_0000_0000u128;
    proof {
        let a = head + mid;
        assert(x * y == z * a + u) by (nonlinear_arith)
            requires
                y == z * q1 + r1,
                t == z * q2 + r2,
                t == xh * r1,
                x == xh * 0x1_0000_0000int + xl,
                u == r2 * 0x1_0000_0000int + xl * r1,
                a == x * q1 + q2 * 0x1_0000_0000int,
        ;
        lemma_fundamental_div_mod(u as int, z as int);
        lemma_mod_pos_bound(u as int, z as int);
        let q = (u as int) / (z as int);
        let rr = (u as int) % (z as int);
        assert(x * y == (a + q) * z + rr) by (nonlinear_arith)
            requires
                x * y == z * a + u,
                u == z * q + rr,
        ;
        lemma_fundamental_div_mod_converse(x * y, z as int, a + q, rr);
    }
    head + mid + u / z
}

/// `trade_amounts` computed.
fn trade_amounts_exec(funds: u128, high: u64, low: u64, high_fee: u64, low_fee: u64) -> (r: Option<
    (u128, u128),
>)
    requires
        high_fee <= BPS_DENOMINATOR,
        low_fee <= BPS_DENOMINATOR,
    ensures
        match r {
            Some((sell, buy)) => trade_amounts(funds, high, low, high_fee, low_fee) == Some(
                (sell as int, buy as int),
            ),
            None => trade_amounts(funds, high, low, high_fee, low_fee) is None,
        },
{
    let coins = BACKTEST_COINS as u128;
    let small = funds < 0x1_0000_0000_0000_0000_0000_0000u128;
    proof {
        assert((low as int) * 1000 * 10 < 0x1_0000_0000_0000_0000_0000int) by (nonlinear_arith)
            requires
                low <= 0xffff_ffff_ffff_ffffu64,
        ;
    }
    if low > 0 && small && 8 * funds < 10 * (low as u128) * coins {
        let f8 = 8 * funds;
        let high_rate = 10000 + (high_fee as u128);
        let low_rate = 10000 + (low_fee as u128);
        proof {
            assert(f8 * low_rate < 0xffff_ffff_ffff_ffffint * 10000 * 20000) by (nonlinear_arith)
                requires
                    f8 < 10 * low * 1000,
                    low <= 0xffff_ffff_ffff_ffffint,
                    0 < low_rate <= 20000,
            ;
            assert(f8 * high_rate < 0xffff_ffff_ffff_ffffint * 10000 * 20000) by (nonlinear_arith)
                requires
                    f8 < 10 * low * 1000,
                    low <= 0xffff_ffff_ffff_ffffint,
                    0 < high_rate <= 20000,
            ;
        }
        if f8 > 10 * (low as u128) && 100000 * funds > f8 * low_rate {
            let y = f8 * high_rate;
            let z = 100000 * (low as u128);
            proof {
                assert((high * y) / (z as int) <= high * 20000int) by {
                    assert(y < z * 20000) by (nonlinear_arith)
                        requires
                            y == f8 * high_rate,
                            f8 < 10 * low * 1000,
                            high_rate <= 20000,
                            z == 100000 * low,
                    ;
                    assert(high * y <= high * 20000int * z) by (nonlinear_arith)
                        requires
                            y < z * 20000,
                            high >= 0,
                    ;
                    lemma_div_is_ordered(high * y, high * 20000int * z, z as int);
                    assert((high * 20000int * z) / (z as int) == high * 20000int) by (nonlinear_arith)
                        requires
                            z > 0,
                    ;
                }
            }
            let sell = mul_div_floor(high, y, z);
            let buy = (f8 * low_rate) / 100000;
            return Some((sell, buy));
        }
        None
    } else {
        let low_rate = 10000 + (low_fee as u128);
        let high_rate = 10000 + (high_fee as u128);
        proof {
            assert((low as int) * 1000 * low_rate <= 0xffff_ffff_ffff_ffffint * 1000 * 20000)
                by (nonlinear_arith)
                requires
                    low <= 0xffff_ffff_ffff_ffffu64,
                    low_rate <= 20000,
            ;
            assert((high as int) * 1000 * high_rate <= 0xffff_ffff_ffff_ffffint * 1000 * 20000)
                by (nonlinear_arith)
                requires
                    high <= 0xffff_ffff_ffff_ffffu64,
                    high_rate <= 20000,
            ;
        }
        let price_in = (low as u128) * coins * low_rate;
        let can_pay = !small || 10000 * funds > price_in;
        if coins > 1 && can_pay {
            let sell = (high as u128) * coins * high_rate / 10000;
            let buy = price_in / 10000;
            return Some((sell, buy));
        }
        None
    }
}

/// `add_capped` computed.
fn add_capped_exec(a: u128, b: u128) -> (r: u128)
    ensures
        r == add_capped(a, b as int),
{
    a.saturating_add(b)
}

/// One backtest candle, on a detector that already holds the candle's two prices.
fn backtest_step_exec(tlr: &mut Talaria, funds: BacktestFunds, date: u64) -> (r: (
    BacktestFunds,
    Option<BacktestTrade>,
))
    requires
        old(tlr).fees() == standard_fees(),
        old(tlr).prices().len() == 2,
        old(tlr).prices()[0].0 == "coinbase"@,
        old(tlr).prices()[1].0 == "binance"@,
    ensures
        *final(tlr) == *old(tlr),
        r == backtest_step(funds, date, old(tlr).prices()[0].1, old(tlr).prices()[1].1),
{
    proof {
        use_type_invariant(&*tlr);
    }
    proof {
        lemma_standard_fees();
        lemma_best_pair_members(tlr.prices());
    }
    let ghost prices = tlr.prices();
    assert(prices =~= seq![("coinbase"@, prices[0].1), ("binance"@, prices[1].1)]);
    match tlr.check_for_trade_and_value() {
        Some(((high, low), _price_diff)) => {
            let high_fee = match tlr.exchange_fee(&high.0) {
                Some(fee) => fee,
                None => {
                    return (funds, None);
                },
            };
            let low_fee = match tlr.exchange_fee(&low.0) {
                Some(fee) => fee,
                None => {
                    return (funds, None);
                },
            };
            proof {
                lemma_fee_bounded(standard_fees(), high.0@);
                lemma_fee_bounded(standard_fees(), low.0@);
            }
            if high.0 == "coinbase".to_owned() {
                match trade_amounts_exec(funds.binance_funds, high.1, low.1, high_fee, low_fee) {
                    Some((sell, buy)) => {
                        let next = BacktestFunds {
                            coinbase_funds: add_capped_exec(funds.coinbase_funds, sell),
                            binance_funds: funds.binance_funds - buy,
                        };
                        let trade = BacktestTrade {
                            date,
                            sold_on_coinbase: true,
                            coinbase_funds: next.coinbase_funds,
                            binance_funds: next.binance_funds,
                        };
                        (next, Some(trade))
                    },
                    None => (funds, None),
                }
            } else if high.0 == "binance".to_owned() {
                match trade_amounts_exec(funds.coinbase_funds, high.1, low.1, high_fee, low_fee) {
                    Some((sell, buy)) => {
                        let next = BacktestFunds {
                            coinbase_funds: funds.coinbase_funds - buy,
                            binance_funds: add_capped_exec(funds.binance_funds, sell),
                        };
                        let trade = BacktestTrade {
                            date,
                            sold_on_coinbase: false,
                            coinbase_funds: next.coinbase_funds,
                            binance_funds: next.binance_funds,
                        };
                        (next, Some(trade))
                    },
                    None => (funds, None),
                }
            } else {
                (funds, None)
            }
        },
        None => (funds, None),
    }
}

/// A list with two different prices has a first highest and a first lowest entry.
pub proof fn lemma_first_extremes_exist(s: Seq<QuoteView>)
    requires
        s.len() > 0,
    ensures
        exists|i: int| is_first_max(s, i),
        exists|i: int| is_first_min(s, i),
    decreases s.len(),
{
    if s.len() == 1 {
        assert(is_first_max(s, 0));
        assert(is_first_min(s, 0));
    } else {
        let t = s.drop_last();
        lemma_first_extremes_exist(t);
        let a = choose|i: int| is_first_max(t, i);
        let b = choose|i: int| is_first_min(t, i);
        let last = s.len() - 1;
        assert(forall|j: int| 0 <= j < t.len() ==> t[j] == s[j]);
        if s[last].1 > t[a].1 {
            assert(is_first_max(s, last));
        } else {
            assert(is_first_max(s, a));
        }
        if s[last].1 < t[b].1 {
            assert(is_first_min(s, last));
        } else {
            assert(is_first_min(s, b));
        }
    }
}

/// Fee rates recorded in a well-formed list are at most the whole.
proof fn lemma_fee_bounded(f: Seq<QuoteView>, name: Seq<char>)
    requires
        has_name(f, name),
        forall|i: int| 0 <= i < f.len() ==> #[trigger] f[i].1 <= BPS_DENOMINATOR,
    ensures
        value_of(f, name) <= BPS_DENOMINATOR,
{
    let k = index_of(f, name);
    assert(f[k].1 <= BPS_DENOMINATOR);
}

} // verus!
