use talaria::record::{Exchange, Record, PRICE_SCALE};
use talaria::talaria::{aligned_len, BacktestTrade, Talaria, BACKTEST_START_FUNDS};

fn price(whole: u64, hundredths: u64) -> u64 {
    whole * PRICE_SCALE + hundredths * (PRICE_SCALE / 100)
}

fn funds(whole: u64, hundredths: u64) -> u128 {
    price(whole, hundredths) as u128
}

#[test]
fn simple_test_talaria() {
    let mut tlr = Talaria::new();
    tlr.update_exchange_price("exchange1".to_owned(), price(1, 0));
    tlr.update_exchange_price("exchange2".to_owned(), price(1, 10));
    tlr.update_exchange_price("exchange3".to_owned(), price(1, 20));
    tlr.update_exchange_price("exchange1".to_owned(), price(1, 30));

    let (max_exchange, min_exchange) = tlr.find_best_trade_pair().unwrap();
    assert_eq!(max_exchange, ("exchange1".to_owned(), price(1, 30)));
    assert_eq!(min_exchange, ("exchange2".to_owned(), price(1, 10)));
}

#[test]
fn update_reads_back_latest_price() {
    let mut tlr = Talaria::new();
    tlr.update_exchange_price("kraken".to_owned(), 5);
    tlr.update_exchange_price("binance".to_owned(), 7);
    tlr.update_exchange_price("kraken".to_owned(), 9);
    assert_eq!(tlr.exchange_price(&"kraken".to_owned()), Some(9));
    assert_eq!(tlr.exchange_price(&"binance".to_owned()), Some(7));
    assert_eq!(tlr.exchange_price(&"coinbase".to_owned()), None);
}

#[test]
fn standard_fee_table() {
    let tlr = Talaria::new();
    assert_eq!(tlr.exchange_fee(&"coinbase".to_owned()), Some(10));
    assert_eq!(tlr.exchange_fee(&"binance".to_owned()), Some(10));
    assert_eq!(tlr.exchange_fee(&"kraken".to_owned()), Some(26));
    assert_eq!(tlr.exchange_fee(&"kucoin".to_owned()), None);
}

#[test]
fn no_pair_without_two_prices() {
    let mut tlr = Talaria::new();
    assert!(tlr.find_best_trade_pair().is_none());
    tlr.update_exchange_price("coinbase".to_owned(), 100);
    assert!(tlr.find_best_trade_pair().is_none());
    tlr.update_exchange_price("binance".to_owned(), 100);
    assert!(tlr.find_best_trade_pair().is_none());
}

#[test]
fn ties_go_to_the_first_reporter() {
    let mut tlr = Talaria::new();
    tlr.update_exchange_price("a".to_owned(), 5);
    tlr.update_exchange_price("b".to_owned(), 9);
    tlr.update_exchange_price("c".to_owned(), 9);
    tlr.update_exchange_price("d".to_owned(), 5);
    let (high, low) = tlr.find_best_trade_pair().unwrap();
    assert_eq!(high, ("b".to_owned(), 9));
    assert_eq!(low, ("a".to_owned(), 5));
}

#[test]
fn trade_needs_gap_above_fees() {
    // 0.1 % on each side: buying at 10000 and selling at 10020 costs
    // 10.02 + 10.00 = 20.02 units of fees, more than the 20 gained.
    let mut tlr = Talaria::new();
    tlr.update_exchange_price("coinbase".to_owned(), 10020);
    tlr.update_exchange_price("binance".to_owned(), 10000);
    assert!(tlr.fees_known_for_best_pair());
    assert!(tlr.check_for_trade_and_value().is_none());
    // At 10021 the gap of 21 beats 20.021 of fees.
    tlr.update_exchange_price("coinbase".to_owned(), 10021);
    let ((high, low), diff) = tlr.check_for_trade_and_value().unwrap();
    assert_eq!(high, ("coinbase".to_owned(), 10021));
    assert_eq!(low, ("binance".to_owned(), 10000));
    assert_eq!(diff, 21);
}

#[test]
fn trade_opportunity_reports_fees_and_profit() {
    let mut tlr = Talaria::new();
    tlr.update_exchange_price("kraken".to_owned(), 20000);
    tlr.update_exchange_price("binance".to_owned(), 10000);
    let o = tlr.trade_opportunity().unwrap();
    assert_eq!(o.high, ("kraken".to_owned(), 20000));
    assert_eq!(o.low, ("binance".to_owned(), 10000));
    assert_eq!(o.price_diff, 10000);
    // 20000 * 26 + 10000 * 10 basis-point units
    assert_eq!(o.fees, 620000);
    assert_eq!(o.profit, 10000 * 10000 - 620000);
}

#[test]
fn unknown_exchange_fee_is_flagged() {
    let mut tlr = Talaria::new();
    tlr.update_exchange_price("kucoin".to_owned(), 200);
    tlr.update_exchange_price("binance".to_owned(), 100);
    assert!(!tlr.fees_known_for_best_pair());
}

fn rec(exchange: Exchange, date: u64, close: u64) -> Record {
    Record { exchange, date, open: close, close, high: close, low: close, volume: 0 }
}

#[test]
fn backtest_sells_on_the_dear_exchange() {
    let mut tlr = Talaria::new();
    let cb = vec![rec(Exchange::Coinbase, 60, price(12, 0)), rec(Exchange::Coinbase, 120, price(10, 0))];
    let bn = vec![rec(Exchange::Binance, 60, price(10, 0)), rec(Exchange::Binance, 120, price(10, 0))];
    let trades = tlr.backtest(&cb, &bn);
    // 80 % of 500 dollars buys 40 coins at 10 dollars on Binance: 400 dollars
    // plus 0.40 of fees; they sell for 480 dollars plus 0.48 on Coinbase.
    let expected = BacktestTrade {
        date: 60,
        sold_on_coinbase: true,
        coinbase_funds: BACKTEST_START_FUNDS + funds(480, 48),
        binance_funds: BACKTEST_START_FUNDS - funds(400, 40),
    };
    assert_eq!(trades, vec![expected]);
}

#[test]
fn backtest_sells_on_binance_when_it_is_dear() {
    let mut tlr = Talaria::new();
    let cb = vec![rec(Exchange::Coinbase, 7, price(20, 0))];
    let bn = vec![rec(Exchange::Binance, 7, price(25, 0))];
    let trades = tlr.backtest(&cb, &bn);
    // 400 dollars buy 20 coins on Coinbase (400.40 with fees), sold for
    // 500 dollars (500.50 with fees) on Binance.
    assert_eq!(trades.len(), 1);
    assert_eq!(trades[0].sold_on_coinbase, false);
    assert_eq!(trades[0].coinbase_funds, BACKTEST_START_FUNDS - funds(400, 40));
    assert_eq!(trades[0].binance_funds, BACKTEST_START_FUNDS + funds(500, 50));
}

#[test]
fn backtest_skips_trades_of_a_coin_or_less() {
    let mut tlr = Talaria::new();
    // At 500 dollars a coin, 400 dollars buy less than one coin.
    let cb = vec![rec(Exchange::Coinbase, 1, price(600, 0))];
    let bn = vec![rec(Exchange::Binance, 1, price(500, 0))];
    assert!(tlr.backtest(&cb, &bn).is_empty());
}

#[test]
fn backtest_stops_at_the_shorter_series() {
    let mut tlr = Talaria::new();
    let cb = vec![rec(Exchange::Coinbase, 1, price(10, 0))];
    let bn = vec![rec(Exchange::Binance, 1, price(10, 0)), rec(Exchange::Binance, 2, price(1, 0))];
    assert!(tlr.backtest(&cb, &bn).is_empty());
}

#[test]
fn backtest_talaria() {
    let mut tlr = Talaria::new();
    let dates = [60u64, 120, 180, 240];
    let coinbase_closes = [price(10, 0), price(10, 50), price(10, 0), price(9, 0)];
    let binance_closes = [price(10, 0), price(10, 0), price(10, 0), price(10, 0)];
    let cb: Vec<Record> = dates
        .iter()
        .zip(coinbase_closes.iter())
        .map(|(d, c)| rec(Exchange::Coinbase, *d, *c))
        .collect();
    let bn: Vec<Record> = dates
        .iter()
        .zip(binance_closes.iter())
        .map(|(d, c)| rec(Exchange::Binance, *d, *c))
        .collect();
    let trades = tlr.backtest(&cb, &bn);
    assert_eq!(trades.len(), 2);
    assert_eq!((trades[0].date, trades[0].sold_on_coinbase), (120, true));
    assert_eq!((trades[1].date, trades[1].sold_on_coinbase), (240, false));
    // First trade: 40 coins bought on Binance for 400.40, sold on Coinbase
    // for 420.42.
    assert_eq!(trades[0].binance_funds, BACKTEST_START_FUNDS - funds(400, 40));
    assert_eq!(trades[0].coinbase_funds, BACKTEST_START_FUNDS + funds(420, 42));
    // Second trade: 80 % of the 920.42 dollars on Coinbase, 736.336 dollars,
    // buy 81.81... coins at 9 dollars; with 0.1 % fees Coinbase pays
    // 737.072336 dollars and Binance receives 818.96926222... dollars.
    assert_eq!(trades[1].coinbase_funds, 18_334_766_400);
    assert_eq!(trades[1].binance_funds, 91_856_926_222);
}

#[test]
fn backtest_trades_just_over_one_coin() {
    // 80 % of 500 dollars at 399.9999984 dollars a coin buys 1.000000004
    // coins: more than one, so the trade is made.
    let cb = vec![rec(Exchange::Coinbase, 5, price(500, 0))];
    let bn = vec![rec(Exchange::Binance, 5, 39_999_999_840)];
    let trades = Talaria::new().backtest(&cb, &bn);
    assert_eq!(trades.len(), 1);
    assert_eq!(trades[0].sold_on_coinbase, true);
    assert_eq!(trades[0].binance_funds, BACKTEST_START_FUNDS - 40_040_000_000);
    assert_eq!(trades[0].coinbase_funds, BACKTEST_START_FUNDS + 50_050_000_200);
}

#[test]
fn backtest_skips_a_trade_of_exactly_one_coin() {
    // 400 dollars buy exactly one coin at 400 dollars.
    let cb = vec![rec(Exchange::Coinbase, 5, price(500, 0))];
    let bn = vec![rec(Exchange::Binance, 5, price(400, 0))];
    assert!(Talaria::new().backtest(&cb, &bn).is_empty());
}

#[test]
fn backtest_ignores_unpaired_candles() {
    let cb = vec![rec(Exchange::Coinbase, 60, price(12, 0))];
    let bn = vec![rec(Exchange::Binance, 60, price(10, 0))];
    let mut longer = bn.clone();
    longer.push(rec(Exchange::Binance, 999, price(1, 0)));
    let a = Talaria::new().backtest(&cb, &bn);
    let b = Talaria::new().backtest(&cb, &longer);
    assert_eq!(a, b);
}

#[test]
fn backtest_totals_rise_and_funds_stay_positive() {
    let dates = [1u64, 2, 3, 4];
    let cb_closes = [price(11, 0), price(9, 0), price(12, 0), price(8, 0)];
    let cb: Vec<Record> = dates.iter().zip(cb_closes.iter()).map(|(d, c)| rec(Exchange::Coinbase, *d, *c)).collect();
    let bn: Vec<Record> = dates.iter().map(|d| rec(Exchange::Binance, *d, price(10, 0))).collect();
    let trades = Talaria::new().backtest(&cb, &bn);
    assert_eq!(trades.len(), 4);
    let mut last = 2 * BACKTEST_START_FUNDS;
    for t in &trades {
        assert!(t.coinbase_funds > 0 && t.binance_funds > 0);
        assert!(t.coinbase_funds + t.binance_funds > last);
        last = t.coinbase_funds + t.binance_funds;
    }
}

#[test]
fn aligned_len_stops_at_the_first_date_mismatch() {
    let cb: Vec<Record> = [1u64, 2, 3, 4].iter().map(|d| rec(Exchange::Coinbase, *d, 5)).collect();
    let bn: Vec<Record> = [1u64, 2, 7, 4, 5].iter().map(|d| rec(Exchange::Binance, *d, 5)).collect();
    assert_eq!(aligned_len(&cb, &bn), 2);
    assert_eq!(aligned_len(&cb, &bn[..2].to_vec()), 2);
    assert_eq!(aligned_len(&cb[..2].to_vec(), &bn), 2);
    assert_eq!(aligned_len(&cb, &Vec::new()), 0);
    let same: Vec<Record> = [1u64, 2, 3].iter().map(|d| rec(Exchange::Binance, *d, 5)).collect();
    assert_eq!(aligned_len(&cb, &same), 3);
}
