use talaria::atalanta::Atalanta;
use talaria::config::{parse_command, parse_config, Command};
use talaria::exchanges::binance::BinanceExchange;
use talaria::exchanges::coinbase::CoinbaseExchange;
use talaria::exchanges::kraken::KrakenExchange;
use talaria::exchanges::kucoin::{KuCoinExchange, KuCoinSession};
use talaria::record::Exchange;

#[test]
fn kucoin_candles_url() {
    let url = KuCoinExchange::candles_url(1_650_000_000_500, 1_650_000_300_000);
    assert_eq!(
        url,
        "https://api.kucoin.com/api/v1/market/candles?symbol=ATOM-USDT&startAt=1650000000&endAt=1650000300&type=1min"
    );
}

#[test]
fn kraken_url_handles_zero_and_negative() {
    assert_eq!(KrakenExchange::ohlc_url(0), "https://api.kraken.com/0/public/OHLC?pair=ATOMUSD&since=0");
    assert_eq!(
        KrakenExchange::ohlc_url(-1500),
        "https://api.kraken.com/0/public/OHLC?pair=ATOMUSD&since=-2"
    );
    assert_eq!(
        KrakenExchange::ohlc_url(i64::MIN),
        "https://api.kraken.com/0/public/OHLC?pair=ATOMUSD&since=-9223372036854776"
    );
}

#[test]
fn kucoin_websocket_url() {
    assert_eq!(
        KuCoinExchange::websocket_url("wss://ws.example", "tok", "id1"),
        "wss://ws.example?token=tok&connectId=id1"
    );
}

#[test]
fn kucoin_retries_then_gives_up() {
    assert_eq!(KuCoinExchange::after_failed_download(3), Ok(2));
    assert_eq!(KuCoinExchange::after_failed_download(0), Err("quitting handle klies"));
}

#[test]
fn kucoin_session_subscribes_once_and_pings_every_other_message() {
    let mut s = KuCoinSession::new();
    let a1 = s.on_message();
    let a2 = s.on_message();
    let a3 = s.on_message();
    assert!(a1.send_subscription && a1.send_ping);
    assert!(!a2.send_subscription && !a2.send_ping);
    assert!(!a3.send_subscription && a3.send_ping);
}

#[test]
fn candle_columns_land_in_the_right_fields() {
    let k = KuCoinExchange::candle_record((1, 2, 3, 4, 5, 6, 7));
    assert_eq!((k.exchange, k.date, k.open, k.close, k.high, k.low, k.volume), (Exchange::Kucoin, 1, 2, 3, 4, 5, 6));
    let s = KuCoinExchange::stream_record(1_650_000_000_123_456_789, (0, 2, 3, 4, 5, 6, 7));
    assert_eq!(s.date, 1_650_000_000_123);
    let r = KrakenExchange::ohlc_record((1, 2, 3, 4, 5, 6, 7, 8));
    assert_eq!((r.date, r.open, r.high, r.low, r.close, r.volume), (1, 2, 3, 4, 5, 7));
    let c = CoinbaseExchange::candle_record((1, 2, 3, 4, 5, 6));
    assert_eq!((c.date, c.low, c.high, c.open, c.close, c.volume), (1, 2, 3, 4, 5, 6));
    let b = BinanceExchange::kline_record(1_650_000_000_999, 1, 2, 3, 4, 5);
    assert_eq!((b.date, b.open, b.high, b.low, b.close, b.volume), (1_650_000_000, 1, 2, 3, 4, 5));
    let b2 = BinanceExchange::stream_record(77, 1, 2, 3, 4, 5);
    assert_eq!((b2.date, b2.exchange), (77, Exchange::Binance));
}

#[test]
fn config_needs_an_argument() {
    let none: Vec<String> = vec!["prog".to_owned()];
    assert_eq!(parse_config(&none), Err("Error in main: Please provide an execution argument."));
    let some: Vec<String> = vec!["prog".to_owned(), "backtest".to_owned()];
    assert_eq!(parse_config(&some), Ok("backtest"));
    assert_eq!(parse_command("backtest"), Some(Command::Backtest));
    assert_eq!(parse_command("reset-data"), Some(Command::ResetData));
    assert_eq!(parse_command("talaria"), Some(Command::Talaria));
    assert_eq!(parse_command("__dev__"), Some(Command::Dev));
    assert_eq!(parse_command("other"), None);
}

#[test]
fn atalanta_never_finds_a_pair() {
    let mut a = Atalanta::new();
    assert!(a.find_best_trade_pair().is_none());
    a.update_exchange_price("x".to_owned(), 1);
    a.update_exchange_price("y".to_owned(), 9);
    assert!(a.find_best_trade_pair().is_none());
}

#[test]
fn binance_final_bar_only() {
    assert!(BinanceExchange::final_bar_record(false, 1_650_000_000_999, 1, 2, 3, 4, 5).is_none());
    let r = BinanceExchange::final_bar_record(true, 1_650_000_000_999, 1, 2, 3, 4, 5).unwrap();
    assert_eq!((r.date, r.open, r.high, r.low, r.close, r.volume), (1_650_000_000, 1, 2, 3, 4, 5));
}

#[test]
fn kraken_pair_url() {
    assert_eq!(
        KrakenExchange::pair_ohlc_url("XLMUSD", 1_650_000_000_000),
        "https://api.kraken.com/0/public/OHLC?pair=XLMUSD&since=1650000000"
    );
}
