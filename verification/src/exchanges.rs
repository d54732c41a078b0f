pub mod binance;
pub mod coinbase;
pub mod kraken;
pub mod kucoin;
