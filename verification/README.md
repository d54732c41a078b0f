# talaria

Arbitrage bookkeeping for a small crypto trading bot, written in Verus.

The library (`src/`) is verified:

- `talaria` — latest price per exchange, the best pair to trade (highest and
  lowest price), the fee-aware trade check, the trade opportunity with its
  profit, and the backtest that replays two candle series.
- `atalanta` — an earlier price tracker whose pair search never reports a pair.
- `record` — candle records, their chronological assembly from newest-first
  chunks, and the ordering check.
- `utilities::time_range` — time ranges walked in request-sized windows, and
  the fixed four-week history windows.
- `utilities::decimal` — decimal notation for request URLs.
- `exchanges` — per-exchange record construction, request URLs, the KuCoin
  download retry rule and the KuCoin stream session rule.
- `market`, `traders` — market actions, the buy/sell alternation law, and the
  decision rules of the indicator-driven traders.
- `config` — the command-line task.

Numbers are fixed-point integers: prices and volumes carry
`record::PRICE_SCALE` units per dollar or coin, fee rates are basis points,
indicator readings carry `market::READING_SCALE` units per point, and instants
are milliseconds since the Unix epoch.

`app/` is the program around it: network and file I/O, JSON, the technical
indicators (floating point, computed with the `ta` crate), threads and the
main loop.
