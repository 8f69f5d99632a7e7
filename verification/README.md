# quant_platform

A quantitative trading platform: market-data, feature, strategy, execution,
risk, storage and pricing services, an option pricer, and research
backtests (parameter grids, parameter-cube robustness, walk-forward
validation, cross-asset momentum, regime-adaptive defensive momentum), with
a low-latency pipeline benchmark.

## Layout

- `src/` — the verified library (Verus). It holds the decisions and data
  structures of the platform that work on integers, booleans and labels:
  - `book` — the level-2 order book (snapshot, incremental changes, best
    levels), keyed by the bit patterns of positive prices;
  - `json` — parsed JSON documents (parsed by `serde_json`) and the
    reading of their members;
  - `feed` — the exchange's snapshot, level-2 update and ticker messages
    read into events, and the second a trade falls in;
  - `messages` — the messages the services publish to one another
    (signals, fills, risk snapshots, features, ticks, books) read into
    records;
  - `execution` — the fill sent for a strategy signal;
  - `strategy` — the signal and regime rules over the strategies' threshold
    checks;
  - `risk` — the risk state from the limit checks;
  - `window` — the bounded window of recent observations;
  - `latency` — latency samples and their summary (min, max, percentiles,
    total);
  - `research` — grid, parameter-cube and walk-forward bookkeeping;
  - `regime` — which assets a market regime may hold, how many, the
    rebalancing calendar and the acceptance rule of a research result;
  - `text` — comparison of the labels the services exchange.
- `tests/` — tests of the library on concrete values.
- `app/` — the services and programs themselves (`quant <subcommand>`):
  I/O, HTTP/WebSocket/Redis/PostgreSQL plumbing, and all floating-point
  computation (prices, statistics, option models), calling the library for
  the rest.
