# mantis_infra

The infrastructure layer of a trading bot: the message bus that connects its
actors, the supervisor that watches them, and the rules that the risk,
execution, market-data, collector, cache and database actors apply. The
rules are written in Verus and proved against their contracts.

Layout:

- `src/` — the verified library.
  - `bus.rs`: subscriptions, deduplication of events and buy orders,
    delivery bookkeeping, maintenance and the recovery back-off.
  - `supervisor.rs`: the actor registry, health probes and the health report.
  - `risk.rs`: the halt list and the trading gate, risk-limit reports,
    anomaly handling and signal screening.
  - `execution.rs`: DEX transaction tracking, position-check claims and the
    buy and sell checks.
  - `market.rs`, `collector.rs`: provider choice, stream connection policy,
    back-offs, the watch list and batch flushing.
  - `cache.rs`, `database.rs`, `wallet.rs`: cache keys and flush order,
    database write routing and maintenance schedule, wallet queries.
  - `events.rs`: event types and queries.
  - `text.rs`, `assoc.rs`, `seqs.rs`, `strset.rs`, `clock.rs`: strings,
    association lists, filtered sequences, string sets, clock and randomness.
- `tests/` — tests of the library on concrete values.
- `app/` — the asynchronous runtime around it (tokio channels, the probing
  round, the database actor's writes, JSON reports) and the floating-point
  risk arithmetic.

The risk manager's part covers its limits, its events and its handling of
a strategy signal from the halt and token checks through the position
checks and the daily-loss and drawdown limits (`risk::signal_after_checks`);
the execution actor's part covers its orders, positions and background
tasks.

Times are milliseconds. The message bus keeps its own clock
(`MessageBus::clock_ms`, milliseconds since the bus was made, from the
monotonic clock): each reading is at least the one before it, which
`clock_ms` states, and `admit_event` reads it itself. The supervisor's
health records use the system clock (since the Unix epoch), and where that
clock cannot be read the functions that need it say so in their result.
Identifiers come from the operating system's random source; where it fails,
the functions that need one say so in their result.
