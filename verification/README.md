# execution_engine

The order-routing service of a paper-trading system for US equities, with its
decision logic verified in Verus.

## Layout

- `src/` — the verified library:
  - `risk.rs`: the ordered risk rules for day-trading and swing signals, and
    their laws (a halt wins, the loss limit halts everything, a stricter
    situation never approves more, a HOLD places no order).
  - `config.rs`: validation of risk-setting updates.
  - `calendar.rs`: trading days, market hours, the end-of-day flatten and the
    once-a-day jobs, with laws over runs of ticks.
  - `positions.rs`: the position book and its reconciliation with the broker's
    holdings (per-symbol outcome, change list, idempotence).
  - `symbols.rs`, `models.rs`, `alpaca.rs`, `throttle.rs`, `text.rs`: symbol
    lists, shared types, broker configuration, the per-symbol order throttle and
    string helpers.
- `tests/` — tests on concrete values.
- `app/` — the service itself: HTTP handlers, broker and database I/O, the
  background loops, and the floating-point arithmetic on prices, which the
  library cannot hold. It turns prices into the facts that the library judges.

Verify with Verus on `src/lib.rs`; build and test with Cargo.
