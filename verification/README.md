# trading_engine

A signal-driven trading engine for the GMGlobal broker. Signals arrive over a
WebSocket; each is entered with a market order once the quote comes within a
small tolerance of the signal price, and the position is then protected by a
trailing stop-loss that only ever moves in the position's favour.

Layout:

- `src/` — the verified library (Verus). Prices are whole paise and stop
  prices 5-paise ticks, so all price arithmetic is exact.
  - `signal_receiver` — futures symbol mapping and signal message checks.
  - `signal_processor::entry` — the entry state machine, down to every
    argument of the orders and stop-loss it starts.
  - `signal_processor::stop_loss` — the trailing stop-loss state machine and
    its invariants (no new stop while one is known, stops only tighten,
    bounded retries).
  - `gmglobal_watcher` — broker reply handling: session renewal, order and
    deletion replies (read through `serde_json`), the deletion request and
    what follows a session error on it, the messages a request fails with,
    the handshake's session id,
    script table, order and position books, feed frames.
  - `price`, `number`, `text`, `text_map`, `trade`, `config`,
    `mock_market_data` — the pieces these rest on.
- `app/` — the program: HTTP and WebSocket I/O, the async loops that drive the
  state machines, decoding of the book and script tables, and the float
  conversions at the edges.
- `tests/` — scenario and unit tests of the library.
