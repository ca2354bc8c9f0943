# flowsurface_data

Order-flow data engines for a charting workstation, written in Verus and
proved against their contracts.

Prices and quantities are fixed-point integers (`unit`), so every engine
computes exactly; ratios are parts per million and playback rates
thousandths.

- `src/` — the verified library:
  - `unit`, `sort`, `text`: fixed-point units, stable time ordering, trimming.
  - `depth`: an L2 book side by side, kept sorted.
  - `market`, `market_gateway`: provider-neutral market events, a queue
    adapter with sequence-gap detection, and framing of the JSONL gateway.
  - `orderflow`: speed windows, trade and book speed, trade-confirmed book
    consumption, book flow, advanced detectors (large trades, liquidity
    stack/pull, absorption, exhaustion, stop runs, large resting orders), the
    MBO queue model with iceberg candidates, and the pipeline that routes
    live and replayed events through all of them.
  - `replay`, `replay_session`: archives, recording, the playback clock,
    seeking, and an instrument-bound session.
  - `drawing`, `drawing_overlay`: the drawing store with undo/redo, magnet
    snapping, Fibonacci levels, and the overlay's decisions for each mouse,
    key and toolbar event.
  - `indicator`, `trade_speed_indicator`: the indicator catalogue and the
    Trade Speed indicator's bucketed data.
- `tests/` — tests of the library on concrete values.
- `app/` — plain Rust around the library: serde and thiserror copies of
  the library's types, JSON persistence, floating-point rates and
  formatting, and screen geometry for hit testing.
