# exec-rs

The strategy executor's core as a Verus-verified library, with a thin binary around it.

- `src/` — the verified library. Decimals (`decimal`), timestamps (`clock`), rate limits and
  reconnect throttling (`throttle`, with the cap over a whole run of attempts in
  `reconnect_window`), the risk guard (`risk`), order bookkeeping (`orders`,
  `positions`, `reconcile`), validation scorecards and machine planning (`validation`),
  live-mode gates and key handling (`live`, `digest`), the decisions of the paper, live and
  kill-switch runs (`runner`), and the steps of a live session that the binary drives: the
  pre-flight gates, the kill-switch plan, the paper validator and the smoke round trip
  (`session`), the Strategy Spec checks, JSON Schema validation included (`strategy_spec`), and the backtest:
  the spec as JSON (`json`), market data (`snapshot`), indicators, patterns and filters
  (`indicators`, `signals`), trading rules (`rules`), positions (`engine`), the replay
  (`simulate`), the heatmap and metrics (`report`, `kpis`). Properties that span several
  functions are proof functions in `laws`.
- `app/` — the binary: command line, file and network I/O, the exchange and telemetry clients,
  JSON (de)serialisation, and the few computations on floating-point numbers.
- `tests/` — tests of the library.
