# frankensearch (verified core)

A Verus library for the search-generation lifecycle of frankensearch and the
supporting pieces of asupersync: every function in `src/` carries a
`requires`/`ensures` contract proved by Verus, and the laws that span several
functions stand as public proof functions named `law_*`.

## Layout

- `src/` — the verified library, one module per concern:
  - `terminal` — terminal modes and the resize/focus/reconnect state machine;
  - `generation`, `activation`, `repair`, `time_travel` — generation
    manifests, invariant checks and activation with a single rollback slot,
    corruption tracking and repair, retained generations and as-of lookup;
  - `decision_plane`, `observability_lint`, `distributed_observability` —
    evidence records, their lint rules, lifecycle events and their names;
  - `interaction_lanes`, `profiling` — the lane catalog and fixture queries,
    the crawl/ingest optimisation matrix and one-lever iteration protocol;
  - `metrics`, `embed_cache` — storage counters, the FIFO query cache;
  - `pool` — the database connection pool over a connection manager;
  - `cancel_bridge` — fail-closed decisions of a cancellable run;
  - `boundary`, `drop_scan` — the wasm boundary status and its JSON, the
    decisions of the drop-handler scan;
  - `text` — string helpers with exact contracts.
- `tests/` — the scenarios, run against the compiled library.
- `app/` — ordinary Rust around the library: the drop-handler scanner's walk
  and parse (`walkdir`, `syn`), `tracing` emission, a mutex-shared pool with a
  clock, an asynchronous pool and cancellable runner driven by the library's
  step functions, floating-point metrics, and serde forms of serialisable types.

Verify with Verus on `src/lib.rs`; the tests and `app/` build with cargo.
