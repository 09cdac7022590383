# shuttle-tokio

A stand-in for parts of tokio's API for programs tested under the `shuttle` concurrency
tester: a simulated TCP network over in-memory channels, timers that count polls instead of
measuring time, a runtime that runs on shuttle's executor, and signals that never arrive.

- `src/` is the library, verified with Verus: the connection table and port allocation
  (`net::table`), listeners and streams (`net::listener`, `net::stream`), the wait registry of
  an address (`net::waiters`), timers (`time`, `time::coin`), `runtime`, `signal`, `sync`.
  The decisions are made there, given what each poll of a channel or a future returned;
  app/ performs the polls, awaits and wakes.
- `app/` wraps the library into tokio's shape: the per-thread network, `async` functions,
  `Future`/`AsyncRead`/`AsyncWrite` impls, and file I/O.
- `tests/` exercises the library on concrete values; the tests that lock a stream run inside
  a Shuttle test.
