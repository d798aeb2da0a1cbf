# clickhouse_pool

A pool of ClickHouse connections, verified with Verus.

- `src/` is the library. `Pool` is a value with one owner: it decides which
  connections are handed out, opened, kept and closed, and which tasks are woken.
  Connections that are being opened, tasks and streams are known to it by a number
  each. `model.rs` says what the state of a pool is and how each operation changes
  it; `laws.rs` proves what holds of the pool as a whole, however the steps of many
  tasks are interleaved.
- `src/queue.rs` and `src/host.rs` hold what is believed without proof: the queues
  of `crossbeam` and the URLs of `url`.
- `tests/` runs the library.
- `app/` shares a pool between asynchronous tasks, behind a lock, and does what the
  pool decides: it polls futures, wakes tasks and closes streams.
