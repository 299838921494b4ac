# ractor

The decision logic of an Erlang-style actor framework, written in Verus with
its behaviour stated in contracts and proved.

Layout:

- `src/` — the verified library
  - `factory/` — worker factories: job routing (`routing.rs`), rate limiting
    (`ratelim.rs`), queues and load shedding (`queues.rs`, `discard.rs`),
    per-worker bookkeeping (`worker.rs`), the factory's state machine
    (`factoryimpl.rs`), jobs, retriable jobs and their wire metadata (`job.rs`)
  - `thread_local.rs` — the decisions of the runtime for actors pinned to
    one thread: each step of the processing loop, starting, and what the
    supervisor is told at the end
  - `pg.rs` — process groups and their monitors
  - `registry/` — named actors and actors by identifier
  - `rpc/` — sending calls, call results, ordering replies
  - `port.rs`, `actor_ref.rs`, `errors.rs`, `message.rs`, `actor_id.rs`,
    `name_order.rs` — reply ports, actor references, errors, messages,
    identifiers, the order of names
- `tests/` — tests of the library on concrete values
- `app/` — the runtime around the library: global tables behind mutexes,
  casting calls and waiting for replies, timers, output ports, the task
  hosting a factory and calls to it, retrying dropped retriable jobs, and
  the host of thread-local actors

Instants and durations are nanoseconds (`u64`); job keys are `u64`.
