# animus-queue-default

A file-backed, first-in first-out dispatch queue for one project, served over
stdio as JSON-RPC.

The queue holds dispatch envelopes. A client enqueues them, leases them in queue
order, holds or reorders them, and reports when their workflows end. An entry may
be deferred to a later instant (`run_at`), with a grace window after which it is
dropped instead of dispatched late (`expire_after_secs`).

## Layout

- `src/` is the library. It is written in Verus, and everything it states is
  proved: what each operation does to a loaded queue and what it answers
  (`enqueueing`, `leasing`, `mutations`, `ordering`, `listing`, and
  `queue_service` over them), how the queue is loaded and saved
  (`dispatch_queue_store`), how requests are routed, served and refused
  (`plugin`, `handlers`, `rpc`, `frames`), and what holds across operations
  (`laws`).
- `app/` is the program around it: stdio, files, locks, and the conversion to the
  types of the Animus protocol crates.
- `tests/` runs the library.

## State

```text
<project_root>/.animus/queue.json
<project_root>/.animus/queue.lock
```

The project root is bound once, by `init_extensions.project_binding.project_root`
at `initialize`. The lock is held across one read-modify-write cycle at a time.
The state file is replaced as a whole, by renaming a temporary file.

## What is trusted

The library calls `chrono` for the clock and for RFC 3339 text, `uuid` for new
ids, `serde_json` for the project binding, and `std` for paths and for trimming
text. What it takes for granted of these is stated at each call, in `clock`,
`identity`, `plugin`, `dispatch_queue_store` and `text`.
