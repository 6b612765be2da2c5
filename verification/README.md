# streamlet

A small event-sourcing toolkit, verified with Verus.

* An **aggregate** folds events into state (`apply`) and decides which new
  events a command produces (`handle`), or rejects it with a business error.
* An append-only **event log** (`MemoryStore`) keeps every stream's versions
  contiguous from 1, gives every event a strictly increasing global position,
  and enforces optimistic concurrency (`ExpectedRevision`). The same store
  holds small **documents** for read models and checkpoints. The decisions
  any store makes the same way (which versions an append hands out, which
  rows a page of the feed takes) are shared functions in `store::rules`.
* A **service** loads a stream, renders it, decides, and appends; business
  rejections (`ServiceError::Rejected`) stay apart from infrastructure
  failures (`ServiceError::Store`).
* **Projections** fold the log, page by page and in global order, into read
  models (`View`), and resume from the position they reached.
* **Upcasters** migrate old stored payloads forward at load time. A registry
  holds upcasters of one type; `Box<dyn Upcaster>` is an upcaster too, for
  registries that mix several kinds.

## Layout

* `src/` — the verified library. Its functions carry contracts (the few
  without one only forward or wrap a single standard call); the laws the
  toolkit promises (replaying in parts equals replaying at once, appends
  extend only their own stream, pagination neither skips nor repeats, a
  load's expectation pins the version, ...) are proof functions named
  `law_*`.
* `tests/` — tests against the library.
* `app/` — the asynchronous, serde-typed surface: storage traits over any
  backend, a thread-safe store around the verified log, a libSQL store
  that asks the library's rules for its decisions, async service
  execution, projections and subscriptions over any store, and Restate
  glue. It is ordinary Rust built on the library.
