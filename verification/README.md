# Resourcery

Typed, long-lived resources whose lifecycle follows from who holds them.

> Holding means requiring. Dropping means releasing. Placement defines identity.

A resource is established as a *generation*: one interface and one managed task.
A strong reference is a lease on its generation. Releasing the last lease
requests cancellation once; the generation ends when its task does, with one
outcome that never changes. Placement maps requests to identities, and a domain
has at most one active generation for each.

## Layout

- `src/` is the verified library. It holds a domain as plain state and decides:
  which request reuses a generation, constructs one, waits or is refused; what
  becomes of a construction; what the end of a task leaves behind; when a domain
  has terminated. Contracts are stated over `DomainView` (`src/model.rs`).
  - `lifecycle`, `registry`, `domain`, `context`, `reference`, `runtime`: the
    state and its operations.
  - `placement`, `identity`: which requests mean the same identity.
  - `laws`: every operation keeps what holds of every domain.
  - `guarantees`: what that means for users, as theorems.
  - `signal`, `table`: the cancellation tokens of `tokio-util` and the maps of
    `dashmap`, with what is taken on trust of them.
- `app/` runs the library on Tokio: it keeps a domain behind a lock, constructs
  resources, spawns and awaits their tasks, and wakes whoever waits.
- `tests/` drives the library as such a program does.

## Guarantees

`src/guarantees.rs`, with `src/lifecycle.rs` and `src/reference.rs`, proves of every
domain and every operation on it:

- an identity has at most one active generation, requests for it converge on
  that one, and only one caller constructs at a time;
- references never move to a replacement, and reuse never reconfigures;
- strong references alone are leases, an active generation stays active while it
  is held, and dropping references reclaims what nothing else requires;
- the end of an old generation spares its replacement, and ended generations and
  failed constructions leave nothing behind;
- a task is told to stop through the token that it was given, which no operation
  changes;
- every generation has one outcome, all its observers learn that one whenever
  they were made, and whoever has learnt it finds the generation ended;
- discovery finds exactly the active generations of a domain that accepts work;
- shutdown is permanent and idempotent, refuses every acquisition, cancels every
  generation, and ends once every task has ended.
