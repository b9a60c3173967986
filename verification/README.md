# idioms

A collection of small Rust idioms — a linked stack, iterator adapters, string splitting,
lending and windowed iteration, closures and higher-ranked bounds, typestate, a bump allocator's
arithmetic, code generators for derive macros, event-loop and future state machines — written
as a library whose behaviour is stated in contracts and proved with Verus.

## Layout

- `src/` — the verified library, one module per idiom:
  - `list`: a singly linked stack with owning, borrowing and mutably borrowing iterators;
  - `iter`: an iterator trait with a model of the items still to come, `map`/`filter`
    adapters, collecting into vectors and hash maps; `unique`: removing repeated items;
  - `lifetime`: `strtok` and a splitting iterator over text; `gat`: pointer families,
    mutable windows, windows over any iterator, byte and prefix iterators, a `Mapper` trait;
  - `hrtb`, `closure`, `peculiar`: higher-ranked closures, executors, value conversions and
    callbacks; `mem`: double buffering; `dropck`: an owning box;
  - `axum_params`, `eventbus`: handlers whose arguments are extracted from a request;
  - `http`, `grpc`: request validation, session lookup and a greeting service;
  - `allocator`: where a bump allocator places a block; `network`: interest flags and the
    decisions of an epoll reactor; `asyncx`: Fibonacci, a key/value iterator and the decisions
    of hand-written futures; `io`: a writer that accepts half of each write;
  - `password`: a password manager, with and without its lock state in the type;
  - `macrox`: the text that a builder derive and a string-conversion derive generate.
- `tests/` — tests of the library on concrete values.
- `app/` — the program around the library: the global allocator, async runtimes and futures,
  the epoll reactor, the event bus with its type-keyed handler table, and printing.

Run Verus on `src/lib.rs` to check the proofs.

## Left out

- The macOS kqueue reactor and its allowed-IP table, which build only on macOS.
- The `motore` logging middleware (it needs unstable Rust features) and the gRPC server, whose
  code would be generated by a build script; the greeting logic itself is in `grpc`.
- The type-keyed event bus and the spin lock stay in `app/`: the first stores trait objects of
  every handler type, and the second would need tracked ghost permissions.
- A `Select` trait from the same sources that was never compiled there (no module declares it).
- Raw-pointer and `Pin` demonstrations of self-referential structs, which assert nothing.
- Verus does not unfold a trait's spec functions through an impl whose bounds require a concrete
  closure type to implement `Fn`. `Mapper` and `Filter` are therefore written with unbounded
  impls; for handlers and executors, `on1`..`on4` and `execute_with` take the function as a type
  parameter, so any function or closure can be passed from verified code.

