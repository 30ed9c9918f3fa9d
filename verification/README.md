# slight

Host-side logic of the capabilities that a WebAssembly application runtime
offers its guests (key-value stores, blob stores, configuration, locking,
events, HTTP routing, GPIO), written as a Verus library: each function states
its behaviour in `requires`/`ensures`, and Verus proves it.

- `src/` is the verified library. Each capability has a module; `text.rs`
  holds the character-sequence helpers and `resource.rs` the descriptor
  tables they share.
- `tests/` runs the library on concrete values.
- `app/` is the unverified host code around it: command-line value parsers
  (clap), file and environment access, the Redis connection and the GPIO
  hardware. It performs the requests the library decides on and hands the
  outcomes back.
