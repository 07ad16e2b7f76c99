# canopus

The decision-making core of a local service supervisor, proved correct with
Verus: restart policies and failure windows, port allocation, the proxy
attach/detach log, bounded log buffers, configuration and project-name
validation, registry snapshots, the supervisor's lifecycle state machine,
and the control protocol between the command-line client and the daemon.

## Layout

- `src/` — the verified library. The functions that compute or decide
  carry contracts (a few derived or hand-written trait impls, such as
  `Clone`, do not); the laws that relate several operations are public
  proof functions next to the code they speak of (`lemma_*`).
- `tests/` — tests of the library on concrete values.
- `app/` — the runtime around the library: clocks, randomness, sockets,
  files, processes, serialization and the async tasks that carry out what
  the library decides.

Calls into other crates (`dashmap`, `humantime`, `serde_json`, and a few
standard-library functions such as `str::trim`) go through small wrappers
whose contracts state what those functions are documented to do.
