# constantinople

The operator tools of a constantinople network, as a verified library and a command-line program.

- `src/` is the library. Every function states what it returns or changes, and Verus proves it.
  - `deploy` sizes spam workloads and generates the key material, configs and commands of local and
    remote clusters.
  - `validator` loads a node's config, plans what the node starts, and holds the decisions of its
    relayer, its transaction generator and its finalized uploads.
  - `relayer` picks the leaders a batch is forwarded to, follows their health, and merges what they
    report of a batch.
  - `spammer` assigns nonces, recipients and batches, schedules submissions, and rolls failed batches
    back.
  - `tx` holds the one-shot transaction commands and the rate-limited ring.
  - `keys`, `formatting` and `text` hold the calls into outside crates; what is believed of each call
    stands beside it.
- `tests/` runs the library.
- `app/` is the program: arguments, files, HTTP and timers. The transaction format and the node engine
  live in a helper program that it starts and talks to line by line.
