# nacelle

The engine that runs capsules: it plans how a workload is launched (Docker,
OCI runtimes, native sandboxes such as bubblewrap, Seatbelt, Alcoholless,
Sandboxie and Windows Sandbox, WebAssembly components), checks what a bundle
brings (lockfile allowlists, manifest signatures, the L1 source policy, host
paths and mounts), and keeps the bookkeeping of running services (start
order, ports, readiness, supervision, job history, audit batches).

## Layout

- `src/` is the library, written in Verus. Every executable function carries
  a contract over mathematical models (`Seq`, `Map`, spec functions), and
  Verus proves the code against it. Where an outside crate computes
  something (`url`, `sha2`, `hex`, `base64`, `ed25519-dalek`, `which`,
  `shell-words`, `rand`, `serde_json`), a small trusted wrapper makes the call
  and states what the crate documents.
- Functions that meet the file system, processes or the clock take what
  those gave as arguments (whether a file exists, what a `PATH` search found,
  the walk of a source tree), so their decisions are verified for every
  outcome. Supervisor mode is a state machine in `src/` (`supervisor_step`):
  `app/` starts the processes, probes readiness and reports each event back.
- `tests/` runs the library on concrete values.
- `app/` is the `nacelle` command: it reads files, parses `capsule.lock`
  with serde and toml, and hands plain values to the library.
