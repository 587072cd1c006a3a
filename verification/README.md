# codex_agent_kernel

An event-sourced durable execution kernel for agent runs: executions, goals,
agents, tasks, operations and their process attempts, leases with stale-worker
fencing, joins, barriers, capabilities, content-addressed context snapshots,
deterministic replay and forks. Every state change is a checksummed record in
an append-only log; the state is the replay of that log.

The library in `src/` is verified with Verus:

- `model.rs`, `reducer.rs`: the reducer and its mathematical semantics; a
  finished model turn never completes a goal, a terminal operation or agent
  stays terminal, commits are fenced by the current lease generation.
- `laws.rs`: laws of the reducer over that semantics.
- `kernel.rs`: the command layer; each command is an idempotent append whose
  record the reducer accepts before it is made durable. The kernel's state is
  always the replay of its log.
- `log.rs`: the on-disk frame format (length, CRC-32, payload), the scan that
  tells a torn tail from corruption, and its laws.
- `replay.rs`, `viewer.rs`: replay up to an event, forks, the trace and tree
  views.
- `scheduler.rs`, `runtime.rs`, `process.rs`: what may run now, what a process
  report records, and how a restart reconciles surviving processes.
- `context.rs`: the hash-addressed chunk store and its reference counts.
- `observe.rs`: the observation adapter that mirrors Codex facts into a kernel
  and reports disagreements.

`app/` is the program around it: the log file, the store's directory, the
SQLite projection, child processes and their threads, and the command line.
