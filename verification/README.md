# madsim

A deterministic simulator for distributed systems: simulated time and
timers, a seeded random number generator with a determinism check, a task
scheduler with nodes that can be killed, restarted, paused and resumed, a
simulated network (datagrams, TCP connections, DNS, virtual services) and a
simulated file system.

The library under `src/` is written in Verus: every operation states its
behaviour in `requires` / `ensures` contracts over mathematical models of its
state, and the properties that span operations (what a read gives back of a
write, that a replayed log passes the determinism check, that a disabled
buggify never fires, that a killed node runs nothing until restarted, ...)
are proved as public proof functions.

- `time`, `timer`, `interval`, `runtime_time`: durations, instants, the
  timer queue, periodic intervals and the clock of a run.
- `rand`, `buggify`, `fault`, `collections`, `production`: the random number
  generators and fault injection.
- `task`, `mpsc`, `runtime`, `builder`: the node and task registry, the ready
  queue, the decisions of the executor and the configuration of test runs.
- `addr`, `addr_text`, `mailbox`, `network`, `tcp`, `stream`, `dns`, `ipvs`,
  `rpc`, `wire`: the simulated network.
- `fs`: the simulated file system.

`app/` holds what runs around the library: reading the environment and the
configuration file, the executor that polls futures in the order the
verified runtime decides, and conversions to and from `std` types.
