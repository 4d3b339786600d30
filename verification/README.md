# consensus_provider

A provider node for a decentralised GPU compute-sharing platform: it takes
computation tasks from a consensus service, executes them (honestly or as a
configured cheater, for testing the consensus mechanism), reports the results,
and serves its state over a monitoring API.

The crate is written in Verus. The library under `src/` holds the node's logic
with machine-checked contracts:

- `types`: tasks, results and statuses.
- `config`: configuration defaults, validation and provider constructors.
- `task_executor`: the byte framing of task payloads and the assembly of
  reported results.
- `cheating`: the cheating behaviours and the corruption of results.
- `consensus_client`: deriving tasks from agreements, and the client's ledger
  of activities, pending tasks and reported results.
- `api_server`: the monitoring server's state.
- `provider_node`: node statistics and reported status.
- `logging`: log entries, logging setup and log rotation plans.
- `clock`, `text`, `keyed`: instants, string helpers and keyed collections.

`app/` is the program around the library: command-line handling, HTTP client
and server, file and logger I/O, asynchronous loops, and the floating-point
arithmetic of the computations. `tests/` exercises the library.
