# cosmos_proposal_watcher

Watches governance proposals on Cosmos chains and alerts Slack and incident.io
when proposals enter a new status.

- `src/` is the verified library (Verus):
  - `status` — the proposal statuses, their codes, names and store files;
  - `decimal` — decimal text of `u64`;
  - `id_list` — the per-status id store's text: reading it, writing it, and the
    proof that a read gives back what was written;
  - `config` — the configuration types and their defaults;
  - `slack` — the Slack alert text and payload;
  - `incidentio` — the incident.io alert events;
  - `worker` — selecting new proposals, and the polling round as a state machine.
- `app/` is the program: command line, configuration file, gRPC queries, files,
  clock and HTTP, driving the library's state machine.
- `tests/` runs the library on concrete values.
