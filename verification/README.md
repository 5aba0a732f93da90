# temper-server

The decision logic of the Temper server, stated in contracts and proved with
Verus.

* `src/` is the library. Every function in it has a contract over mathematical
  models of its data; what holds across functions is stated as public proof
  functions. Calls into other crates stand behind small trusted wrappers, each
  with the contract that it is believed to keep.
* `tests/` runs the compiled library on concrete values.
* `app/` is the code around it: the environment, the clock, stores, actors and
  the wire. It performs what the library decides, and hands back what came of it.
  The stores, the actors and the schemas stand behind traits there.

The library by area:

* `text`, `ordered`, `json`, `digest`, `time`: the values that the rest works on.
* `dispatch_actions`, `dispatch_run`, `retry`, `state_timeouts`, `adapter`:
  dispatching an action to an entity, asking its actor again where that may help,
  arming the timers of its state, and running the adapters it sets off.
* `composite_helpers`, `composite`, `composite_run`: actions that write many
  entities at once, as one batch.
* `file_writes`, `file_initial_writes`, `file_run`: file content.
* `stream`, `provenance`, `stream_descriptors`, `stream_migration`: descriptors of
  streams and their repair.
* `governed_types`, `governed_job`, `governed_inventory`, `governed`,
  `governed_gate`, `governed_run`: migrations that are carried out page by page,
  and what their completion allows.
* `creation`, `bootstrap`, `query_projection`, `projection_backfill`, `parity`,
  `schema_pin`, `reference_contract`, `reference_evidence`: entities, their
  projections, their schemas and their references.
* `server_config`, `server_state`, `status_cache`, `observe`, `sessions`,
  `rate_limit`, `catalog`, `supervisor`, `local_tdata`: the state of the server.
