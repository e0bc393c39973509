# sutra_engine

The runtime of a process engine, as a Verus library: how an engine is configured, how deployments
are planned, activated, drained and retired, how instances are parked, resumed, migrated and ended,
and who may administer it all. Each function states in its contract what it answers, and Verus proves
it. Where an answer rests on the clock or on chance, the contract says what holds of every answer, and
a function beside it takes the time, the identity or the outcome as an argument and is exact.

## Layout

- `src/` is the library. The modules without I/O of any kind:
  - `config`, `otel`, `sources`, `duration`: configuration out of a properties file and the
    environment.
  - `assembly`, `stores`, `transports`, `registries`, `lanes`, `engine`, `schedules`: planning a
    deployment, and assembling an engine out of plans.
  - `deploy`, `lifecycle`, `activation`, `status`: the deployments directory and the archive store,
    flipping to another set of deployments, and what is reported of it.
  - `bridge`, `parking`, `instances`, `endings`, `concurrency`: what is written and read of an
    instance.
  - `graph`, `migrate`, `batch`: moving instances to another deployment.
  - `external_task`, `base64`: the pull surface of workers.
  - `admin`, `audit`, `metrics`, `telemetry`: guarding and observing an engine.
  - `text`, `keyed`, `json`, `diag`: texts, sorted maps, documents and diagnostics.
  - `outside`: what is taken from the `uuid` and `time` crates and from std.
  - `assembly_laws`, `config_laws`, `deploy_laws`, `migrate_laws`: properties that span functions.
    Those of the other modules stand beside the functions they are about.
- `tests/` runs the library on concrete values.
- `app/` is ordinary Rust around it: the process environment, files, the database, HTTP and the
  exporters. What an engine needs from the rest of its platform is a trait, of `app/services.rs` or of
  the module that uses it.

A store's answer reaches the library as a value, so every contract says what happens for each answer,
failures included. Results that only another crate or std can compute have a name, in `outside`,
`admin`, `status` or `duration`, and the contracts speak of those names.

Texts are sequences of characters. `TextMap` and `TextSet` of `keyed` are a map and a set with text
keys in order, in place of `BTreeMap` and `BTreeSet`; `Duration` stands for std's: seconds and
nanoseconds.
