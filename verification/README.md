# slatedb-benchmark

Reproducible benchmarks for SlateDB. A run prepares a golden database, executes workloads on
clones of it, bundles the validated artifacts, and publishes the bundle.

- `src/` is the library: configuration, workload clients, measurement, artifact validation,
  bundling, publication, and the planning of suites. Verus proves its functions against their
  contracts, except for the small functions that call other crates.
- `tests/` runs the library on concrete values.
- `app/` is the `slatedb-benchmark` program: command line, object stores, databases, clocks,
  files, and floating-point arithmetic.

## Library

| Module | What it holds |
| --- | --- |
| `config`, `commands`, `names`, `stores` | tasks, scaling, arguments, object store settings |
| `workloads` | clients, durability tracking, dataset loading, execution |
| `histogram`, `system`, `instrumented_http`, `instrumented_store` | measurement |
| `model`, `manifest`, `validation` | artifacts and the rules they obey |
| `runner` | preparation, workload runs, checkpoints, block caches |
| `bundle`, `publish` | run bundles and their publication |
| `suite` | profiles of workloads run as a suite, with sessions that can be resumed |
| `text`, `named`, `paths`, `count`, `bits`, `digest`, `durations`, `payload`, `faults`, `host`, `database_size` | shared parts |

Floating-point numbers are carried through the library as bit patterns. Calls into other crates
stand behind small functions whose documentation says what is taken on trust.
