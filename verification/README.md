# veloq-nsys-data

The data layer over Nsight Systems traces, verified with Verus.

A trace is read through its parquetdir export (`nsys export -t parquetdir`), one
parquet file per table, each shown by DuckDB as a view `nsight.<TABLE>`. The
library computes what is derived from those tables and decides what has to be
done on the way; reading and writing files, running `nsys` and running queries is
left to the caller.

## Layout

- `src/`: the library. Every function has a contract that Verus proves, but for
  the calls named under `columns`, `parquet_file` and `text`.
  - `nsys_rep`, `trace`, `schema`, `adapter`, `capabilities`, `views`, `queries`:
    from a path to an opened trace.
  - `nvtx_stack`, `nvtx_tree`, `nvtx_nesting`, `runtime_nvtx_parent`: NVTX ranges,
    their nesting, and the runtime calls inside them.
  - `cuda_identity`, `scope`, `correlation`, `gpu_work`, `gpu_work_events`: who owns
    GPU work, and what belongs together.
  - `fingerprint`, `sidecar`, `sidecar_registry`, `meta_cache`,
    `resident_identity`: what is cached, and when it is fresh.
  - `hardware`, `trace_map`: what a trace is about.
  - `columns`, `parquet_file`: the calls into the `arrow` and `parquet` crates.
    Their contracts, and that of `String::push` in `text`, are taken on trust.
  - `order`, `text`, `paths`, `keymap`, `error`, `error_codes`: what the rest is
    built on.
- `tests/`: ordinary tests against the library.
- `app/`: files, processes, DuckDB and caches around the library.
