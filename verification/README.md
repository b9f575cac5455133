# pup (verified core)

The library behind the `pup` Datadog command-line client, written in Verus:
Verus verifies every function in `src/`, and every public one states in its
contract what it returns. The exceptions are the few small wrappers (marked
`external_body`) through which the library calls std and the `uuid`,
`chrono`, `comfy_table`, `serde_json` and `serde_norway` crates: their
contracts are stated, not proved.

- `src/json.rs`, `src/json_text.rs`: the JSON document model, its view as a
  mathematical value, and its compact text, in which documents are handed to
  serde_json (pretty JSON) and serde_norway (YAML) for printing.
- `src/formatter.rs`: output formats (JSON, YAML, table, CSV, TSV), the agent
  envelope, cell rendering, row flattening and key sorting.
- `src/rate_limit.rs`: rate-limit headers, the `--verbose` report, and the
  message and exit code of a failed command.
- `src/commands/`: argument parsing and validation of the commands; the
  request bodies that commands build themselves (LLM Observability spans,
  traces, experiments, datasets and insights; profiling; RUM and log
  aggregation); and the response filters and pagers around them. Requests
  that go through the typed Datadog API client are not part of the library.
- `src/extensions/`: extension names and the checks around installing one.
- `src/text.rs`, `src/order.rs`, `src/ident.rs`: text operations, the key
  order used for sorting, and UUID parsing.

`app/` holds what stays outside verification: conversion to and from
`serde_json`, printing, the rate-limit store, command-line value enums,
file-system and network edges, and the loops of commands that alternate
requests with the library's decisions. `tests/` exercises the
library from outside.
