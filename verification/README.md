# portail

A Kubernetes Gateway API gateway. The library in `src/` holds its decisions,
written in Rust and verified with Verus: every function states in its contract
what it returns for which input, and the laws that tie functions together are
proved beside them.

- `kubernetes/` – from cluster objects to a configuration and to status:
  admission of routes by listeners, reference grants, conversion, Services,
  addresses, status documents, and the steps of a reconcile pass
  (`controller/`).
- `parser.rs` – HTTP/1.x request and response heads.
- `metrics.rs` – counters, histograms and their text exposition.
- `network.rs`, `logging.rs`, `privileges.rs`, `cli.rs` – what the process
  decides at its start.
- `config.rs`, `json.rs`, `table.rs`, `lists.rs`, `order.rs`, `text.rs`,
  `duration.rs`, `dup.rs` – data types and helpers.

`app/` is the program around the library: the Kubernetes client, sockets, DNS,
files and logging. It asks the library what to do and does it. `tests/` runs the
library on concrete values.

The library trusts five functions, each behind a small wrapper that says what is
taken on trust: the `Debug` rendering of strings, `std::str::from_utf8` and
`String::from_utf8_lossy` (`text.rs`), `serde_json::from_str`
(`kubernetes/addresses.rs`), and the FNV hasher
(`kubernetes/controller/fingerprint.rs`).

Licensed under Apache-2.0.
