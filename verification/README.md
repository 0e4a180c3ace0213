# oc_back

The back end of the olympiad chat, with its request-handling core verified
in Verus.

- `src/` is the verified library: reading the access-token file and
  checking tokens (`tokens`), the build stamp (`build_info`), the pages and
  their rendering (`pages`), the static assets and their compressed cache
  (`assets`), the web API (`wapi`), and the decisions of the service's
  connection loops (`service`). `codecs` holds the trusted contracts of the
  calls into `rustc-serialize` (base64 and JSON), `libflate` (DEFLATE),
  `constant_time_eq` and std's UTF-8 check; `bytes` the byte-string helpers.
- DEFLATE compression comes from `libflate`, whose `deflate::Encoder` and
  `finish().into_result()` are the API the service was written against
  under the name `flate`. The `rng` entry of Cargo.toml is unused: the
  registry's `rng` has no `os::getrandom`, so the token tool reads
  `/dev/urandom`.
- `app/` is the service around it: start-up loading, the listener, the
  engine link, the router and the token issuing tool. It uses the
  `service_base` and `oc_engine` crates.
- `tests/` runs the library on concrete inputs.
