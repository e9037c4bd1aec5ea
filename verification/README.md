# r_nads

The verified core of a network anomaly detection system, and the program around it.

- `src/` is the library. Packets are parsed into events (`capture`), tied to symmetric flow
  keys (`packet`), distributed over workers (`router`) and aggregated in a flow table of fixed
  capacity with least-recently-used eviction (`table`, on top of `flow` and `window`). The
  mitigation side keeps the clients that were found anomalous (`blocklist`) and answers a
  reverse proxy (`mitigation`, with the page in `dashboard`). `config`, `meter` and `training`
  hold the decisions of the pipeline that do not touch floating point. What is trusted without proof stands in `store`,
  `blocklist`, `capture`, `router` and `flow`, each item with a comment that says what is
  claimed of the outside function.
- `tests/` runs the library on concrete values.
- `app/` is the program: threads, files, sockets, the database, and the floating point of the
  detector. Installed as `r-nads` it is set up by `config.toml`; installed as `r-nads-bin` it
  is set up by command line flags and runs the detector with six features.
