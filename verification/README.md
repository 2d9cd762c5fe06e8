# acme_proxy

The decision logic of an ACME proxy, verified with Verus: which names an
inventory says an address owns, how background jobs are claimed, retried and
retired, how a key change is checked, what is notified to whom, what the metrics
endpoint prints, and what the request middlewares answer.

- `src/`: the verified library. `ipam` (inventories), `jobs` (queue and runner),
  `notify` (events, backends and their delivery), `middlewares`, `listener`,
  `metrics` and `key_change`; `pool`, `faults`, `text`, `sorted`, `json`, `time`, `web`,
  `headers`, `debug` and `ids` are what they stand on.
- `tests/`: its tests.
- `app/`: the process around it: arguments, sockets, HTTP and SMTP, scripts,
  reloading at a hangup, and the loops that perform what the library decides.

Outside crates are called in `src/` through a few functions whose contracts are
believed, not proved. The doc comment of each says what it claims and of which
function.

`app/` keeps its job rows and nonces in memory. It keeps no orders, audit log or
admin sessions and has no filter policy, so it runs no expiry digest, no sweep of
those tables and no filter; the library's functions for them take what such a
table or policy answers as arguments.
