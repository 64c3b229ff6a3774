# ajar_gateway

A reverse proxy in front of an existing site. The decisions it takes are a
library in Verus, proved against their contracts; the program around the library
does the I/O.

- `src/`: the engine. `config` validates a deployment, `headers` tells which
  header fields cross the proxy, `proxy` takes one request through its exchange
  with the origin, `error` answers refusals, `metrics` and `admin` make the admin
  pages, `serve` orders startup and shutdown, `cli` reads the command line.
  `harvester`, `signer` and `store` hold the extension interfaces; `extractor`,
  `inducer` and `policy_engine` hold the types of their modules.
- `app/`: the binary. It binds listeners, talks to the origin, reads the
  configuration file and encodes bodies as JSON.
- `tests/`: the engine run on concrete values, with the real `http` types.

What is not proved: the contracts of the few functions that call the `http` crate
(`headers`, `uri` and `error`, each marked `external_body` or given by an
`assume_specification`), and whatever stands in `app/`.
