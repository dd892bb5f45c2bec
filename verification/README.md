# oprc

A verified library for a platform whose objects are spread over several environments, and the
services around it.

`src/` is the library. Its functions have contracts that Verus proves, except for the small
functions that call other crates, whose contracts are trusted. What holds of several functions
together stands in proof functions whose names begin with `law_`.

| Module | What it decides |
|---|---|
| `netsim` | which simulated links carry traffic, with what delay, and what a proxy on a link does |
| `router`, `crm`, `pm::netsim` | which commands control the links, and how their answers are merged |
| `pm::gateway_proxy` | where a request is forwarded and which headers pass |
| `wasm` | where a module comes from, the requests of an OCI pull, the cache of modules |
| `models`, `dev_server` | the collections, environments and answers that a package leads to |
| `canvas` | the next generation of a canvas, the fields that change, and the reads and writes of a step |
| `events` | what a mutation changed |

Calls into other crates stand in small functions marked `external_body`: `json.rs` and `web.rs`
(`serde_json`, `http`), `wasm/store.rs` (`wasmtime`) and `models/deployment.rs` (`chrono`). Their
doc comments say what is taken from the other crate without proof.

`app/` is ordinary Rust: the router's `main`, HTTP interfaces, the TCP proxy, the module fetcher
and the development server. It performs what the library decides. Sessions, object stores and
clusters are reached through the traits in `app/platform.rs`.
