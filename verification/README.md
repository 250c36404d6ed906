# luoshu

Luoshu (洛书) is a small registry and configuration centre: services register
their instances under a name in a namespace, clients subscribe to
configuration values and are told when they change.

Layout:

- `src/` – the library, verified with Verus: the namespace, registry and
  configuration stores (`namespace`, `registry`, `configuration`, `store`),
  the in-memory storage backend (`storage`), request bodies (`regs`),
  messages and their length-prefixed framing (`frame`), the data layers of
  clients (`data`) and of the server (`server`), what each side does with
  a frame it receives (`dispatch`), the outbox through which every message
  leaves and is recorded (`outbox`), management answers
  (`resp`), and the library-wide properties (`laws`). Calls into `uuid`,
  `chrono`, `serde_json` and `tokio` sit in `external`.
- `app/` – the server program around the library: TCP connections, the sled
  storage backend, JSON (de)serialisation, the web interface, and the Rust
  and Python clients.
- `tests/` – tests of the library.
