# nim_proxy

A proxy in front of an OpenAI-compatible API that spreads requests over a pool of
upstream keys. It paces every key to its requests-per-minute budget, waits out
rate limits and short outages instead of passing them on, and keeps streaming
clients alive meanwhile.

The decisions are a Verus library; sockets, timers, metrics and pages are ordinary
Rust around it.

| Directory | Content |
|-----------|---------|
| `src/`    | the verified library |
| `tests/`  | its tests, run against the real outside crates |
| `app/`    | the server: it carries out what the library decides |

## The library

- Pacing: `time`, `pool`, `pool_laws`, `backoff`, `retry`, `waiting`
- Requests: `request`, `affinity`, `streaming`, `buffered`, `relay`, `answers`
- Reading what passes: `json`, `scan`, `shape`, `labels`, `text`, `fuzz`
- Settings: `store`, `rulebook`, `settings`, `accounts`, `setup`, `live`, `secrets`
- What is shown, and starting up: `config_view`, `dashboard`, `boot`

Each function states what it returns; the properties that span several of them
are public proof functions beside them, those of pacing in `pool_laws`.

What is taken on trust is marked `external_body` or `assume_specification`, with a
comment that names the function behind it: parsing and printing by `serde_json`
(`json`), lossy UTF-8 decoding (`scan`), SHA-256 and the operating system's
randomness (`secrets`), the clocks (`time`, `boot`) and `String::push` (`text`).

## The server

`app::run` takes a function that opens the `Services`: the store on disk, sessions
and passwords, the governor of model concurrency, metrics history and the pages.
