# outlay

A Nostr relay behind ContextVM, and a bridge for clients that speak plain NIP-01.

The *server* offers three tools, `subscribe`, `publish_event` and `relay_info`, and
turns each call into the NIP-01 exchange with one upstream relay: a relay elsewhere,
or a bundled one. One call of `subscribe` is one subscription, and each chunk of its
stream is one message of the relay.

The *bridge* (`outlay shim`) listens for WebSocket and HTTP clients at
`/<server-pubkey>`, makes the calls for them and hands the answers on. At `/` it can
run a relay that stores nothing.

## Layout

- `src/` is the library: settings, paths, frames, documents, the state of
  connections, subscriptions and calls, and the cache of transports. It does no I/O,
  and Verus verifies all of it. Contracts are stated over mathematical models;
  functions named `law_…` state what holds across functions.
  - `text`, `json`, `env`, `urls`, `keys`, `modes`: what the rest builds on
  - `config`: the settings of a server that only proxies
  - `server`: the server; `relay`: the bundled relay; `shim`: the bridge
- `tests/` runs the library.
- `app/` is the program round it: sockets, relays, HTTP and the ContextVM transport.

What the library takes from other crates it takes through wrappers, each with a
comment on what is believed of the function behind it: `serde_json` for JSON,
`nostr_sdk` for keys, filters, events and relay URLs, `contextvm_sdk` for private
keys, `lru` for the cache.
