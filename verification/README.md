# spr-nostr

A self-hosted Nostr relay plugin for SPR, with its logic verified in Verus.

- `src/` — the verified library:
  - `config` — settings, defaults, validation;
  - `http` — classification of request heads on the relay port, the
    WebSocket accept key, scanning peeked bytes for the end of the head, and
    the response heads;
  - `nip11` — the relay information document and its JSON body;
  - `topology` — the graph contributed to the router's topology view;
  - `api` — the management API's answers (address, status, display host);
  - `supervisor` — relay policies per mode, running state and uptime, restart
    retries;
  - `text` — character helpers (ASCII case, Unicode trimming, decimals).
- `app/` — the binary: axum API over a unix socket, the relay listener and
  supervisor around `nostr-relay-builder`, JSON shapes and the config file.
- `tests/` — tests of the library.
