# linkdrop

LinkDrop is a minimal paste service: a visit of `/<slug>` shows the paste stored
under that slug, opens it for editing, or offers a form to create it; pastes can
expire, burn after a number of readings, and be locked read-only. A WebSocket
handler pairs two peers per slug for WebRTC signalling; the server does not register it.

The logic of the service is a library written in Verus, with contracts proved:

- `src/text.rs` – character-level helpers (replace, trim, decimal notation) and
  the Unicode tests that come from `std`.
- `src/clock.rs` – instants (`Timestamp`) and the `chrono` calls on them.
- `src/pasta.rs` – a paste, its expiry, burn and idleness rules, its type and
  the "time ago" text.
- `src/store.rs` – the paste store, a map from slugs to pastes.
- `src/slug_map.rs` – a small map from slugs to values, under the paste store and the rooms.
- `src/endpoints/core_routes.rs` – slug normalisation and validation, and the
  decisions of the visit, submit and raw routes as models over the store.
- `src/endpoints/webrtc_routes.rs` – room joining, relaying and leaving.
- `src/util/misc.rs` – the expiry sweep, QR code markup and URL detection.
- `src/endpoints/webrtc_laws.rs` also proves that any interleaving of joins and
  leaves keeps every room at one or two distinct sessions.
- `src/endpoints/*_laws.rs` – laws relating the routes: read after create,
  read-only pastes, burn after reading, pure share screens, normalisation that
  settles, rooms of at most two peers.

`app/` is the server around it: configuration, the actix-web handlers, page
rendering and the WebSocket loop. Pastes live in memory; the modules that would
persist them to JSON or SQLite are there, but the server does not call them. `tests/` runs
the library on concrete values.
