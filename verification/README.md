# hhm-api

Visitor access, presence admission and demo reservations for Hacker House Medellín, as a library
verified with Verus and a server around it.

- `src/` is the library. Every function has a contract; laws that relate several functions stand
  as public proof functions, for the larger parts in `presence_laws.rs`,
  `presence_history.rs`, `visitor_laws.rs` and `visitor_history.rs`.
  - `visitor.rs`, `token.rs`: QR tokens for doors, check-in, check-out, redemption limits.
  - `presence.rs`: nonces, replay detection and presence sequences of doorway observations.
  - `auth.rs`, `identity.rs`: the settings of dual authentication and the issuer allowlist.
  - `reservation.rs`: validation and the in-memory book of reservations.
  - `api.rs`, `reply.rs`, `startup.rs`, `observability.rs`, `cors.rs`: what a request is answered,
    what is logged of it, and what the settings of the environment come to.
  - `moment.rs`, `identifier.rs`, `base64url.rs`, `seal.rs`, `json.rs`, `uri.rs`: what is taken from
    `chrono`, `uuid`, `base64`, `hmac`, `sha2`, `serde_json` and `http`, with the contracts that
    are relied on.
  - `text.rs`, `table.rs`: texts and finite maps.
- `app/` is the server: routes, sockets, serialization, the authentication guard and the log sink.
- `tests/` runs the library against the real crates.

The library writes the claims in a token as JSON. It has them read by a function that its caller
passes in; the server passes one that reads exactly their fields. State is held in process memory
only.
