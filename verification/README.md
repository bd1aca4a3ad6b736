# latencydesk

Transport logic of a low-latency remote desktop, written in Verus. Every rule in
`src/` is stated as a contract and proved; the code does no I/O of its own.

- `media`, `fragment`, `reassembly`, `simulator`, `congestion`: splitting frames
  into datagrams, bounded reassembly, a deterministic hostile link, and rate
  adaptation. `reassembly_laws`, `simulator_laws` and `delivery` state what they
  promise together.
- `session`, `replay`: the authenticated datagram session, its handshake, and the
  frames that it has delivered already. `tag_laws` states what its tag tells
  apart.
- `control`, `quic`, `product`, `route`, `routes`: reliable lanes, product
  sessions, and the hand-over of a session between two routes.
- `ice`, `ice_run`, `stun`, `turn`, `probe`: connectivity checks, address
  discovery, relays, and the probe of a nominated path.
- `identity`, `acl`: TLS identities and the protection of their key files.
- `surface`, `codec`, `telemetry`, `lab`: surface ownership, the exact test
  codec, frame traces, and the laboratory that runs them end to end.
  `surface_laws` states what a pool promises of its tokens.
- `wording`: what the errors say.
- `address`, `bytes`, `chars`, `counter`, `digest`, `entropy`, `error`, `text`:
  small values that the others share. `digest`, `entropy`, `chars`, `identity`
  and `ice` hold the few trusted calls into other crates.

`app/` is ordinary Rust around the library: sockets, Quinn, rustls, files, clocks
and threads. The byte layouts of records belong to other crates; the application
supplies them through the traits of `app/wire.rs`.

`tests/` runs the library on concrete values.
