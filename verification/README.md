# wdtt_rslib

A client that carries a local WireGuard tunnel over TURN relays of VK calls:
it obtains TURN credentials through VK's anonymous call API, opens DTLS
sessions through the relays (optionally disguised as RTP packets sealed with
ChaCha20-Poly1305), and spreads the local UDP traffic over the sessions.

- `src/` is the verified library (Verus): command-line and configuration
  handling, the RTP framing, the dispatcher's choice of worker, the VK Calls
  credential steps as a state machine, the captcha forms, page parsing and
  decisions, the slider puzzle's seam scores and ranking, and the credential
  cache. `src/outside.rs` holds the trusted items through which it calls
  `std`, `rand`, `hkdf`, `chacha20poly1305`, `url`, `uuid`, `regex`, `sha2`,
  `hex`, `base64` and `image`.
- `app/` is the program around it: sockets, TURN and DTLS, HTTP, timers,
  files, events on standard output, and the floating-point parts of the
  slider solver.
- `tests/` runs the library on concrete values.
