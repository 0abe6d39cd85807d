# dpop_verifier

Verifies DPoP proofs: signed tokens by which a client shows, with each request, that it holds the
key that its access token is bound to.

- `src/` is the library, verified by Verus but for the small functions that wrap a call into another
  crate, whose contracts are trusted. `judgment.rs` says how a proof is
  judged, `verify.rs` does it, and `laws.rs` says what follows. `uri.rs` normalizes methods and URIs,
  `token.rs` reads the compact form, header and claims, `jwk.rs` reads keys and computes thumbprints,
  `nonce.rs` issues and verifies nonces, `replay.rs` holds what a replay store is told. `crypto.rs`,
  `encoding.rs`, `json.rs`, `text.rs` and `uri.rs` hold the calls into other crates and the standard
  library.
- `app/` is the asynchronous front: it checks a proof with the library, awaits the replay store, and
  has the library conclude.
- `tests/` runs the library with real keys and signatures.
