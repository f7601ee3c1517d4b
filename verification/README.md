# algovoi-rfc9421-verifier

A verifier for RFC 9421 HTTP Message Signatures and RFC 9530 Content-Digest,
written in Verus: the functions in `src/` are proved against their
contracts. The one reading of the system clock carries none, as nothing can
be promised of the time it reads.

- `src/signing_base.rs`: RFC 9421 Section 2.5 signing-base construction
  (`algovoi-v0` and `rfc9421` modes).
- `src/parse.rs`: `Signature-Input` / `Signature` header parsing, with
  canonical base64 enforced on the signature value.
- `src/content_digest.rs`: Content-Digest computation and checking
  (SHA-256, SHA-512).
- `src/freshness.rs`: `created` / `expires` checks, honouring only signed
  values.
- `src/keycheck.rs`: the Ed25519 public-key gate (non-canonical, off-curve
  and small-order keys), over exact field arithmetic.
- `src/verify.rs`: Ed25519 signature checks and whole-request verification.
- `src/ecdsa/`: the `ecdsa-p256-sha256` and `ecdsa-p384-sha384` suites and
  request verification that covers them.
- `src/text.rs`, `src/b64.rs`, `src/field.rs`, `src/ed25519.rs`,
  `src/clock.rs`: characters and decimal numbers, base64, big integers,
  Ed25519 and the clock, the last four by way of their crates.

`app/` holds what the library does not: the process-wide low-s switch,
header-map entry points and error types with `Display`.
