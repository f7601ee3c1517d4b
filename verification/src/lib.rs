//! RFC 9421 (HTTP Message Signatures) and RFC 9530 (Content-Digest)
//! verification: Ed25519 signature checks behind a trust-boundary public-key
//! gate, RFC 9421 Section 2.5 signing-base construction, Signature-Input /
//! Signature parsing, Content-Digest checks, signature freshness, and the
//! ECDSA suites (P-256/P-384) in [`ecdsa`].
//!
//! Every public entry point returns a `Result` (or a `VerifyResult` carrying
//! its errors) and never panics on malformed headers, keys or signatures.

pub mod b64;
pub mod clock;
pub mod content_digest;
pub mod ecdsa;
pub mod ed25519;
pub mod field;
pub mod freshness;
pub mod keycheck;
pub mod parse;
pub mod signing_base;
pub mod text;
pub mod verify;

pub use content_digest::{compute_content_digest, verify_content_digest, ContentDigestError};
pub use freshness::{check_freshness, FreshnessError, FreshnessOptions};
pub use keycheck::{check_ed25519_public_key, is_small_order, WeakKeyError};
pub use parse::{parse_signature_input, parse_signature_value, ParsedSignatureInput, SignatureInputParseError};
pub use signing_base::{build_signing_base, Mode, ParamValue, SigningBaseError, SigningBaseInput};
pub use verify::{
    prepare_request, public_key_from_hex, verify_request, verify_signature, PreparedRequest, VerifyError,
    VerifyRequestOptions, VerifyResult,
};
