//! ECDSA (P-256/P-384) verification: the RFC 9421 suites `ecdsa-p256-sha256`
//! and `ecdsa-p384-sha384`, on top of the core primitives.

pub mod curves;
pub mod verify;
pub mod request;

pub use request::{default_allowed, verify_request, EcdsaRequestOptions};
pub use verify::{verify_p256, verify_p384, ECDSAError, PublicKeyInput};
