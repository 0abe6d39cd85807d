//! Verification of DPoP proofs: signed tokens by which a client shows, with each request, that it
//! holds the key that its access token is bound to.

pub mod crypto;
pub mod encoding;
pub mod error;
pub mod json;
pub mod judgment;
pub mod judgment_laws;
pub mod jwk;
pub mod laws;
pub mod nonce;
pub mod nonce_laws;
pub mod options;
pub mod replay;
pub mod text;
pub mod token;
pub mod token_laws;
pub mod uri;
pub mod uri_laws;
pub mod verify;
pub mod view_laws;

pub use crate::error::DpopError;
pub use crate::nonce::{IntoSecretBox, SecretKey};
pub use crate::options::{ClientBinding, HmacConfig, NonceMode, VerifyOptions};
pub use crate::replay::{ReplayContext, ReplayStore};
pub use crate::verify::{verify_proof, DpopVerifier, VerifiedDpop};
