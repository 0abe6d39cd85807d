//! Why a DPoP proof is refused.

use vstd::prelude::*;

verus! {

/// The reasons for which a DPoP proof, or one of its parts, is refused.
#[derive(Clone, Debug, PartialEq, Eq)]
pub enum DpopError {
    /// The compact JWS, its header or its claims do not have the form of a DPoP proof.
    MalformedJws,
    /// The key in the header cannot be used, for the reason given.
    BadJwk(&'static str),
    /// The signature does not verify under the key in the header.
    InvalidSignature,
    /// The algorithm is none that a DPoP proof may name.
    InvalidAlg(String),
    /// The algorithm is an asymmetric one that is not supported.
    UnsupportedAlg(String),
    /// The `jti` claim is longer than the limit.
    JtiTooLong,
    /// The HTTP method is not a standard one.
    InvalidMethod,
    /// The URI is not an absolute http or https URL, for the reason given.
    MalformedHtu(String),
    /// The `htm` claim names another method than the request.
    HtmMismatch,
    /// The `htu` claim (first) names another URI than the request (second).
    HtuMismatch(String, String),
    /// An access token was presented and the proof holds no `ath` claim.
    MissingAth,
    /// The `ath` claim is not unpadded base64url.
    AthMalformed,
    /// The `ath` claim is the hash of another access token.
    AthMismatch,
    /// The proof was issued too far in the future.
    FutureSkew,
    /// The proof is older than the limit.
    Stale,
    /// A nonce is required and the proof holds none.
    MissingNonce,
    /// The client has to retry with the nonce given.
    UseDpopNonce {
        /// The nonce to retry with.
        nonce: String,
    },
    /// The nonce is none that was issued under the secret in the context at hand.
    NonceMismatch,
    /// The nonce is older than the limit, or from too far in the future.
    NonceStale,
    /// The proof has been used before.
    Replay,
    /// The operating system gave no random bytes for a fresh nonce.
    EntropyUnavailable,
    /// The replay store failed, for the reason given.
    Store(String),
}

/// A [`DpopError`], with the text it carries as a sequence of characters.
pub enum DpopErrorView {
    MalformedJws,
    BadJwk(Seq<char>),
    InvalidSignature,
    InvalidAlg(Seq<char>),
    UnsupportedAlg(Seq<char>),
    JtiTooLong,
    InvalidMethod,
    MalformedHtu(Seq<char>),
    HtmMismatch,
    HtuMismatch(Seq<char>, Seq<char>),
    MissingAth,
    AthMalformed,
    AthMismatch,
    FutureSkew,
    Stale,
    MissingNonce,
    UseDpopNonce(Seq<char>),
    NonceMismatch,
    NonceStale,
    Replay,
    EntropyUnavailable,
    Store(Seq<char>),
}

impl View for DpopError {
    type V = DpopErrorView;

    open spec fn view(&self) -> DpopErrorView {
        match self {
            DpopError::MalformedJws => DpopErrorView::MalformedJws,
            DpopError::BadJwk(reason) => DpopErrorView::BadJwk(reason@),
            DpopError::InvalidSignature => DpopErrorView::InvalidSignature,
            DpopError::InvalidAlg(alg) => DpopErrorView::InvalidAlg(alg@),
            DpopError::UnsupportedAlg(alg) => DpopErrorView::UnsupportedAlg(alg@),
            DpopError::JtiTooLong => DpopErrorView::JtiTooLong,
            DpopError::InvalidMethod => DpopErrorView::InvalidMethod,
            DpopError::MalformedHtu(reason) => DpopErrorView::MalformedHtu(reason@),
            DpopError::HtmMismatch => DpopErrorView::HtmMismatch,
            DpopError::HtuMismatch(actual, expected) => DpopErrorView::HtuMismatch(
                actual@,
                expected@,
            ),
            DpopError::MissingAth => DpopErrorView::MissingAth,
            DpopError::AthMalformed => DpopErrorView::AthMalformed,
            DpopError::AthMismatch => DpopErrorView::AthMismatch,
            DpopError::FutureSkew => DpopErrorView::FutureSkew,
            DpopError::Stale => DpopErrorView::Stale,
            DpopError::MissingNonce => DpopErrorView::MissingNonce,
            DpopError::UseDpopNonce { nonce } => DpopErrorView::UseDpopNonce(nonce@),
            DpopError::NonceMismatch => DpopErrorView::NonceMismatch,
            DpopError::NonceStale => DpopErrorView::NonceStale,
            DpopError::Replay => DpopErrorView::Replay,
            DpopError::EntropyUnavailable => DpopErrorView::EntropyUnavailable,
            DpopError::Store(reason) => DpopErrorView::Store(reason@),
        }
    }
}

/// The outcome of a check that yields nothing but a verdict.
pub open spec fn verdict(outcome: Result<(), DpopError>) -> Result<(), DpopErrorView> {
    match outcome {
        Ok(_) => Ok(()),
        Err(error) => Err(error@),
    }
}

/// The outcome of a function that yields a text.
pub open spec fn text_outcome(outcome: Result<String, DpopError>) -> Result<
    Seq<char>,
    DpopErrorView,
> {
    match outcome {
        Ok(text) => Ok(text@),
        Err(error) => Err(error@),
    }
}

} // verus!
