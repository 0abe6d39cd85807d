//! How a proof is judged: each check, and all of them in order.

use vstd::prelude::*;
use vstd::utf8::encode_utf8;

use crate::crypto::{eddsa_signed, es256_signed, is_clock, sha256};
use crate::encoding::from_base64url;
use crate::error::DpopErrorView;
use crate::jwk::{ec_p256_thumbprint, ed25519_key, okp_ed25519_thumbprint, p256_key};
use crate::nonce::{is_random, issued, nonce_in_time, nonce_verdict, NonceCtxView};
use crate::options::{HmacConfigView, NonceModeView, VerifyOptionsView};
use crate::replay::{jti_hash, ReplayContextView, ReplayStore};
use crate::token::{
    claims_from_json, token_from_compact, DpopClaimsView, DpopHeaderView, DpopTokenView, JwkView,
};
use crate::uri::{htu_normal_form, method_normal_form};

verus! {

// ---------------------------------------------------------------------------
// Header and signature
// ---------------------------------------------------------------------------

/// The number of bytes of an ES256 signature.
pub const ECDSA_P256_SIGNATURE_LENGTH: usize = 64;

/// The number of bytes of an Ed25519 signature.
pub const ED25519_SIGNATURE_LENGTH: usize = 64;

/// Whether the name is that of an algorithm with a shared secret.
pub open spec fn is_hmac_alg(alg: Seq<char>) -> bool {
    alg.len() >= 2 && alg[0] == 'H' && alg[1] == 'S'
}

/// The error for an algorithm that does not fit the key, or that is not supported.
pub open spec fn alg_error(alg: Seq<char>) -> DpopErrorView {
    if alg == "EdDSA"@ {
        DpopErrorView::BadJwk("expect OKP/Ed25519 for EdDSA"@)
    } else if alg == "ES256"@ {
        DpopErrorView::BadJwk("expect EC/P-256 for ES256"@)
    } else if alg == "none"@ || is_hmac_alg(alg) {
        DpopErrorView::InvalidAlg(alg)
    } else {
        DpopErrorView::UnsupportedAlg(alg)
    }
}

/// What is to be said of a header: its type has to be that of a DPoP proof, and its algorithm one
/// of the two that are supported.
pub open spec fn header_verdict(header: DpopHeaderView) -> Result<(), DpopErrorView> {
    if header.typ != "dpop+jwt"@ {
        Err(DpopErrorView::MalformedJws)
    } else if header.alg != "ES256"@ && header.alg != "EdDSA"@ {
        Err(alg_error(header.alg))
    } else {
        Ok(())
    }
}

/// The thumbprint of the P-256 key with the members given, if it signed the message.
pub open spec fn es256_jkt(
    x: Seq<char>,
    y: Seq<char>,
    message: Seq<u8>,
    signature: Seq<u8>,
) -> Result<Seq<char>, DpopErrorView> {
    if signature.len() != ECDSA_P256_SIGNATURE_LENGTH {
        Err(DpopErrorView::InvalidSignature)
    } else {
        match p256_key(x, y) {
            Err(error) => Err(error),
            Ok(key) => if es256_signed(key.x, key.y, message, signature) {
                ec_p256_thumbprint(x, y)
            } else {
                Err(DpopErrorView::InvalidSignature)
            },
        }
    }
}

/// The thumbprint of the Ed25519 key with the member given, if it signed the message.
pub open spec fn eddsa_jkt(x: Seq<char>, message: Seq<u8>, signature: Seq<u8>) -> Result<
    Seq<char>,
    DpopErrorView,
> {
    if signature.len() != ED25519_SIGNATURE_LENGTH {
        Err(DpopErrorView::InvalidSignature)
    } else {
        match ed25519_key(x) {
            Err(error) => Err(error),
            Ok(key) => if eddsa_signed(key, message, signature) {
                okp_ed25519_thumbprint(x)
            } else {
                Err(DpopErrorView::InvalidSignature)
            },
        }
    }
}

/// The thumbprint of the key of a proof, if the proof is signed by it.
pub open spec fn signed_jkt(token: DpopTokenView) -> Result<Seq<char>, DpopErrorView> {
    let alg = token.header.alg;
    let message = encode_utf8(token.signing_input);
    let signature = token.signature_bytes;
    match token.header.jwk {
        JwkView::EcP256 { kty, crv, x, y } if alg == "ES256"@ && kty == "EC"@ && crv
            == "P-256"@ => es256_jkt(x, y, message, signature),
        JwkView::OkpEd25519 { kty, crv, x } if alg == "EdDSA"@ && kty == "OKP"@ && crv
            == "Ed25519"@ => eddsa_jkt(x, message, signature),
        _ => Err(alg_error(alg)),
    }
}

// ---------------------------------------------------------------------------
// Claims
// ---------------------------------------------------------------------------

/// The largest number of bytes of a `jti` claim.
pub const JTI_MAX_LENGTH: usize = 512;

/// The claims that a payload spells in base64url.
pub open spec fn claims_of_payload(payload_b64: Seq<char>) -> Result<
    DpopClaimsView,
    DpopErrorView,
> {
    match from_base64url(payload_b64) {
        None => Err(DpopErrorView::MalformedJws),
        Some(json) => match claims_from_json(json) {
            None => Err(DpopErrorView::MalformedJws),
            Some(claims) => if encode_utf8(claims.jti).len() > JTI_MAX_LENGTH {
                Err(DpopErrorView::JtiTooLong)
            } else {
                Ok(claims)
            },
        },
    }
}

/// The normal forms of the method and the URI of a request, if the claims name the same.
pub open spec fn http_binding(
    claims: DpopClaimsView,
    expected_htm: Seq<char>,
    expected_htu: Seq<char>,
) -> Result<(Seq<char>, Seq<char>), DpopErrorView> {
    match (method_normal_form(expected_htm), method_normal_form(claims.htm)) {
        (Err(error), _) => Err(error),
        (Ok(_), Err(error)) => Err(error),
        (Ok(expected), Ok(actual)) => if actual != expected {
            Err(DpopErrorView::HtmMismatch)
        } else {
            let htm = expected;
            match (htu_normal_form(expected_htu), htu_normal_form(claims.htu)) {
                (Err(error), _) => Err(error),
                (Ok(_), Err(error)) => Err(error),
                (Ok(expected), Ok(actual)) => if actual != expected {
                    Err(DpopErrorView::HtuMismatch(actual, expected))
                } else {
                    Ok((htm, expected))
                },
            }
        },
    }
}

/// What is to be said of the claims for an access token: `ath` has to be its digest.
pub open spec fn access_token_verdict(claims: DpopClaimsView, access_token: Seq<char>) -> Result<
    (),
    DpopErrorView,
> {
    match claims.ath {
        None => Err(DpopErrorView::MissingAth),
        Some(ath) => match from_base64url(ath) {
            None => Err(DpopErrorView::AthMalformed),
            Some(hash) => if hash == sha256(encode_utf8(access_token)) {
                Ok(())
            } else {
                Err(DpopErrorView::AthMismatch)
            },
        },
    }
}

/// What is to be said of the time a proof was issued at.
pub open spec fn freshness(options: VerifyOptionsView, iat: i64, now: i64) -> Result<
    (),
    DpopErrorView,
> {
    if iat > now + options.future_skew_seconds {
        Err(DpopErrorView::FutureSkew)
    } else if now - iat > options.max_age_seconds {
        Err(DpopErrorView::Stale)
    } else {
        Ok(())
    }
}

// ---------------------------------------------------------------------------
// Nonce
// ---------------------------------------------------------------------------

/// What a nonce can be bound to.
pub struct NonceScope {
    pub htu: Seq<char>,
    pub htm: Seq<char>,
    pub jkt: Seq<char>,
    pub client: Option<Seq<char>>,
}

/// The context that a nonce is bound to: of what it can be bound to, that which the configuration
/// selects.
pub open spec fn bound_context(config: HmacConfigView, scope: NonceScope) -> NonceCtxView {
    NonceCtxView {
        htu: if config.bind_htu_htm {
            Some(scope.htu)
        } else {
            None
        },
        htm: if config.bind_htu_htm {
            Some(scope.htm)
        } else {
            None
        },
        jkt: if config.bind_jkt {
            Some(scope.jkt)
        } else {
            None
        },
        client: if config.bind_client {
            scope.client
        } else {
            None
        },
    }
}

/// Whether a nonce is there and is accepted in a context.
pub open spec fn nonce_accepted(
    config: HmacConfigView,
    nonce: Option<Seq<char>>,
    ctx: NonceCtxView,
    now: i64,
) -> bool {
    nonce matches Some(nonce) && nonce_verdict(
        config.secret,
        nonce,
        now,
        config.max_age_seconds,
        ctx,
    ) is Ok
}

/// What is to be said of a nonce that has to be the one expected.
pub open spec fn equal_nonce(nonce: Option<Seq<char>>, expected: Seq<char>) -> Result<
    (),
    DpopErrorView,
> {
    match nonce {
        None => Err(DpopErrorView::MissingNonce),
        Some(nonce) => if nonce == expected {
            Ok(())
        } else {
            Err(DpopErrorView::UseDpopNonce(expected))
        },
    }
}

/// The error that asks for a retry with a fresh nonce.
pub open spec fn renewal(
    config: HmacConfigView,
    ctx: NonceCtxView,
    now: i64,
    random: Option<Seq<u8>>,
) -> DpopErrorView {
    match issued(config.secret, now, ctx, random) {
        Ok(fresh) => DpopErrorView::UseDpopNonce(fresh),
        Err(error) => error,
    }
}

/// What is to be said of the nonce of a proof. Where it is not accepted, the answer carries the
/// nonce to retry with.
pub open spec fn nonce_check(
    mode: NonceModeView,
    nonce: Option<Seq<char>>,
    scope: NonceScope,
    now: i64,
    random: Option<Seq<u8>>,
) -> Result<(), DpopErrorView> {
    match mode {
        NonceModeView::Disabled => Ok(()),
        NonceModeView::RequireEqual(expected) => equal_nonce(nonce, expected),
        NonceModeView::Hmac(config) => {
            let ctx = bound_context(config, scope);
            if nonce_accepted(config, nonce, ctx, now) {
                Ok(())
            } else {
                Err(renewal(config, ctx, now, random))
            }
        },
    }
}

/// Whether a retry comes in time for the nonce that was handed out: where nonces age, neither
/// before it nor after its age is over.
pub open spec fn retry_in_time(mode: NonceModeView, now: i64, later: i64) -> bool {
    mode matches NonceModeView::Hmac(config) ==> nonce_in_time(now, later, config.max_age_seconds)
}

/// Whether the nonce that an answer carries, if it does, is accepted on a retry in time.
pub open spec fn retry_accepted(
    mode: NonceModeView,
    outcome: Result<(), DpopErrorView>,
    scope: NonceScope,
    now: i64,
) -> bool {
    outcome matches Err(DpopErrorView::UseDpopNonce(nonce)) ==> forall|
        later: i64,
        random: Option<Seq<u8>>,
    |
        retry_in_time(mode, now, later) ==> #[trigger] nonce_check(
            mode,
            Some(nonce),
            scope,
            later,
            random,
        ) is Ok
}

/// Whether an outcome is that of checking a nonce at some reading of the clock, with some random
/// bytes.
pub open spec fn nonce_checked_by_clock(
    mode: NonceModeView,
    nonce: Option<Seq<char>>,
    scope: NonceScope,
    outcome: Result<(), DpopErrorView>,
) -> bool {
    exists|now: i64, random: Option<Seq<u8>>|
        is_clock(now) && is_random(random) && outcome == #[trigger] nonce_check(
            mode,
            nonce,
            scope,
            now,
            random,
        ) && retry_accepted(mode, outcome, scope, now)
}

// ---------------------------------------------------------------------------
// The whole proof
// ---------------------------------------------------------------------------

/// [`ExaminedProof`], with each text as a sequence of characters.
pub struct ExaminedProofView {
    pub jkt: Seq<char>,
    pub claims: DpopClaimsView,
    pub htm: Seq<char>,
    pub htu: Seq<char>,
}

/// What a proof is presented for.
pub struct RequestView {
    pub htu: Seq<char>,
    pub htm: Seq<char>,
    pub access_token: Option<Seq<char>>,
}

/// What is to be said of the binding to the access token, where there is one.
pub open spec fn token_binding(claims: DpopClaimsView, access_token: Option<Seq<char>>) -> Result<
    (),
    DpopErrorView,
> {
    match access_token {
        Some(access_token) => access_token_verdict(claims, access_token),
        None => Ok(()),
    }
}

/// The claims of a proof with its thumbprint, if they are those of the request.
pub open spec fn examined_claims(
    jkt: Seq<char>,
    payload_b64: Seq<char>,
    request: RequestView,
) -> Result<ExaminedProofView, DpopErrorView> {
    match claims_of_payload(payload_b64) {
        Err(error) => Err(error),
        Ok(claims) => match http_binding(claims, request.htm, request.htu) {
            Err(error) => Err(error),
            Ok((htm, htu)) => match token_binding(claims, request.access_token) {
                Err(error) => Err(error),
                Ok(_) => Ok(ExaminedProofView { jkt, claims, htm, htu }),
            },
        },
    }
}

/// A proof in its compact form, if its signature and claims are those of the request. The first
/// check that fails decides the error.
pub open spec fn examined(jws: Seq<char>, request: RequestView) -> Result<
    ExaminedProofView,
    DpopErrorView,
> {
    match token_from_compact(jws) {
        Err(error) => Err(error),
        Ok(token) => match header_verdict(token.header) {
            Err(error) => Err(error),
            Ok(_) => match signed_jkt(token) {
                Err(error) => Err(error),
                Ok(jkt) => examined_claims(jkt, token.payload_b64, request),
            },
        },
    }
}

/// [`CheckedProof`], with each text as a sequence of characters.
pub struct CheckedProofView {
    pub jkt: Seq<char>,
    pub claims: DpopClaimsView,
    pub client_id: Option<Seq<char>>,
}

/// What the nonce of an examined proof can be bound to.
pub open spec fn scope_of(proof: ExaminedProofView, client_id: Option<Seq<char>>) -> NonceScope {
    NonceScope { htu: proof.htu, htm: proof.htm, jkt: proof.jkt, client: client_id }
}

/// An examined proof, if it is fresh at one time and its nonce is accepted at another.
pub open spec fn checked_examined(
    options: VerifyOptionsView,
    proof: ExaminedProofView,
    now: i64,
    later: i64,
    random: Option<Seq<u8>>,
) -> Result<CheckedProofView, DpopErrorView> {
    match freshness(options, proof.claims.iat, now) {
        Err(error) => Err(error),
        Ok(_) => match nonce_check(
            options.nonce_mode,
            proof.claims.nonce,
            scope_of(proof, options.client_id),
            later,
            random,
        ) {
            Err(error) => Err(error),
            Ok(_) => Ok(
                CheckedProofView {
                    jkt: proof.jkt,
                    claims: proof.claims,
                    client_id: options.client_id,
                },
            ),
        },
    }
}

/// A proof in its compact form, if it is in order but for whether it has been used before: with
/// the readings of the clock for its age and for its nonce, and the random bytes for a fresh nonce.
pub open spec fn checked(
    options: VerifyOptionsView,
    jws: Seq<char>,
    request: RequestView,
    now: i64,
    later: i64,
    random: Option<Seq<u8>>,
) -> Result<CheckedProofView, DpopErrorView> {
    match examined(jws, request) {
        Err(error) => Err(error),
        Ok(proof) => checked_examined(options, proof, now, later, random),
    }
}

/// Whether the nonce that an answer to a proof carries, if it does, is accepted on a retry in time.
pub open spec fn renewal_accepted(
    options: VerifyOptionsView,
    jws: Seq<char>,
    request: RequestView,
    outcome: Result<CheckedProofView, DpopErrorView>,
    now: i64,
) -> bool {
    match (examined(jws, request), outcome) {
        (Ok(proof), Err(error)) => retry_accepted(
            options.nonce_mode,
            Err(error),
            scope_of(proof, options.client_id),
            now,
        ),
        _ => true,
    }
}

/// Whether an outcome is that of checking a proof at some readings of the clock, with some random
/// bytes, and a nonce that it carries is accepted on a retry.
pub open spec fn checked_by_clock(
    options: VerifyOptionsView,
    jws: Seq<char>,
    request: RequestView,
    outcome: Result<CheckedProofView, DpopErrorView>,
) -> bool {
    exists|now: i64, later: i64, random: Option<Seq<u8>>|
        is_clock(now) && is_clock(later) && is_random(random) && outcome == #[trigger] checked(
            options,
            jws,
            request,
            now,
            later,
            random,
        ) && renewal_accepted(options, jws, request, outcome, later)
}

// ---------------------------------------------------------------------------
// Replay
// ---------------------------------------------------------------------------

/// [`VerifiedDpop`], with each text as a sequence of characters.
pub struct VerifiedDpopView {
    pub jkt: Seq<char>,
    pub jti: Seq<char>,
    pub iat: i64,
}

/// What a store is told about a proof.
pub open spec fn replay_context(
    claims: DpopClaimsView,
    jkt: Seq<char>,
    client_id: Option<Seq<char>>,
) -> ReplayContextView {
    ReplayContextView {
        jkt: Some(jkt),
        htm: Some(claims.htm),
        htu: Some(claims.htu),
        client_id,
        iat: claims.iat,
    }
}

/// What is to be said of a proof by the answer of the store.
pub open spec fn replay_verdict(answer: Result<bool, DpopErrorView>) -> Result<(), DpopErrorView> {
    match answer {
        Ok(first) => if first {
            Ok(())
        } else {
            Err(DpopErrorView::Replay)
        },
        Err(error) => Err(error),
    }
}

/// A checked proof, if by the answer of the store it has not been used before.
pub open spec fn concluded(proof: CheckedProofView, answer: Result<bool, DpopErrorView>) -> Result<
    VerifiedDpopView,
    DpopErrorView,
> {
    match replay_verdict(answer) {
        Ok(_) => Ok(
            VerifiedDpopView { jkt: proof.jkt, jti: proof.claims.jti, iat: proof.claims.iat },
        ),
        Err(error) => Err(error),
    }
}

/// What a verification depends on besides the options, the proof and the request.
pub struct Run {
    /// The reading of the clock for the age of the proof.
    pub now: i64,
    /// The reading of the clock for its nonce.
    pub later: i64,
    /// The random bytes for a fresh nonce, where there are any.
    pub random: Option<Seq<u8>>,
    /// The answer of the store, where it is asked.
    pub answer: Result<bool, DpopErrorView>,
}

/// A proof in a run, if it is in order but for whether it has been used before.
pub open spec fn checked_in(
    options: VerifyOptionsView,
    jws: Seq<char>,
    request: RequestView,
    run: Run,
) -> Result<CheckedProofView, DpopErrorView> {
    checked(options, jws, request, run.now, run.later, run.random)
}

/// What the store is asked in a run: the hash of the proof and its context, and nothing where the
/// proof is not in order.
pub open spec fn question(
    options: VerifyOptionsView,
    jws: Seq<char>,
    request: RequestView,
    run: Run,
) -> Option<(Seq<u8>, ReplayContextView)> {
    match checked_in(options, jws, request, run) {
        Err(_) => None,
        Ok(proof) => Some(
            (
                jti_hash(proof.claims.jti),
                replay_context(proof.claims, proof.jkt, proof.client_id),
            ),
        ),
    }
}

/// What a verification comes to in a run.
pub open spec fn verified(
    options: VerifyOptionsView,
    jws: Seq<char>,
    request: RequestView,
    run: Run,
) -> Result<VerifiedDpopView, DpopErrorView> {
    match checked_in(options, jws, request, run) {
        Err(error) => Err(error),
        Ok(proof) => concluded(proof, run.answer),
    }
}

/// Whether a verification in a run has this outcome, and leaves the store like this: it is asked
/// only where the proof is in order, and gives the answer of the run.
pub open spec fn verified_in<S: ReplayStore + ?Sized>(
    options: VerifyOptionsView,
    jws: Seq<char>,
    request: RequestView,
    before: &S,
    after: &S,
    run: Run,
    outcome: Result<VerifiedDpopView, DpopErrorView>,
) -> bool {
    &&& is_clock(run.now) && is_clock(run.later) && is_random(run.random)
    &&& outcome == verified(options, jws, request, run)
    &&& match question(options, jws, request, run) {
        None => before == after,
        Some((hash, ctx)) => S::may_answer(before, hash, ctx, after, run.answer),
    }
    &&& renewal_accepted(
        options,
        jws,
        request,
        checked_in(options, jws, request, run),
        run.later,
    )
}

/// Whether an outcome is that of verifying a proof in some run.
pub open spec fn verified_with<S: ReplayStore + ?Sized>(
    options: VerifyOptionsView,
    jws: Seq<char>,
    request: RequestView,
    before: &S,
    after: &S,
    outcome: Result<VerifiedDpopView, DpopErrorView>,
) -> bool {
    exists|run: Run| #[trigger]
        verified_in::<S>(options, jws, request, before, after, run, outcome)
}

} // verus!
