//! The verifier.

use vstd::prelude::*;
use vstd::utf8::encode_utf8;

use crate::crypto::{
    digest, equal_bytes, is_clock, lemma_some_clock, lemma_some_random, now, random_bytes, sha256,
};
use crate::encoding::{base64url, decode, is_base64url_text};
use crate::error::{text_outcome, verdict, DpopError, DpopErrorView};
use crate::judgment::{
    access_token_verdict, alg_error, bound_context, checked, checked_by_clock, claims_of_payload,
    concluded, equal_nonce, examined, freshness, header_verdict, http_binding, nonce_accepted,
    nonce_check, nonce_checked_by_clock, renewal, renewal_accepted, replay_context, replay_verdict,
    retry_accepted, scope_of, signed_jkt, verified_in, verified_with, CheckedProofView,
    ExaminedProofView, NonceScope, RequestView, Run, VerifiedDpopView, ECDSA_P256_SIGNATURE_LENGTH,
    ED25519_SIGNATURE_LENGTH, JTI_MAX_LENGTH,
};
use crate::jwk::{
    thumbprint_ec_p256, thumbprint_okp_ed25519, verifying_key_from_okp_ed25519,
    verifying_key_from_p256_xy, THUMBPRINT_LENGTH,
};
use crate::nonce::{
    accepted_in_time, is_random, issue_nonce_from, verify_nonce, view_of_random, view_of_str,
    NonceCtx,
};
use crate::options::{
    default_options, ClientBinding, HmacConfig, NonceMode, VerifyOptions, VerifyOptionsView,
};
use crate::replay::{answer_view, jti_hash, JtiHash, ReplayContext, ReplayStore};
use crate::text::{characters, pieces, same_text, split, texts, view_of_text};
use crate::token::{
    read_claims, read_header, token_from_compact, token_outcome, DpopClaims, DpopClaimsView,
    DpopHeader, DpopToken, Jwk,
};
use crate::uri::{normalize_htu, normalize_method};

verus! {

// ---------------------------------------------------------------------------
// The verifier and its options
// ---------------------------------------------------------------------------

/// A verifier of DPoP proofs.
pub struct DpopVerifier {
    options: VerifyOptions,
}

impl View for DpopVerifier {
    type V = VerifyOptionsView;

    closed spec fn view(&self) -> VerifyOptionsView {
        self.options@
    }
}

impl DpopVerifier {
    /// A verifier with the default options.
    pub fn new() -> (verifier: Self)
        ensures
            verifier@ == default_options(),
    {
        Self { options: VerifyOptions::default() }
    }

    /// Sets how old a proof may be, in seconds.
    pub fn with_max_age_seconds(self, max_age_seconds: i64) -> (verifier: Self)
        ensures
            verifier@ == (VerifyOptionsView { max_age_seconds, ..self@ }),
    {
        Self { options: VerifyOptions { max_age_seconds, ..self.options } }
    }

    /// Sets how far in the future a proof may have been issued, in seconds.
    pub fn with_future_skew_seconds(self, future_skew_seconds: i64) -> (verifier: Self)
        ensures
            verifier@ == (VerifyOptionsView { future_skew_seconds, ..self@ }),
    {
        Self { options: VerifyOptions { future_skew_seconds, ..self.options } }
    }

    /// Sets which nonce a proof has to hold.
    pub fn with_nonce_mode(self, nonce_mode: NonceMode) -> (verifier: Self)
        ensures
            verifier@ == (VerifyOptionsView { nonce_mode: nonce_mode@, ..self@ }),
    {
        Self { options: VerifyOptions { nonce_mode, ..self.options } }
    }

    /// Binds the verifier to the client with the identifier.
    pub fn with_client_binding<T: Into<String>>(self, client_id: T) -> (verifier: Self)
        ensures
            exists|id: String| #[trigger]
                call_ensures(<T as Into<String>>::into, (client_id,), id) && verifier@ == (
                VerifyOptionsView { client_id: Some(id@), ..self@ }),
    {
        let client_id: String = client_id.into();
        let binding = ClientBinding::new(client_id);
        Self { options: VerifyOptions { client_binding: Some(binding), ..self.options } }
    }

    /// Removes the binding to a client.
    pub fn without_client_binding(self) -> (verifier: Self)
        ensures
            verifier@ == (VerifyOptionsView { client_id: None, ..self@ }),
    {
        Self { options: VerifyOptions { client_binding: None, ..self.options } }
    }
}

impl Default for DpopVerifier {
    fn default() -> (verifier: Self)
        ensures
            verifier@ == default_options(),
    {
        Self::new()
    }
}

// ---------------------------------------------------------------------------
// The parts of a proof
// ---------------------------------------------------------------------------

/// The outcome of a function that yields two texts.
pub open spec fn pair_outcome(outcome: Result<(String, String), DpopError>) -> Result<
    (Seq<char>, Seq<char>),
    DpopErrorView,
> {
    match outcome {
        Ok((first, second)) => Ok((first@, second@)),
        Err(error) => Err(error@),
    }
}

impl DpopVerifier {
    /// Reads a proof from its compact form.
    pub fn parse_token(&self, dpop_compact_jws: &str) -> (token: Result<DpopToken, DpopError>)
        ensures
            token_outcome(token) == token_from_compact(dpop_compact_jws@),
            token matches Ok(token) ==> base64url(token.signature_bytes@) == split(
                dpop_compact_jws@,
                '.',
            )[2],
    {
        let parts = pieces(dpop_compact_jws, '.');
        assert(forall|i: int| 0 <= i < parts.len() ==> texts(parts@)[i] == #[trigger] parts@[i]@);
        if parts.len() != 3 {
            return Err(DpopError::MalformedJws);
        }
        let header_b64 = parts[0].as_str();
        let payload_b64 = parts[1].as_str();
        let signature_b64 = parts[2].as_str();
        let json = match decode(header_b64) {
            Some(json) => json,
            None => {
                return Err(DpopError::MalformedJws);
            },
        };
        let header = read_header(json.as_slice())?;
        let mut signing_input = String::from(header_b64);
        signing_input.push('.');
        signing_input.append(payload_b64);
        match decode(signature_b64) {
            Some(signature_bytes) => Ok(
                DpopToken {
                    header,
                    payload_b64: String::from(payload_b64),
                    signature_bytes,
                    signing_input,
                },
            ),
            None => Err(DpopError::InvalidSignature),
        }
    }

    /// The error for an algorithm that does not fit the key, or that is not supported.
    fn refuse_alg(alg: &str) -> (error: DpopError)
        ensures
            error@ == alg_error(alg@),
    {
        if same_text(alg, "EdDSA") {
            return DpopError::BadJwk("expect OKP/Ed25519 for EdDSA");
        }
        if same_text(alg, "ES256") {
            return DpopError::BadJwk("expect EC/P-256 for ES256");
        }
        let letters = characters(alg);
        if same_text(alg, "none") || (letters.len() >= 2 && letters[0] == 'H' && letters[1]
            == 'S') {
            return DpopError::InvalidAlg(String::from(alg));
        }
        DpopError::UnsupportedAlg(String::from(alg))
    }

    /// Checks the type and the algorithm of a header.
    pub fn validate_header(&self, header: &DpopHeader) -> (outcome: Result<(), DpopError>)
        ensures
            verdict(outcome) == header_verdict(header@),
    {
        if !same_text(header.typ.as_str(), "dpop+jwt") {
            return Err(DpopError::MalformedJws);
        }
        let alg = header.alg.as_str();
        if !same_text(alg, "ES256") && !same_text(alg, "EdDSA") {
            return Err(Self::refuse_alg(alg));
        }
        Ok(())
    }

    /// Checks the signature of a proof, and computes the thumbprint of its key.
    pub fn verify_signature_and_compute_jkt(&self, token: &DpopToken) -> (jkt: Result<
        String,
        DpopError,
    >)
        ensures
            text_outcome(jkt) == signed_jkt(token@),
            jkt matches Ok(jkt) ==> jkt@.len() == THUMBPRINT_LENGTH && is_base64url_text(jkt@),
    {
        let alg = token.header.alg.as_str();
        let message = token.signing_input.as_str().as_bytes();
        let signature = token.signature_bytes.as_slice();
        match &token.header.jwk {
            Jwk::EcP256 { kty, crv, x, y } => {
                if same_text(alg, "ES256") && same_text(kty.as_str(), "EC") && same_text(
                    crv.as_str(),
                    "P-256",
                ) {
                    if signature.len() != ECDSA_P256_SIGNATURE_LENGTH {
                        return Err(DpopError::InvalidSignature);
                    }
                    let key = verifying_key_from_p256_xy(x.as_str(), y.as_str())?;
                    if !key.verify(message, signature) {
                        return Err(DpopError::InvalidSignature);
                    }
                    return thumbprint_ec_p256(x.as_str(), y.as_str());
                }
            },
            Jwk::OkpEd25519 { kty, crv, x } => {
                if same_text(alg, "EdDSA") && same_text(kty.as_str(), "OKP") && same_text(
                    crv.as_str(),
                    "Ed25519",
                ) {
                    if signature.len() != ED25519_SIGNATURE_LENGTH {
                        return Err(DpopError::InvalidSignature);
                    }
                    let key = verifying_key_from_okp_ed25519(x.as_str())?;
                    if !key.verify(message, signature) {
                        return Err(DpopError::InvalidSignature);
                    }
                    return thumbprint_okp_ed25519(x.as_str());
                }
            },
        }
        Err(Self::refuse_alg(alg))
    }

    /// Reads the claims of a payload.
    fn parse_claims(&self, payload_b64: &str) -> (claims: Result<DpopClaims, DpopError>)
        ensures
            claims matches Ok(claims) ==> claims_of_payload(payload_b64@) == Ok::<
                DpopClaimsView,
                DpopErrorView,
            >(claims@),
            claims matches Err(error) ==> claims_of_payload(payload_b64@) == Err::<
                DpopClaimsView,
                DpopErrorView,
            >(error@),
    {
        let json = match decode(payload_b64) {
            Some(json) => json,
            None => {
                return Err(DpopError::MalformedJws);
            },
        };
        let claims = match read_claims(json.as_slice()) {
            Some(claims) => claims,
            None => {
                return Err(DpopError::MalformedJws);
            },
        };
        if claims.jti.as_str().as_bytes().len() > JTI_MAX_LENGTH {
            return Err(DpopError::JtiTooLong);
        }
        Ok(claims)
    }

    /// Checks that the claims name the method and the URI of the request, and returns the normal
    /// forms of the two.
    pub fn validate_http_binding(
        &self,
        claims: &DpopClaims,
        expected_htm: &str,
        expected_htu: &str,
    ) -> (binding: Result<(String, String), DpopError>)
        ensures
            pair_outcome(binding) == http_binding(claims@, expected_htm@, expected_htu@),
    {
        let expected_htm_normalized = normalize_method(expected_htm)?;
        let actual_htm_normalized = normalize_method(claims.htm.as_str())?;
        if !same_text(actual_htm_normalized.as_str(), expected_htm_normalized.as_str()) {
            return Err(DpopError::HtmMismatch);
        }
        let expected_htu_normalized = normalize_htu(expected_htu)?;
        let actual_htu_normalized = normalize_htu(claims.htu.as_str())?;
        if !same_text(actual_htu_normalized.as_str(), expected_htu_normalized.as_str()) {
            return Err(DpopError::HtuMismatch(actual_htu_normalized, expected_htu_normalized));
        }
        Ok((expected_htm_normalized, expected_htu_normalized))
    }

    /// Checks that the claims are bound to the access token.
    pub fn validate_access_token_binding(
        &self,
        claims: &DpopClaims,
        access_token: &str,
    ) -> (outcome: Result<(), DpopError>)
        ensures
            verdict(outcome) == access_token_verdict(claims@, access_token@),
            outcome is Ok ==> claims@.ath == Some(base64url(sha256(encode_utf8(access_token@)))),
            claims@.ath matches Some(ath) ==> !is_base64url_text(ath) ==> verdict(outcome) == Err::<
                (),
                DpopErrorView,
            >(DpopErrorView::AthMalformed),
    {
        let expected_hash = digest(access_token.as_bytes());
        let ath = match &claims.ath {
            Some(ath) => ath,
            None => {
                return Err(DpopError::MissingAth);
            },
        };
        let actual_hash = match decode(ath.as_str()) {
            Some(hash) => hash,
            None => {
                return Err(DpopError::AthMalformed);
            },
        };
        if !equal_bytes(actual_hash.as_slice(), expected_hash.as_slice()) {
            return Err(DpopError::AthMismatch);
        }
        Ok(())
    }

    /// Checks that a proof was issued neither too long ago nor too far in the future.
    pub fn check_timestamp_freshness_at(&self, iat: i64, now: i64) -> (outcome: Result<
        (),
        DpopError,
    >)
        ensures
            verdict(outcome) == freshness(self@, iat, now),
    {
        if iat as i128 > now as i128 + self.options.future_skew_seconds as i128 {
            return Err(DpopError::FutureSkew);
        }
        if now as i128 - iat as i128 > self.options.max_age_seconds as i128 {
            return Err(DpopError::Stale);
        }
        Ok(())
    }

    /// Checks by the clock that a proof was issued neither too long ago nor too far in the future.
    pub fn check_timestamp_freshness(&self, iat: i64) -> (outcome: Result<(), DpopError>)
        ensures
            exists|now: i64|
                is_clock(now) && verdict(outcome) == #[trigger] freshness(self@, iat, now),
    {
        self.check_timestamp_freshness_at(iat, now())
    }

    /// The context that a nonce is bound to.
    fn nonce_ctx<'a>(
        config: &HmacConfig,
        htu: &'a str,
        htm: &'a str,
        jkt: &'a str,
        client: Option<&'a str>,
    ) -> (ctx: NonceCtx<'a>)
        ensures
            ctx@ == bound_context(
                config@,
                NonceScope { htu: htu@, htm: htm@, jkt: jkt@, client: view_of_str(client) },
            ),
    {
        NonceCtx {
            htu: if config.bind_htu_htm {
                Some(htu)
            } else {
                None
            },
            htm: if config.bind_htu_htm {
                Some(htm)
            } else {
                None
            },
            jkt: if config.bind_jkt {
                Some(jkt)
            } else {
                None
            },
            client: if config.bind_client {
                client
            } else {
                None
            },
        }
    }

    /// Checks that a nonce is the one expected.
    fn validate_expected_nonce(nonce: &Option<String>, expected_nonce: &String) -> (outcome: Result<
        (),
        DpopError,
    >)
        ensures
            verdict(outcome) == equal_nonce(view_of_text(*nonce), expected_nonce@),
    {
        match nonce {
            None => Err(DpopError::MissingNonce),
            Some(nonce) => {
                if same_text(nonce.as_str(), expected_nonce.as_str()) {
                    Ok(())
                } else {
                    Err(DpopError::UseDpopNonce { nonce: expected_nonce.clone() })
                }
            },
        }
    }

    /// Whether a nonce is there and is accepted in a context.
    fn accepts_nonce(config: &HmacConfig, nonce: &Option<String>, ctx: &NonceCtx<'_>, now: i64) -> (
    accepted: bool)
        ensures
            accepted == nonce_accepted(config@, view_of_text(*nonce), ctx@, now),
    {
        match nonce {
            None => false,
            Some(nonce) => {
                let age = config.max_age_seconds;
                verify_nonce(&config.secret, nonce.as_str(), now, age, ctx).is_ok()
            },
        }
    }

    /// The error that asks for a retry with a fresh nonce.
    fn renew_nonce(
        config: &HmacConfig,
        ctx: &NonceCtx<'_>,
        now: i64,
        random: Option<[u8; 16]>,
    ) -> (error: DpopError)
        ensures
            error@ == renewal(config@, ctx@, now, view_of_random(random)),
            error matches DpopError::UseDpopNonce { nonce } ==> accepted_in_time(
                config@.secret,
                nonce@,
                now,
                ctx@,
            ),
    {
        match issue_nonce_from(&config.secret, now, ctx, random) {
            Ok(nonce) => DpopError::UseDpopNonce { nonce },
            Err(error) => error,
        }
    }

    /// Checks the nonce that the claims hold, given the time and the random bytes for a fresh
    /// nonce, where there are any. A nonce that the answer carries is accepted on a retry.
    pub fn validate_nonce_at(
        &self,
        claims: &DpopClaims,
        expected_htu_normalized: &str,
        expected_htm_normalized: &str,
        jkt: &str,
        client_binding: Option<&str>,
        now: i64,
        random: Option<[u8; 16]>,
    ) -> (outcome: Result<(), DpopError>)
        ensures
            verdict(outcome) == nonce_check(
                self@.nonce_mode,
                claims@.nonce,
                NonceScope {
                    htu: expected_htu_normalized@,
                    htm: expected_htm_normalized@,
                    jkt: jkt@,
                    client: view_of_str(client_binding),
                },
                now,
                view_of_random(random),
            ),
            retry_accepted(
                self@.nonce_mode,
                verdict(outcome),
                NonceScope {
                    htu: expected_htu_normalized@,
                    htm: expected_htm_normalized@,
                    jkt: jkt@,
                    client: view_of_str(client_binding),
                },
                now,
            ),
    {
        match &self.options.nonce_mode {
            NonceMode::Disabled => Ok(()),
            NonceMode::RequireEqual { expected_nonce } => Self::validate_expected_nonce(
                &claims.nonce,
                expected_nonce,
            ),
            NonceMode::Hmac(config) => {
                let ctx = Self::nonce_ctx(
                    config,
                    expected_htu_normalized,
                    expected_htm_normalized,
                    jkt,
                    client_binding,
                );
                if Self::accepts_nonce(config, &claims.nonce, &ctx, now) {
                    Ok(())
                } else {
                    Err(Self::renew_nonce(config, &ctx, now, random))
                }
            },
        }
    }

    /// Checks the nonce that the claims hold, by the clock. A nonce that the answer carries is
    /// accepted on a retry.
    pub fn validate_nonce_if_required(
        &self,
        claims: &DpopClaims,
        expected_htu_normalized: &str,
        expected_htm_normalized: &str,
        jkt: &str,
        client_binding: Option<&str>,
    ) -> (outcome: Result<(), DpopError>)
        ensures
            nonce_checked_by_clock(
                self@.nonce_mode,
                claims@.nonce,
                NonceScope {
                    htu: expected_htu_normalized@,
                    htm: expected_htm_normalized@,
                    jkt: jkt@,
                    client: view_of_str(client_binding),
                },
                verdict(outcome),
            ),
    {
        let ghost scope = NonceScope {
            htu: expected_htu_normalized@,
            htm: expected_htm_normalized@,
            jkt: jkt@,
            client: view_of_str(client_binding),
        };
        let ghost mode = self@.nonce_mode;
        let ghost nonce = claims@.nonce;
        proof {
            lemma_some_clock();
            lemma_some_random();
        }
        let ghost some_now = choose|now: i64| is_clock(now);
        let ghost some_random = choose|random: Option<Seq<u8>>| is_random(random);
        let (now, random): (i64, Option<[u8; 16]>) = match &self.options.nonce_mode {
            NonceMode::Hmac(_) => (now(), random_bytes()),
            _ => (0, None),
        };
        let outcome = self.validate_nonce_at(
            claims,
            expected_htu_normalized,
            expected_htm_normalized,
            jkt,
            client_binding,
            now,
            random,
        );
        let ghost (at, bytes) = if mode is Hmac {
            (now, view_of_random(random))
        } else {
            (some_now, some_random)
        };
        assert(verdict(outcome) == nonce_check(mode, nonce, scope, at, bytes));
        outcome
    }
}

// ---------------------------------------------------------------------------
// The whole proof
// ---------------------------------------------------------------------------

/// A proof whose signature and claims are those of the request, with the normal forms of method
/// and URI. How old it is, and its nonce, have not been looked at.
#[derive(Debug)]
pub struct ExaminedProof {
    pub jkt: String,
    pub claims: DpopClaims,
    pub htm: String,
    pub htu: String,
}

impl View for ExaminedProof {
    type V = ExaminedProofView;

    open spec fn view(&self) -> ExaminedProofView {
        ExaminedProofView {
            jkt: self.jkt@,
            claims: self.claims@,
            htm: self.htm@,
            htu: self.htu@,
        }
    }
}

/// The outcome of examining a proof.
pub open spec fn examined_outcome(outcome: Result<ExaminedProof, DpopError>) -> Result<
    ExaminedProofView,
    DpopErrorView,
> {
    match outcome {
        Ok(proof) => Ok(proof@),
        Err(error) => Err(error@),
    }
}

impl DpopVerifier {
    /// Examines a proof: everything that depends on the proof and the request alone.
    pub fn examine(
        &self,
        dpop_compact_jws: &str,
        expected_htu: &str,
        expected_htm: &str,
        access_token: Option<&str>,
    ) -> (proof: Result<ExaminedProof, DpopError>)
        ensures
            examined_outcome(proof) == examined(
                dpop_compact_jws@,
                RequestView {
                    htu: expected_htu@,
                    htm: expected_htm@,
                    access_token: view_of_str(access_token),
                },
            ),
    {
        let token = self.parse_token(dpop_compact_jws)?;
        self.validate_header(&token.header)?;
        let jkt = self.verify_signature_and_compute_jkt(&token)?;
        let claims = self.parse_claims(token.payload_b64.as_str())?;
        let (htm, htu) = self.validate_http_binding(&claims, expected_htm, expected_htu)?;
        if let Some(access_token) = access_token {
            self.validate_access_token_binding(&claims, access_token)?;
        }
        Ok(ExaminedProof { jkt, claims, htm, htu })
    }
}

/// A proof that is in order, but for whether it has been used before.
#[derive(Debug)]
pub struct CheckedProof {
    jkt: String,
    claims: DpopClaims,
    client_id: Option<String>,
}

impl View for CheckedProof {
    type V = CheckedProofView;

    closed spec fn view(&self) -> CheckedProofView {
        CheckedProofView {
            jkt: self.jkt@,
            claims: self.claims@,
            client_id: view_of_text(self.client_id),
        }
    }
}

/// The outcome of checking a proof.
pub open spec fn checked_outcome(outcome: Result<CheckedProof, DpopError>) -> Result<
    CheckedProofView,
    DpopErrorView,
> {
    match outcome {
        Ok(proof) => Ok(proof@),
        Err(error) => Err(error@),
    }
}

impl DpopVerifier {
    /// The client that the verifier is bound to.
    fn client_binding(&self) -> (client_id: Option<&str>)
        ensures
            view_of_str(client_id) == self@.client_id,
    {
        match &self.options.client_binding {
            Some(binding) => Some(binding.client_id.as_str()),
            None => None,
        }
    }

    /// An examined proof that is fresh, by what the check of its nonce came to.
    fn checked_proof(&self, proof: ExaminedProof, nonce: Result<(), DpopError>) -> (checked: Result<
        CheckedProof,
        DpopError,
    >)
        ensures
            checked_outcome(checked) == (match verdict(nonce) {
                Err(error) => Err(error),
                Ok(_) => Ok(
                    CheckedProofView {
                        jkt: proof@.jkt,
                        claims: proof@.claims,
                        client_id: self@.client_id,
                    },
                ),
            }),
    {
        nonce?;
        let client_id = match self.client_binding() {
            Some(client_id) => Some(String::from(client_id)),
            None => None,
        };
        Ok(CheckedProof { jkt: proof.jkt, claims: proof.claims, client_id })
    }

    /// Checks a proof up to whether it has been used before, given the readings of the clock for
    /// its age and for its nonce, and the random bytes for a fresh nonce, where there are any.
    pub fn check_at(
        &self,
        dpop_compact_jws: &str,
        expected_htu: &str,
        expected_htm: &str,
        access_token: Option<&str>,
        now: i64,
        later: i64,
        random: Option<[u8; 16]>,
    ) -> (proof: Result<CheckedProof, DpopError>)
        ensures
            checked_outcome(proof) == checked(
                self@,
                dpop_compact_jws@,
                RequestView {
                    htu: expected_htu@,
                    htm: expected_htm@,
                    access_token: view_of_str(access_token),
                },
                now,
                later,
                view_of_random(random),
            ),
            renewal_accepted(
                self@,
                dpop_compact_jws@,
                RequestView {
                    htu: expected_htu@,
                    htm: expected_htm@,
                    access_token: view_of_str(access_token),
                },
                checked_outcome(proof),
                later,
            ),
    {
        let proof = self.examine(dpop_compact_jws, expected_htu, expected_htm, access_token)?;
        self.check_timestamp_freshness_at(proof.claims.iat, now)?;
        let nonce = self.validate_nonce_at(
            &proof.claims,
            proof.htu.as_str(),
            proof.htm.as_str(),
            proof.jkt.as_str(),
            self.client_binding(),
            later,
            random,
        );
        self.checked_proof(proof, nonce)
    }

    /// Checks a proof by the clock, up to whether it has been used before.
    pub fn check(
        &self,
        dpop_compact_jws: &str,
        expected_htu: &str,
        expected_htm: &str,
        access_token: Option<&str>,
    ) -> (proof: Result<CheckedProof, DpopError>)
        ensures
            checked_by_clock(
                self@,
                dpop_compact_jws@,
                RequestView {
                    htu: expected_htu@,
                    htm: expected_htm@,
                    access_token: view_of_str(access_token),
                },
                checked_outcome(proof),
            ),
    {
        let ghost request = RequestView {
            htu: expected_htu@,
            htm: expected_htm@,
            access_token: view_of_str(access_token),
        };
        proof {
            lemma_some_clock();
            lemma_some_random();
        }
        let ghost some_now = choose|now: i64| is_clock(now);
        let ghost some_random = choose|random: Option<Seq<u8>>| is_random(random);
        let proof = match self.examine(dpop_compact_jws, expected_htu, expected_htm, access_token) {
            Ok(proof) => proof,
            Err(error) => {
                assert(checked(self@, dpop_compact_jws@, request, some_now, some_now, some_random)
                    == Err::<
                    CheckedProofView,
                    DpopErrorView,
                >(error@));
                return Err(error);
            },
        };
        let ghost iat = proof.claims.iat;
        let ghost nonce = proof@.claims.nonce;
        let ghost scope = scope_of(proof@, self@.client_id);
        let fresh = self.check_timestamp_freshness(proof.claims.iat);
        let ghost now = choose|now: i64|
            is_clock(now) && verdict(fresh) == #[trigger] freshness(self@, iat, now);
        if let Err(error) = fresh {
            assert(checked(self@, dpop_compact_jws@, request, now, some_now, some_random) == Err::<
                CheckedProofView,
                DpopErrorView,
            >(error@));
            return Err(error);
        }
        let nonce_outcome = self.validate_nonce_if_required(
            &proof.claims,
            proof.htu.as_str(),
            proof.htm.as_str(),
            proof.jkt.as_str(),
            self.client_binding(),
        );
        let ghost (later, random) = choose|later: i64, random: Option<Seq<u8>>|
            is_clock(later) && is_random(random) && verdict(nonce_outcome)
                == #[trigger] nonce_check(self@.nonce_mode, nonce, scope, later, random)
                && retry_accepted(self@.nonce_mode, verdict(nonce_outcome), scope, later);
        let outcome = self.checked_proof(proof, nonce_outcome);
        assert(checked_outcome(outcome) == checked(
            self@,
            dpop_compact_jws@,
            request,
            now,
            later,
            random,
        ));
        outcome
    }
}

// ---------------------------------------------------------------------------
// Replay
// ---------------------------------------------------------------------------

/// A proof that has been accepted.
#[derive(Debug)]
pub struct VerifiedDpop {
    pub jkt: String,
    pub jti: String,
    pub iat: i64,
}

impl View for VerifiedDpop {
    type V = VerifiedDpopView;

    open spec fn view(&self) -> VerifiedDpopView {
        VerifiedDpopView { jkt: self.jkt@, jti: self.jti@, iat: self.iat }
    }
}

/// The outcome of verifying a proof.
pub open spec fn verified_outcome(outcome: Result<VerifiedDpop, DpopError>) -> Result<
    VerifiedDpopView,
    DpopErrorView,
> {
    match outcome {
        Ok(proof) => Ok(proof@),
        Err(error) => Err(error@),
    }
}

/// Judges a proof by the answer of the store.
fn judge_answer(answer: Result<bool, DpopError>) -> (outcome: Result<(), DpopError>)
    ensures
        verdict(outcome) == replay_verdict(answer_view(answer)),
{
    match answer {
        Ok(true) => Ok(()),
        Ok(false) => Err(DpopError::Replay),
        Err(error) => Err(error),
    }
}

impl CheckedProof {
    /// The hash under which a store remembers the proof.
    pub fn jti_hash(&self) -> (hash: JtiHash)
        ensures
            hash@ == jti_hash(self@.claims.jti),
    {
        JtiHash::from_jti(self.claims.jti.as_str())
    }

    /// What a store is told about the proof.
    pub fn replay_context(&self) -> (ctx: ReplayContext<'_>)
        ensures
            ctx@ == replay_context(self@.claims, self@.jkt, self@.client_id),
    {
        ReplayContext {
            jkt: Some(self.jkt.as_str()),
            htm: Some(self.claims.htm.as_str()),
            htu: Some(self.claims.htu.as_str()),
            client_id: match &self.client_id {
                Some(client_id) => Some(client_id.as_str()),
                None => None,
            },
            iat: self.claims.iat,
        }
    }

    /// Concludes the verification with the answer of the store.
    pub fn conclude(self, answer: Result<bool, DpopError>) -> (proof: Result<
        VerifiedDpop,
        DpopError,
    >)
        ensures
            verified_outcome(proof) == concluded(self@, answer_view(answer)),
    {
        match judge_answer(answer) {
            Ok(()) => Ok(
                VerifiedDpop { jkt: self.jkt, jti: self.claims.jti, iat: self.claims.iat },
            ),
            Err(error) => Err(error),
        }
    }
}

impl DpopVerifier {
    /// Has the store remember a proof, and refuses one that it has seen before.
    pub fn prevent_replay<S: ReplayStore + ?Sized>(
        &self,
        store: &mut S,
        jti_hash: JtiHash,
        claims: &DpopClaims,
        jkt: &str,
        client_binding: Option<&str>,
    ) -> (outcome: Result<(), DpopError>)
        ensures
            exists|answer: Result<bool, DpopErrorView>| #[trigger]
                S::may_answer(
                    old(store),
                    jti_hash@,
                    replay_context(claims@, jkt@, view_of_str(client_binding)),
                    final(store),
                    answer,
                ) && verdict(outcome) == replay_verdict(answer),
    {
        let answer = store.insert_once(
            jti_hash.as_array(),
            ReplayContext {
                jkt: Some(jkt),
                htm: Some(claims.htm.as_str()),
                htu: Some(claims.htu.as_str()),
                client_id: client_binding,
                iat: claims.iat,
            },
        );
        judge_answer(answer)
    }
}

impl DpopVerifier {
    /// Verifies a proof.
    pub fn verify<S: ReplayStore + ?Sized>(
        &self,
        store: &mut S,
        dpop_compact_jws: &str,
        expected_htu: &str,
        expected_htm: &str,
        access_token: Option<&str>,
    ) -> (proof: Result<VerifiedDpop, DpopError>)
        ensures
            verified_with::<S>(
                self@,
                dpop_compact_jws@,
                RequestView {
                    htu: expected_htu@,
                    htm: expected_htm@,
                    access_token: view_of_str(access_token),
                },
                old(store),
                final(store),
                verified_outcome(proof),
            ),
    {
        let ghost request = RequestView {
            htu: expected_htu@,
            htm: expected_htm@,
            access_token: view_of_str(access_token),
        };
        let in_order = self.check(dpop_compact_jws, expected_htu, expected_htm, access_token);
        let ghost outcome = checked_outcome(in_order);
        let ghost (now, later, random) = choose|now: i64, later: i64, random: Option<Seq<u8>>|
            is_clock(now) && is_clock(later) && is_random(random) && outcome == #[trigger] checked(
                self@,
                dpop_compact_jws@,
                request,
                now,
                later,
                random,
            ) && renewal_accepted(self@, dpop_compact_jws@, request, outcome, later);
        let proof = match in_order {
            Ok(proof) => proof,
            Err(error) => {
                assert(verified_in::<S>(
                    self@,
                    dpop_compact_jws@,
                    request,
                    old(store),
                    &*store,
                    Run { now, later, random, answer: Ok(true) },
                    Err(error@),
                ));
                return Err(error);
            },
        };
        let client_binding = self.client_binding();
        let first_use = self.prevent_replay(
            store,
            JtiHash::from_jti(proof.claims.jti.as_str()),
            &proof.claims,
            proof.jkt.as_str(),
            client_binding,
        );
        let ghost answer = choose|answer: Result<bool, DpopErrorView>| #[trigger]
            S::may_answer(
                old(store),
                jti_hash(proof@.claims.jti),
                replay_context(proof@.claims, proof@.jkt, proof@.client_id),
                &*store,
                answer,
            ) && verdict(first_use) == replay_verdict(answer);
        assert(verified_in::<S>(
            self@,
            dpop_compact_jws@,
            request,
            old(store),
            &*store,
            Run { now, later, random, answer },
            concluded(proof@, answer),
        ));
        first_use?;
        Ok(VerifiedDpop { jkt: proof.jkt, jti: proof.claims.jti, iat: proof.claims.iat })
    }
}

/// Verifies a proof with the options given.
pub fn verify_proof<S: ReplayStore + ?Sized>(
    store: &mut S,
    dpop_compact_jws: &str,
    expected_htu: &str,
    expected_htm: &str,
    access_token: Option<&str>,
    opts: VerifyOptions,
) -> (proof: Result<VerifiedDpop, DpopError>)
    ensures
        verified_with::<S>(
            opts@,
            dpop_compact_jws@,
            RequestView {
                htu: expected_htu@,
                htm: expected_htm@,
                access_token: view_of_str(access_token),
            },
            old(store),
            final(store),
            verified_outcome(proof),
        ),
{
    let verifier = DpopVerifier { options: opts };
    verifier.verify(store, dpop_compact_jws, expected_htu, expected_htm, access_token)
}

} // verus!
