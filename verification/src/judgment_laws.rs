//! What each check says, for all inputs: each verdict with the inputs that give it.

use vstd::prelude::*;
use vstd::utf8::{encode_utf8, encode_utf8_decode_utf8};

use crate::crypto::{
    ed25519_point, eddsa_signed, es256_signed, is_clock, is_random, p256_point, sha256,
};
use crate::encoding::{base64url, from_base64url};
use crate::error::DpopErrorView;
use crate::judgment::{
    access_token_verdict, checked, checked_by_clock, checked_in, claims_of_payload, concluded,
    examined, freshness, header_verdict, http_binding, nonce_check, nonce_checked_by_clock,
    question, renewal_accepted, replay_verdict, retry_accepted,
    retry_in_time, signed_jkt, verified, verified_in,
    verified_with, CheckedProofView, ExaminedProofView, NonceScope, RequestView, Run,
    VerifiedDpopView,
};
use crate::jwk::{ec_p256_thumbprint, ed25519_key, okp_ed25519_thumbprint, p256_key};
use crate::laws::remembers;
use crate::options::{NonceModeView, VerifyOptionsView};
use crate::replay::{jti_hash, ReplayContextView, ReplayStore};
use crate::token::{
    claims_from_json, token_from_compact, DpopClaimsView, DpopHeaderView, DpopTokenView, JwkView,
};
use crate::uri::{htu_normal_form, method_normal_form};

verus! {

// ---------------------------------------------------------------------------
// Keys and signatures
// ---------------------------------------------------------------------------

/// A P-256 key is two base64url texts of thirty-two bytes each that are a point on the curve, and
/// nothing else is one.
pub proof fn lemma_p256_key_decided(x: Seq<char>, y: Seq<char>)
    ensures
        p256_key(x, y) is Ok <==> {
            &&& from_base64url(x) is Some && from_base64url(x)->0.len() == 32
            &&& from_base64url(y) is Some && from_base64url(y)->0.len() == 32
            &&& p256_point(from_base64url(x)->0, from_base64url(y)->0)
        },
        p256_key(x, y) is Ok ==> p256_key(x, y)->Ok_0.x == from_base64url(x)->0 && p256_key(
            x,
            y,
        )->Ok_0.y == from_base64url(y)->0,
        p256_key(x, y) matches Err(error) ==> error is BadJwk,
{
}

/// An Ed25519 key is a base64url text of thirty-two bytes that are a point on the curve, and
/// nothing else is one.
pub proof fn lemma_ed25519_key_decided(x: Seq<char>)
    ensures
        ed25519_key(x) is Ok <==> from_base64url(x) is Some && from_base64url(x)->0.len() == 32
            && ed25519_point(from_base64url(x)->0),
        ed25519_key(x) is Ok ==> ed25519_key(x)->Ok_0 == from_base64url(x)->0,
        ed25519_key(x) matches Err(error) ==> error is BadJwk,
{
}

/// A thumbprint is the base64url digest of the members of the key that identify it, whole, in
/// lexicographic order and without white space.
pub proof fn lemma_thumbprints(x: Seq<char>, y: Seq<char>)
    ensures
        from_base64url(x) is Some && from_base64url(y) is Some ==> ec_p256_thumbprint(x, y) == Ok::<
            Seq<char>,
            DpopErrorView,
        >(
            base64url(
                sha256(
                    encode_utf8(
                        "{\"crv\":\"P-256\",\"kty\":\"EC\",\"x\":\""@ + x + "\",\"y\":\""@ + y
                            + "\"}"@,
                    ),
                ),
            ),
        ),
        from_base64url(x) is None || from_base64url(y) is None ==> ec_p256_thumbprint(x, y) is Err,
        from_base64url(x) is Some ==> okp_ed25519_thumbprint(x) == Ok::<Seq<char>, DpopErrorView>(
            base64url(
                sha256(
                    encode_utf8("{\"crv\":\"Ed25519\",\"kty\":\"OKP\",\"x\":\""@ + x + "\"}"@),
                ),
            ),
        ),
        from_base64url(x) is None ==> okp_ed25519_thumbprint(x) is Err,
{
}

/// A proof with ES256 and a P-256 key is signed exactly when the signature has sixty-four bytes,
/// the key is one, and it made the signature over the signed text; the thumbprint is that of the
/// key.
pub proof fn lemma_es256_decided(
    token: DpopTokenView,
    x: Seq<char>,
    y: Seq<char>,
)
    requires
        token.header.alg == "ES256"@,
        token.header.jwk == (JwkView::EcP256 { kty: "EC"@, crv: "P-256"@, x, y }),
    ensures
        token.signature_bytes.len() != 64 ==> signed_jkt(token) == Err::<Seq<char>, DpopErrorView>(
            DpopErrorView::InvalidSignature,
        ),
        token.signature_bytes.len() == 64 ==> match p256_key(x, y) {
            Err(error) => signed_jkt(token) == Err::<Seq<char>, DpopErrorView>(error),
            Ok(key) => if es256_signed(
                key.x,
                key.y,
                encode_utf8(token.signing_input),
                token.signature_bytes,
            ) {
                signed_jkt(token) == ec_p256_thumbprint(x, y) && signed_jkt(token) is Ok
            } else {
                signed_jkt(token) == Err::<Seq<char>, DpopErrorView>(
                    DpopErrorView::InvalidSignature,
                )
            },
        },
{
    reveal_strlit("EdDSA");
    reveal_strlit("ES256");
    assert("EdDSA"@[1] == 'd' && "ES256"@[1] == 'S');
}

/// A proof with EdDSA and an Ed25519 key is signed exactly when the signature has sixty-four
/// bytes, the key is one, and it made the signature over the signed text; the thumbprint is that of
/// the key.
pub proof fn lemma_eddsa_decided(token: DpopTokenView, x: Seq<char>)
    requires
        token.header.alg == "EdDSA"@,
        token.header.jwk == (JwkView::OkpEd25519 { kty: "OKP"@, crv: "Ed25519"@, x }),
    ensures
        token.signature_bytes.len() != 64 ==> signed_jkt(token) == Err::<Seq<char>, DpopErrorView>(
            DpopErrorView::InvalidSignature,
        ),
        token.signature_bytes.len() == 64 ==> match ed25519_key(x) {
            Err(error) => signed_jkt(token) == Err::<Seq<char>, DpopErrorView>(error),
            Ok(key) => if eddsa_signed(
                key,
                encode_utf8(token.signing_input),
                token.signature_bytes,
            ) {
                signed_jkt(token) == okp_ed25519_thumbprint(x) && signed_jkt(token) is Ok
            } else {
                signed_jkt(token) == Err::<Seq<char>, DpopErrorView>(
                    DpopErrorView::InvalidSignature,
                )
            },
        },
{
    reveal_strlit("EdDSA");
    reveal_strlit("ES256");
    assert("EdDSA"@[1] == 'd' && "ES256"@[1] == 'S');
}

/// The algorithm and the key have to fit each other. Where they do not, the error says so for the
/// two algorithms that are supported, and names the algorithm for any other: as one that is never
/// allowed where it needs no key or a shared secret, and else as one that is not supported.
pub proof fn lemma_alg_and_key(token: DpopTokenView)
    ensures
        signed_jkt(token) is Ok ==> (token.header.alg == "ES256"@ && token.header.jwk is EcP256
            && token.header.jwk->EcP256_kty == "EC"@ && token.header.jwk->EcP256_crv == "P-256"@)
            || (token.header.alg == "EdDSA"@ && token.header.jwk is OkpEd25519
            && token.header.jwk->OkpEd25519_kty == "OKP"@ && token.header.jwk->OkpEd25519_crv
            == "Ed25519"@),
        token.header.alg == "ES256"@ && !(token.header.jwk is EcP256
            && token.header.jwk->EcP256_kty == "EC"@ && token.header.jwk->EcP256_crv == "P-256"@)
            ==> signed_jkt(token) == Err::<Seq<char>, DpopErrorView>(
            DpopErrorView::BadJwk("expect EC/P-256 for ES256"@),
        ),
        token.header.alg == "EdDSA"@ && !(token.header.jwk is OkpEd25519
            && token.header.jwk->OkpEd25519_kty == "OKP"@ && token.header.jwk->OkpEd25519_crv
            == "Ed25519"@) ==> signed_jkt(token) == Err::<Seq<char>, DpopErrorView>(
            DpopErrorView::BadJwk("expect OKP/Ed25519 for EdDSA"@),
        ),
        token.header.alg != "ES256"@ && token.header.alg != "EdDSA"@ ==> {
            let never = token.header.alg == "none"@ || (token.header.alg.len() >= 2
                && token.header.alg[0] == 'H' && token.header.alg[1] == 'S');
            &&& never ==> signed_jkt(token) == Err::<Seq<char>, DpopErrorView>(
                DpopErrorView::InvalidAlg(token.header.alg),
            )
            &&& !never ==> signed_jkt(token) == Err::<Seq<char>, DpopErrorView>(
                DpopErrorView::UnsupportedAlg(token.header.alg),
            )
        },
{
    reveal_strlit("EdDSA");
    reveal_strlit("ES256");
    assert("EdDSA"@[1] == 'd' && "ES256"@[1] == 'S');
}

/// A header passes exactly when its type is that of a proof and its algorithm one of the two. The
/// type decides first; another algorithm gets the error that the signature check gives for it.
pub proof fn lemma_header_decided(header: DpopHeaderView)
    ensures
        header_verdict(header) is Ok <==> header.typ == "dpop+jwt"@ && (header.alg == "ES256"@
            || header.alg == "EdDSA"@),
        header.typ != "dpop+jwt"@ ==> header_verdict(header) == Err::<(), DpopErrorView>(
            DpopErrorView::MalformedJws,
        ),
        header.typ == "dpop+jwt"@ && header.alg != "ES256"@ && header.alg != "EdDSA"@ ==> {
            let never = header.alg == "none"@ || (header.alg.len() >= 2 && header.alg[0] == 'H'
                && header.alg[1] == 'S');
            &&& never ==> header_verdict(header) == Err::<(), DpopErrorView>(
                DpopErrorView::InvalidAlg(header.alg),
            )
            &&& !never ==> header_verdict(header) == Err::<(), DpopErrorView>(
                DpopErrorView::UnsupportedAlg(header.alg),
            )
        },
        forall|token: DpopTokenView|
            token.header == header && header.alg != "ES256"@ && header.alg != "EdDSA"@
                && header.typ == "dpop+jwt"@ ==> (#[trigger] signed_jkt(token)) is Err
                && signed_jkt(token)->Err_0 == header_verdict(header)->Err_0,
{
}

// ---------------------------------------------------------------------------
// Claims
// ---------------------------------------------------------------------------

/// The claims of a payload are those of its bytes, where the `jti` has at most five hundred and
/// twelve.
pub proof fn lemma_payload_decided(payload: Seq<char>)
    ensures
        from_base64url(payload) is None ==> claims_of_payload(payload) == Err::<
            DpopClaimsView,
            DpopErrorView,
        >(DpopErrorView::MalformedJws),
        from_base64url(payload) matches Some(json) ==> match claims_from_json(json) {
            None => claims_of_payload(payload) == Err::<DpopClaimsView, DpopErrorView>(
                DpopErrorView::MalformedJws,
            ),
            Some(claims) => if encode_utf8(claims.jti).len() <= 512 {
                claims_of_payload(payload) == Ok::<DpopClaimsView, DpopErrorView>(claims)
            } else {
                claims_of_payload(payload) == Err::<DpopClaimsView, DpopErrorView>(
                    DpopErrorView::JtiTooLong,
                )
            },
        },
{
}

/// A proof is bound to an access token exactly when `ath` spells the digest of all of it, however
/// long it is.
pub proof fn lemma_access_token_decided(claims: DpopClaimsView, access_token: Seq<char>)
    ensures
        access_token_verdict(claims, access_token) is Ok <==> claims.ath is Some && from_base64url(
            claims.ath->0,
        ) == Some(sha256(encode_utf8(access_token))),
        claims.ath is None ==> access_token_verdict(claims, access_token) == Err::<
            (),
            DpopErrorView,
        >(DpopErrorView::MissingAth),
        claims.ath is Some && from_base64url(claims.ath->0) is None ==> access_token_verdict(
            claims,
            access_token,
        ) == Err::<(), DpopErrorView>(DpopErrorView::AthMalformed),
        claims.ath is Some && from_base64url(claims.ath->0) is Some && from_base64url(
            claims.ath->0,
        )->0 != sha256(encode_utf8(access_token)) ==> access_token_verdict(claims, access_token)
            == Err::<(), DpopErrorView>(DpopErrorView::AthMismatch),
{
}

/// A proof that is bound to two access tokens that differ shows two messages with the same digest.
pub proof fn lemma_two_access_tokens(claims: DpopClaimsView, left: Seq<char>, right: Seq<char>)
    requires
        left != right,
        access_token_verdict(claims, left) is Ok,
        access_token_verdict(claims, right) is Ok,
    ensures
        encode_utf8(left) != encode_utf8(right),
        sha256(encode_utf8(left)) == sha256(encode_utf8(right)),
{
    encode_utf8_decode_utf8(left);
    encode_utf8_decode_utf8(right);
}

/// Which errors the comparison with the request gives, and which normal forms it hands on.
pub proof fn lemma_http_binding_decided(claims: DpopClaimsView, htm: Seq<char>, htu: Seq<char>)
    ensures
        method_normal_form(htm) matches Err(error) ==> http_binding(claims, htm, htu) == Err::<
            (Seq<char>, Seq<char>),
            DpopErrorView,
        >(error),
        method_normal_form(htm) is Ok && method_normal_form(claims.htm) is Err ==> http_binding(
            claims,
            htm,
            htu,
        ) == Err::<(Seq<char>, Seq<char>), DpopErrorView>(method_normal_form(claims.htm)->Err_0),
        method_normal_form(htm) is Ok && method_normal_form(claims.htm) is Ok
            && method_normal_form(htm)->Ok_0 != method_normal_form(claims.htm)->Ok_0
            ==> http_binding(claims, htm, htu) == Err::<(Seq<char>, Seq<char>), DpopErrorView>(
            DpopErrorView::HtmMismatch,
        ),
        method_normal_form(htm) is Ok && method_normal_form(claims.htm) == method_normal_form(htm)
            ==> {
            &&& htu_normal_form(htu) matches Err(error) ==> http_binding(claims, htm, htu) == Err::<
                (Seq<char>, Seq<char>),
                DpopErrorView,
            >(error)
            &&& htu_normal_form(htu) is Ok && htu_normal_form(claims.htu) is Err ==> http_binding(
                claims,
                htm,
                htu,
            ) == Err::<(Seq<char>, Seq<char>), DpopErrorView>(htu_normal_form(claims.htu)->Err_0)
            &&& htu_normal_form(htu) is Ok && htu_normal_form(claims.htu) is Ok
                && htu_normal_form(htu)->Ok_0 != htu_normal_form(claims.htu)->Ok_0 ==> http_binding(
                claims,
                htm,
                htu,
            ) == Err::<(Seq<char>, Seq<char>), DpopErrorView>(
                DpopErrorView::HtuMismatch(
                    htu_normal_form(claims.htu)->Ok_0,
                    htu_normal_form(htu)->Ok_0,
                ),
            )
            &&& htu_normal_form(htu) is Ok && htu_normal_form(claims.htu) == htu_normal_form(htu)
                ==> http_binding(claims, htm, htu) == Ok::<(Seq<char>, Seq<char>), DpopErrorView>(
                (method_normal_form(htm)->Ok_0, htu_normal_form(htu)->Ok_0),
            )
        },
{
}

/// A proof is in time exactly in its window. Issued later it is from the future, and issued
/// earlier it is stale.
pub proof fn lemma_freshness_decided(options: VerifyOptionsView, iat: i64, now: i64)
    ensures
        freshness(options, iat, now) is Ok <==> iat - now <= options.future_skew_seconds && now
            - iat <= options.max_age_seconds,
        iat - now > options.future_skew_seconds ==> freshness(options, iat, now) == Err::<
            (),
            DpopErrorView,
        >(DpopErrorView::FutureSkew),
        iat - now <= options.future_skew_seconds && now - iat > options.max_age_seconds
            ==> freshness(options, iat, now) == Err::<(), DpopErrorView>(DpopErrorView::Stale),
{
}

/// With the same limits, two proofs judged at the same reading of the clock keep their order: one
/// between two that are fresh is fresh.
pub proof fn lemma_freshness_between(
    options: VerifyOptionsView,
    early: i64,
    iat: i64,
    late: i64,
    now: i64,
)
    requires
        early <= iat <= late,
        freshness(options, early, now) is Ok,
        freshness(options, late, now) is Ok,
    ensures
        freshness(options, iat, now) is Ok,
{
}

// ---------------------------------------------------------------------------
// The whole proof
// ---------------------------------------------------------------------------

/// The checks are made in their order, and the first that fails decides the error: form, header,
/// signature, claims, request, access token.
pub proof fn lemma_examined_in_order(jws: Seq<char>, request: RequestView)
    ensures
        token_from_compact(jws) matches Err(error) ==> examined(jws, request) == Err::<
            ExaminedProofView,
            DpopErrorView,
        >(error),
        token_from_compact(jws) matches Ok(token) ==> {
            &&& header_verdict(token.header) matches Err(error) ==> examined(jws, request) == Err::<
                ExaminedProofView,
                DpopErrorView,
            >(error)
            &&& header_verdict(token.header) is Ok ==> {
                &&& signed_jkt(token) matches Err(error) ==> examined(jws, request) == Err::<
                    ExaminedProofView,
                    DpopErrorView,
                >(error)
                &&& signed_jkt(token) is Ok ==> {
                    &&& claims_of_payload(token.payload_b64) matches Err(error) ==> examined(
                        jws,
                        request,
                    ) == Err::<ExaminedProofView, DpopErrorView>(error)
                    &&& claims_of_payload(token.payload_b64) matches Ok(claims) ==> {
                        &&& http_binding(claims, request.htm, request.htu) matches Err(error)
                            ==> examined(jws, request) == Err::<ExaminedProofView, DpopErrorView>(
                            error,
                        )
                        &&& http_binding(claims, request.htm, request.htu) matches Ok((htm, htu))
                            ==> if request.access_token is Some && access_token_verdict(
                            claims,
                            request.access_token->0,
                        ) is Err {
                            examined(jws, request) == Err::<ExaminedProofView, DpopErrorView>(
                                access_token_verdict(claims, request.access_token->0)->Err_0,
                            )
                        } else {
                            let jkt = signed_jkt(token)->Ok_0;
                            examined(jws, request) == Ok::<ExaminedProofView, DpopErrorView>(
                                ExaminedProofView { jkt, claims, htm, htu },
                            )
                        }
                    }
                }
            }
        },
{
}

/// What has been examined is checked for its age at one reading of the clock, and for its nonce at
/// another, in the scope of its own key, the request and the client of the verifier.
pub proof fn lemma_checked_in_order(
    options: VerifyOptionsView,
    jws: Seq<char>,
    request: RequestView,
    now: i64,
    later: i64,
    random: Option<Seq<u8>>,
)
    ensures
        examined(jws, request) matches Err(error) ==> checked(
            options,
            jws,
            request,
            now,
            later,
            random,
        ) == Err::<CheckedProofView, DpopErrorView>(error),
        examined(jws, request) matches Ok(proof) ==> {
            let scope = NonceScope {
                htu: proof.htu,
                htm: proof.htm,
                jkt: proof.jkt,
                client: options.client_id,
            };
            let nonce = nonce_check(options.nonce_mode, proof.claims.nonce, scope, later, random);
            &&& freshness(options, proof.claims.iat, now) matches Err(error) ==> checked(
                options,
                jws,
                request,
                now,
                later,
                random,
            ) == Err::<CheckedProofView, DpopErrorView>(error)
            &&& freshness(options, proof.claims.iat, now) is Ok && nonce is Err ==> checked(
                options,
                jws,
                request,
                now,
                later,
                random,
            ) == Err::<CheckedProofView, DpopErrorView>(nonce->Err_0)
            &&& freshness(options, proof.claims.iat, now) is Ok && nonce is Ok ==> checked(
                options,
                jws,
                request,
                now,
                later,
                random,
            ) == Ok::<CheckedProofView, DpopErrorView>(
                CheckedProofView {
                    jkt: proof.jkt,
                    claims: proof.claims,
                    client_id: options.client_id,
                },
            )
        },
{
}

/// What is checked by the clock is judged at readings that the clock gave and with bytes that the
/// operating system gave.
pub proof fn lemma_checked_by_clock(
    options: VerifyOptionsView,
    jws: Seq<char>,
    request: RequestView,
    outcome: Result<CheckedProofView, DpopErrorView>,
)
    requires
        checked_by_clock(options, jws, request, outcome),
    ensures
        exists|now: i64, later: i64, random: Option<Seq<u8>>|
            is_clock(now) && is_clock(later) && is_random(random) && #[trigger] checked(
                options,
                jws,
                request,
                now,
                later,
                random,
            ) == outcome && renewal_accepted(options, jws, request, outcome, later),
{
}

/// A nonce that an answer to a proof carries is accepted on a retry: for the same key, request and
/// client, at each time in its window.
pub proof fn lemma_renewal_window(
    options: VerifyOptionsView,
    jws: Seq<char>,
    request: RequestView,
    proof: ExaminedProofView,
    nonce: Seq<char>,
    issued_at: i64,
    later: i64,
    random: Option<Seq<u8>>,
)
    requires
        examined(jws, request) == Ok::<ExaminedProofView, DpopErrorView>(proof),
        renewal_accepted(
            options,
            jws,
            request,
            Err(DpopErrorView::UseDpopNonce(nonce)),
            issued_at,
        ),
        options.nonce_mode matches NonceModeView::Hmac(config) ==> issued_at - 5 <= later
            <= issued_at + config.max_age_seconds,
    ensures
        nonce_check(
            options.nonce_mode,
            Some(nonce),
            NonceScope {
                htu: proof.htu,
                htm: proof.htm,
                jkt: proof.jkt,
                client: options.client_id,
            },
            later,
            random,
        ) is Ok,
{
    assert(retry_in_time(options.nonce_mode, issued_at, later));
}

/// The same of a nonce.
pub proof fn lemma_nonce_by_clock(
    mode: NonceModeView,
    nonce: Option<Seq<char>>,
    scope: NonceScope,
    outcome: Result<(), DpopErrorView>,
)
    requires
        nonce_checked_by_clock(mode, nonce, scope, outcome),
    ensures
        exists|now: i64, random: Option<Seq<u8>>|
            is_clock(now) && is_random(random) && #[trigger] nonce_check(
                mode,
                nonce,
                scope,
                now,
                random,
            ) == outcome && retry_accepted(mode, outcome, scope, now),
{
}

// ---------------------------------------------------------------------------
// Replay
// ---------------------------------------------------------------------------

/// The hash of a `jti` is the digest of all of it, so that two that differ and have the same hash
/// are two messages with the same digest.
pub proof fn lemma_jti_hash(left: Seq<char>, right: Seq<char>)
    ensures
        jti_hash(left) == sha256(encode_utf8(left)),
        left != right ==> encode_utf8(left) != encode_utf8(right),
        left != right && jti_hash(left) == jti_hash(right) ==> sha256(encode_utf8(left)) == sha256(
            encode_utf8(right),
        ),
{
    encode_utf8_decode_utf8(left);
    encode_utf8_decode_utf8(right);
}

/// The answer of the store decides: a proof that is new is accepted with its own thumbprint, `jti`
/// and time, one that is not is a replay, and a failure of the store is handed on.
pub proof fn lemma_concluded(proof: CheckedProofView, answer: Result<bool, DpopErrorView>)
    ensures
        answer == Ok::<bool, DpopErrorView>(true) ==> concluded(proof, answer) == Ok::<
            VerifiedDpopView,
            DpopErrorView,
        >(VerifiedDpopView { jkt: proof.jkt, jti: proof.claims.jti, iat: proof.claims.iat }),
        answer == Ok::<bool, DpopErrorView>(false) ==> concluded(proof, answer) == Err::<
            VerifiedDpopView,
            DpopErrorView,
        >(DpopErrorView::Replay),
        answer matches Err(error) ==> concluded(proof, answer) == Err::<
            VerifiedDpopView,
            DpopErrorView,
        >(error),
{
}

/// In a run the store is asked exactly about a proof that is in order, by the digest of its `jti`,
/// and its answer decides then, and only then.
pub proof fn lemma_run(
    options: VerifyOptionsView,
    jws: Seq<char>,
    request: RequestView,
    run: Run,
)
    ensures
        checked_in(options, jws, request, run) == checked(
            options,
            jws,
            request,
            run.now,
            run.later,
            run.random,
        ),
        match checked(options, jws, request, run.now, run.later, run.random) {
            Err(error) => question(options, jws, request, run) is None && verified(
                options,
                jws,
                request,
                run,
            ) == Err::<VerifiedDpopView, DpopErrorView>(error),
            Ok(proof) => {
                &&& question(options, jws, request, run) == Some(
                    (
                        sha256(encode_utf8(proof.claims.jti)),
                        ReplayContextView {
                            jkt: Some(proof.jkt),
                            htm: Some(proof.claims.htm),
                            htu: Some(proof.claims.htu),
                            client_id: proof.client_id,
                            iat: proof.claims.iat,
                        },
                    ),
                )
                &&& verified(options, jws, request, run) is Ok <==> run.answer == Ok::<
                    bool,
                    DpopErrorView,
                >(true)
            },
        },
{
}

/// What a verification asks the store, and what it says: nothing is asked about a proof that is
/// not in order, and the store is as it was; about one that is, the digest of its `jti` is asked,
/// with its own key, method, URI and time and the client of the verifier, and the answer decides.
pub proof fn lemma_verification<S: ReplayStore + ?Sized>(
    options: VerifyOptionsView,
    jws: Seq<char>,
    request: RequestView,
    before: &S,
    after: &S,
    outcome: Result<VerifiedDpopView, DpopErrorView>,
)
    requires
        verified_with::<S>(options, jws, request, before, after, outcome),
    ensures
        exists|
            now: i64,
            later: i64,
            random: Option<Seq<u8>>,
            answer: Result<bool, DpopErrorView>,
        |
            #![trigger checked(options, jws, request, now, later, random), replay_verdict(answer)]
            is_clock(now) && is_clock(later) && is_random(random) && match checked(
                options,
                jws,
                request,
                now,
                later,
                random,
            ) {
                Err(error) => before == after && outcome == Err::<VerifiedDpopView, DpopErrorView>(
                    error,
                ),
                Ok(proof) => {
                    &&& S::may_answer(
                        before,
                        sha256(encode_utf8(proof.claims.jti)),
                        ReplayContextView {
                            jkt: Some(proof.jkt),
                            htm: Some(proof.claims.htm),
                            htu: Some(proof.claims.htu),
                            client_id: proof.client_id,
                            iat: proof.claims.iat,
                        },
                        after,
                        answer,
                    )
                    &&& outcome is Ok <==> answer == Ok::<bool, DpopErrorView>(true)
                    &&& outcome matches Ok(accepted) ==> accepted.jkt == proof.jkt && accepted.jti
                        == proof.claims.jti && accepted.iat == proof.claims.iat
                    &&& answer == Ok::<bool, DpopErrorView>(false) ==> outcome == Err::<
                        VerifiedDpopView,
                        DpopErrorView,
                    >(DpopErrorView::Replay)
                    &&& answer matches Err(error) ==> outcome == Err::<
                        VerifiedDpopView,
                        DpopErrorView,
                    >(error)
                },
            },
{
    let run = choose|run: Run| #[trigger]
        verified_in::<S>(options, jws, request, before, after, run, outcome);
    let checked = checked(options, jws, request, run.now, run.later, run.random);
    let said = replay_verdict(run.answer);
}

/// With a store that remembers, and that has seen nothing but the hashes of some `jti` claims, a
/// proof in order whose `jti` is none of them is accepted, unless the store fails or two messages
/// have the same digest.
pub proof fn lemma_new_jti_accepted<S: ReplayStore>(
    seen: spec_fn(S) -> Set<Seq<u8>>,
    earlier: Set<Seq<char>>,
    options: VerifyOptionsView,
    jws: Seq<char>,
    request: RequestView,
    before: S,
    after: S,
    run: Run,
    outcome: Result<VerifiedDpopView, DpopErrorView>,
)
    requires
        remembers(seen),
        verified_in::<S>(options, jws, request, &before, &after, run, outcome),
        checked(options, jws, request, run.now, run.later, run.random) is Ok,
        run.answer is Ok,
        forall|hash: Seq<u8>| #[trigger]
            seen(before).contains(hash) ==> exists|jti: Seq<char>| #[trigger]
                earlier.contains(jti) && hash == sha256(encode_utf8(jti)),
        !earlier.contains(
            checked(options, jws, request, run.now, run.later, run.random)->Ok_0.claims.jti,
        ),
    ensures
        outcome is Ok || exists|jti: Seq<char>| #[trigger]
            earlier.contains(jti) && encode_utf8(jti) != encode_utf8(
                checked(options, jws, request, run.now, run.later, run.random)->Ok_0.claims.jti,
            ) && sha256(encode_utf8(jti)) == sha256(
                encode_utf8(
                    checked(options, jws, request, run.now, run.later, run.random)->Ok_0.claims.jti,
                ),
            ),
{
    let jti = checked(options, jws, request, run.now, run.later, run.random)->Ok_0.claims.jti;
    let hash = sha256(encode_utf8(jti));
    if seen(before).contains(hash) {
        let other = choose|other: Seq<char>| #[trigger]
            earlier.contains(other) && hash == sha256(encode_utf8(other));
        lemma_jti_hash(other, jti);
        assert(earlier.contains(other));
    }
}

} // verus!
