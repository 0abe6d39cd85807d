//! What holds of every proof, request, nonce and store.

use vstd::prelude::*;
use vstd::utf8::encode_utf8;

use crate::crypto::{eddsa_signed, es256_signed, sha256};
use crate::encoding::from_base64url;
use crate::error::DpopErrorView;
use crate::json::json_document;
use crate::judgment::{
    access_token_verdict, checked, checked_examined, checked_in, claims_of_payload, examined,
    freshness, header_verdict, http_binding, is_hmac_alg, nonce_check, question, replay_verdict,
    retry_accepted, retry_in_time, scope_of, signed_jkt, verified, verified_in, verified_with,
    CheckedProofView, ExaminedProofView, RequestView, Run, VerifiedDpopView,
    ECDSA_P256_SIGNATURE_LENGTH, ED25519_SIGNATURE_LENGTH, JTI_MAX_LENGTH,
};
use crate::jwk::{ec_p256_members, ed25519_key, okp_ed25519_members, p256_key, thumbprint};
use crate::options::{VerifyOptions, VerifyOptionsView};
use crate::replay::{ReplayContextView, ReplayStore};
use crate::text::split;
use crate::token::{
    holds_private_key, token_from_compact, with_claim, ClaimsDraftView, DpopClaimsView,
    DpopHeaderView, DpopTokenView, JwkView,
};
use crate::uri::{htu_normal_form, method_normal_form};
use crate::verify::DpopVerifier;

verus! {

// ---------------------------------------------------------------------------
// Signatures and keys
// ---------------------------------------------------------------------------

/// Whether a proof is signed with ES256 by the P-256 key in its header.
pub open spec fn is_es256_proof(token: DpopTokenView, jkt: Seq<char>) -> bool {
    &&& token.header.alg == "ES256"@
    &&& token.signature_bytes.len() == ECDSA_P256_SIGNATURE_LENGTH
    &&& token.header.jwk matches JwkView::EcP256 { kty, crv, x, y } && kty == "EC"@ && crv
        == "P-256"@ && p256_key(x, y) is Ok && es256_signed(
        p256_key(x, y)->Ok_0.x,
        p256_key(x, y)->Ok_0.y,
        encode_utf8(token.signing_input),
        token.signature_bytes,
    ) && jkt == thumbprint(ec_p256_members(x, y))
}

/// Whether a proof is signed with EdDSA by the Ed25519 key in its header.
pub open spec fn is_eddsa_proof(token: DpopTokenView, jkt: Seq<char>) -> bool {
    &&& token.header.alg == "EdDSA"@
    &&& token.signature_bytes.len() == ED25519_SIGNATURE_LENGTH
    &&& token.header.jwk matches JwkView::OkpEd25519 { kty, crv, x } && kty == "OKP"@ && crv
        == "Ed25519"@ && ed25519_key(x) is Ok && eddsa_signed(
        ed25519_key(x)->Ok_0,
        encode_utf8(token.signing_input),
        token.signature_bytes,
    ) && jkt == thumbprint(okp_ed25519_members(x))
}

/// A thumbprint is given out for a proof exactly when the proof is signed by the key with that
/// thumbprint.
pub proof fn lemma_signed_by_its_key(token: DpopTokenView, jkt: Seq<char>)
    ensures
        signed_jkt(token) == Ok::<Seq<char>, DpopErrorView>(jkt) <==> is_es256_proof(token, jkt)
            || is_eddsa_proof(token, jkt),
{
    reveal_strlit("EdDSA");
    reveal_strlit("ES256");
    assert("EdDSA"@[1] == 'd' && "ES256"@[1] == 'S');
}

/// A proof without a signature, or with one under a shared secret, is refused whatever its key.
pub proof fn lemma_symmetric_refused(token: DpopTokenView)
    requires
        token.header.alg == "none"@ || is_hmac_alg(token.header.alg),
    ensures
        signed_jkt(token) == Err::<Seq<char>, DpopErrorView>(
            DpopErrorView::InvalidAlg(token.header.alg),
        ),
{
    reveal_strlit("none");
    reveal_strlit("EdDSA");
    reveal_strlit("ES256");
    assert("EdDSA"@[0] == 'E' && "ES256"@[0] == 'E' && "none"@[0] == 'n');
}

/// A proof with any other algorithm than the two that are supported is refused, with its name.
pub proof fn lemma_unknown_alg_refused(token: DpopTokenView)
    requires
        token.header.alg != "ES256"@,
        token.header.alg != "EdDSA"@,
    ensures
        signed_jkt(token) == Err::<Seq<char>, DpopErrorView>(
            DpopErrorView::InvalidAlg(token.header.alg),
        ) || signed_jkt(token) == Err::<Seq<char>, DpopErrorView>(
            DpopErrorView::UnsupportedAlg(token.header.alg),
        ),
{
}

/// A proof without a signature, or with one under a shared secret, does not pass the check of its
/// header either, whatever its type.
pub proof fn lemma_symmetric_header_refused(header: DpopHeaderView)
    requires
        header.alg == "none"@ || is_hmac_alg(header.alg),
    ensures
        header_verdict(header) is Err,
{
    reveal_strlit("none");
    reveal_strlit("EdDSA");
    reveal_strlit("ES256");
    assert("EdDSA"@[0] == 'E' && "ES256"@[0] == 'E' && "none"@[0] == 'n');
}

/// A header with the private part of its key is refused, in whichever form it is written and
/// whatever else it holds.
pub proof fn lemma_private_key_refused(jws: Seq<char>, request: RequestView)
    requires
        split(jws, '.').len() == 3,
        from_base64url(split(jws, '.')[0]) matches Some(json) && json_document(json) matches Some(
            nodes,
        ) && holds_private_key(nodes),
    ensures
        examined(jws, request) == Err::<ExaminedProofView, DpopErrorView>(
            DpopErrorView::BadJwk("jwk must not include 'd'"@),
        ),
{
}

// ---------------------------------------------------------------------------
// Claims
// ---------------------------------------------------------------------------

/// Whether a claim has been read already.
pub open spec fn is_read(draft: ClaimsDraftView, name: Seq<char>) -> bool {
    ||| name == "jti"@ && draft.jti is Some
    ||| name == "iat"@ && draft.iat is Some
    ||| name == "htm"@ && draft.htm is Some
    ||| name == "htu"@ && draft.htu is Some
    ||| name == "ath"@ && draft.ath is Some
    ||| name == "nonce"@ && draft.nonce is Some
}

/// Claims in which one occurs twice are refused, whatever its values.
pub proof fn lemma_repeated_claim_refused(draft: ClaimsDraftView, name: Seq<char>, value: Seq<u8>)
    requires
        is_read(draft, name),
    ensures
        with_claim(draft, name, value) is None,
{
    reveal_strlit("jti");
    reveal_strlit("iat");
    reveal_strlit("htm");
    reveal_strlit("htu");
    reveal_strlit("ath");
    reveal_strlit("nonce");
    assert("jti"@[0] == 'j' && "iat"@[0] == 'i' && "ath"@[0] == 'a' && "nonce"@[0] == 'n');
    assert("htm"@[0] == 'h' && "htm"@[2] == 'm' && "htu"@[0] == 'h' && "htu"@[2] == 'u');
}

/// The claims are those of the request exactly when method and URI have the same normal forms.
pub proof fn lemma_http_binding(
    claims: DpopClaimsView,
    expected_htm: Seq<char>,
    expected_htu: Seq<char>,
)
    ensures
        http_binding(claims, expected_htm, expected_htu) is Ok <==> {
            &&& method_normal_form(expected_htm) is Ok
            &&& method_normal_form(claims.htm) == method_normal_form(expected_htm)
            &&& htu_normal_form(expected_htu) is Ok
            &&& htu_normal_form(claims.htu) == htu_normal_form(expected_htu)
        },
        http_binding(claims, expected_htm, expected_htu) matches Ok((htm, htu)) ==> {
            &&& method_normal_form(expected_htm) == Ok::<Seq<char>, DpopErrorView>(htm)
            &&& htu_normal_form(expected_htu) == Ok::<Seq<char>, DpopErrorView>(htu)
        },
{
}

/// A proof is fresh exactly when it was issued in the window around the time, the bounds included.
pub proof fn lemma_freshness(options: VerifyOptionsView, iat: i64, now: i64)
    ensures
        freshness(options, iat, now) is Ok <==> now - options.max_age_seconds <= iat <= now
            + options.future_skew_seconds,
{
}

/// A proof that is fresh with some limits is fresh with wider ones.
pub proof fn lemma_wider_limits(
    narrow: VerifyOptionsView,
    wide: VerifyOptionsView,
    iat: i64,
    now: i64,
)
    requires
        narrow.max_age_seconds <= wide.max_age_seconds,
        narrow.future_skew_seconds <= wide.future_skew_seconds,
        freshness(narrow, iat, now) is Ok,
    ensures
        freshness(wide, iat, now) is Ok,
{
}

/// A proof is bound to one access token: with two, their digests are the same.
pub proof fn lemma_one_access_token(claims: DpopClaimsView, left: Seq<char>, right: Seq<char>)
    requires
        access_token_verdict(claims, left) is Ok,
        access_token_verdict(claims, right) is Ok,
    ensures
        sha256(encode_utf8(left)) == sha256(encode_utf8(right)),
{
}

// ---------------------------------------------------------------------------
// The whole proof
// ---------------------------------------------------------------------------

/// Whether a proof in its compact form meets every demand: it is of the right type, signed by the
/// key with the thumbprint, for the request, bound to the access token where there is one, fresh,
/// and with a nonce that is accepted.
pub open spec fn meets_every_demand(
    options: VerifyOptionsView,
    jws: Seq<char>,
    request: RequestView,
    now: i64,
    later: i64,
    random: Option<Seq<u8>>,
    proof: CheckedProofView,
) -> bool {
    let claims = proof.claims;
    &&& token_from_compact(jws) matches Ok(token) && {
        &&& token.header.typ == "dpop+jwt"@
        &&& is_es256_proof(token, proof.jkt) || is_eddsa_proof(token, proof.jkt)
        &&& claims_of_payload(token.payload_b64) == Ok::<DpopClaimsView, DpopErrorView>(claims)
    }
    &&& encode_utf8(claims.jti).len() <= JTI_MAX_LENGTH
    &&& http_binding(claims, request.htm, request.htu) matches Ok((htm, htu)) && nonce_check(
        options.nonce_mode,
        claims.nonce,
        scope_of(ExaminedProofView { jkt: proof.jkt, claims, htm, htu }, options.client_id),
        later,
        random,
    ) is Ok
    &&& request.access_token matches Some(token) ==> access_token_verdict(claims, token) is Ok
    &&& freshness(options, claims.iat, now) is Ok
    &&& proof.client_id == options.client_id
}

/// A proof is found in order exactly when it meets every demand.
pub proof fn lemma_checked(
    options: VerifyOptionsView,
    jws: Seq<char>,
    request: RequestView,
    now: i64,
    later: i64,
    random: Option<Seq<u8>>,
    proof: CheckedProofView,
)
    ensures
        checked(options, jws, request, now, later, random) == Ok::<
            CheckedProofView,
            DpopErrorView,
        >(proof) <==> meets_every_demand(options, jws, request, now, later, random, proof),
{
    if token_from_compact(jws) is Ok {
        lemma_signed_by_its_key(token_from_compact(jws)->Ok_0, proof.jkt);
    }
}

/// Whether two claims are the same but for `ath`.
pub open spec fn same_but_ath(left: DpopClaimsView, right: DpopClaimsView) -> bool {
    left == (DpopClaimsView { ath: left.ath, ..right })
}

/// Whether two proofs are of the right type, signed by the same key, and hold claims that are the
/// same but for `ath`.
pub open spec fn differ_in_ath(left: Seq<char>, right: Seq<char>) -> bool {
    match (token_from_compact(left), token_from_compact(right)) {
        (Ok(l), Ok(r)) => {
            &&& header_verdict(l.header) is Ok
            &&& header_verdict(r.header) is Ok
            &&& signed_jkt(l) is Ok
            &&& signed_jkt(l) == signed_jkt(r)
            &&& claims_of_payload(l.payload_b64) matches Ok(left) && claims_of_payload(
                r.payload_b64,
            ) matches Ok(right) && same_but_ath(left, right)
        },
        _ => false,
    }
}

/// Without an access token `ath` has no influence, whether it is there or not, right, wrong or
/// malformed: in the same run two proofs that differ in it come to the same, the store is asked the
/// same about them, and neither is refused for it.
pub proof fn lemma_ath_without_access_token(
    options: VerifyOptionsView,
    left: Seq<char>,
    right: Seq<char>,
    request: RequestView,
    run: Run,
)
    requires
        request.access_token is None,
        differ_in_ath(left, right),
    ensures
        verified(options, left, request, run) == verified(options, right, request, run),
        question(options, left, request, run) == question(options, right, request, run),
        checked_in(options, left, request, run) matches Err(error) ==> !(error is MissingAth)
            && !(error is AthMalformed) && !(error is AthMismatch),
{
}

/// To verify a proof with options is to verify it with a verifier that has them: in the same run,
/// with the store in the same state, the outcome is the same, and the store is asked the same.
pub proof fn lemma_verify_proof_as_verifier<S: ReplayStore + ?Sized>(
    verifier: DpopVerifier,
    opts: VerifyOptions,
    jws: Seq<char>,
    request: RequestView,
    run: Run,
    before: &S,
    after_verify: &S,
    verify: Result<VerifiedDpopView, DpopErrorView>,
    after_verify_proof: &S,
    verify_proof: Result<VerifiedDpopView, DpopErrorView>,
)
    requires
        verifier@ == opts@,
        verified_in::<S>(verifier@, jws, request, before, after_verify, run, verify),
        verified_in::<S>(opts@, jws, request, before, after_verify_proof, run, verify_proof),
    ensures
        verify == verify_proof,
        question(verifier@, jws, request, run) == question(opts@, jws, request, run),
        question(opts@, jws, request, run) is None ==> after_verify == after_verify_proof,
{
}

/// A proof that was refused for its nonce is accepted on a retry in time: another proof of the
/// same key for the same request that is fresh, and holds the nonce that the answer carries.
pub proof fn lemma_retry(
    options: VerifyOptionsView,
    refused: ExaminedProofView,
    nonce: Seq<char>,
    issued_at: i64,
    retried: ExaminedProofView,
    now: i64,
    later: i64,
    random: Option<Seq<u8>>,
)
    requires
        retry_accepted(
            options.nonce_mode,
            Err(DpopErrorView::UseDpopNonce(nonce)),
            scope_of(refused, options.client_id),
            issued_at,
        ),
        retried.jkt == refused.jkt,
        retried.htm == refused.htm,
        retried.htu == refused.htu,
        retried.claims.nonce == Some(nonce),
        freshness(options, retried.claims.iat, now) is Ok,
        retry_in_time(options.nonce_mode, issued_at, later),
    ensures
        checked_examined(options, retried, now, later, random) is Ok,
{
    assert(nonce_check(
        options.nonce_mode,
        Some(nonce),
        scope_of(refused, options.client_id),
        later,
        random,
    ) is Ok);
}

// ---------------------------------------------------------------------------
// Replay
// ---------------------------------------------------------------------------

/// Whether a store remembers the hashes that it is given: it answers that a hash is new exactly
/// when it has not seen it, has then seen it, and forgets none.
pub open spec fn remembers<S: ReplayStore>(seen: spec_fn(S) -> Set<Seq<u8>>) -> bool {
    forall|
        before: S,
        hash: Seq<u8>,
        ctx: ReplayContextView,
        after: S,
        answer: Result<bool, DpopErrorView>,
    | #[trigger]
        S::may_answer(&before, hash, ctx, &after, answer) ==> {
            &&& seen(before).subset_of(seen(after))
            &&& answer matches Ok(first) ==> (first <==> !seen(before).contains(hash)) && seen(
                after,
            ).contains(hash)
        }
}

/// With a store that remembers, no two proofs with the same `jti` are both accepted: not with
/// other options, for another request or under another key either.
pub proof fn lemma_replay_refused<S: ReplayStore>(
    seen: spec_fn(S) -> Set<Seq<u8>>,
    first_options: VerifyOptionsView,
    first_jws: Seq<char>,
    first_request: RequestView,
    first_before: S,
    first_after: S,
    first: VerifiedDpopView,
    options: VerifyOptionsView,
    jws: Seq<char>,
    request: RequestView,
    before: S,
    after: S,
    outcome: Result<VerifiedDpopView, DpopErrorView>,
)
    requires
        remembers(seen),
        verified_with::<S>(
            first_options,
            first_jws,
            first_request,
            &first_before,
            &first_after,
            Ok(first),
        ),
        seen(first_after).subset_of(seen(before)),
        verified_with::<S>(options, jws, request, &before, &after, outcome),
    ensures
        outcome matches Ok(second) ==> second.jti != first.jti,
{
}

/// A proof is accepted only if the store said that it is new. What it said otherwise is the error.
pub proof fn lemma_answer_decides(answer: Result<bool, DpopErrorView>)
    ensures
        replay_verdict(answer) is Ok <==> answer == Ok::<bool, DpopErrorView>(true),
        answer == Ok::<bool, DpopErrorView>(false) ==> replay_verdict(answer) == Err::<
            (),
            DpopErrorView,
        >(DpopErrorView::Replay),
        answer matches Err(error) ==> replay_verdict(answer) == Err::<(), DpopErrorView>(error),
{
}

} // verus!
