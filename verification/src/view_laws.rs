//! What each type stands for: its view holds its own fields, and nothing is left out or exchanged.

use vstd::prelude::*;

use crate::error::{text_outcome, verdict, DpopError, DpopErrorView};
use crate::json::{JsonNode, JsonNodeView};
use crate::judgment::{CheckedProofView, ExaminedProofView, VerifiedDpopView};
use crate::jwk::{
    ed25519_key_outcome, p256_key_outcome, Ed25519Key, P256Key, P256KeyView,
};
use crate::nonce::{secret_bytes, view_of_random, view_of_str, IntoSecretBox, NonceCtx, SecretKey};
use crate::options::{default_options, HmacConfig, NonceMode, NonceModeView, VerifyOptions};
use crate::replay::{answer_view, ReplayContext};
use crate::text::{texts, view_of_bytes, view_of_text};
use crate::token::{
    header_outcome, token_outcome, DpopClaims, DpopHeader, DpopHeaderView, DpopToken,
    DpopTokenView, Jwk, JwkView,
};
use crate::uri::{host_outcome, parts_outcome, UrlParts, UrlPartsView};
use crate::verify::{
    checked_outcome, examined_outcome, pair_outcome, verified_outcome, CheckedProof, ExaminedProof,
    VerifiedDpop,
};

verus! {

/// An error stands for itself, with the text that it carries.
pub proof fn lemma_error_view(error: DpopError)
    ensures
        error is MalformedJws <==> error@ is MalformedJws,
        error matches DpopError::BadJwk(reason) ==> error@ == DpopErrorView::BadJwk(reason@),
        error is InvalidSignature <==> error@ is InvalidSignature,
        error matches DpopError::InvalidAlg(alg) ==> error@ == DpopErrorView::InvalidAlg(alg@),
        error matches DpopError::UnsupportedAlg(alg) ==> error@ == DpopErrorView::UnsupportedAlg(
            alg@,
        ),
        error is JtiTooLong <==> error@ is JtiTooLong,
        error is InvalidMethod <==> error@ is InvalidMethod,
        error matches DpopError::MalformedHtu(reason) ==> error@ == DpopErrorView::MalformedHtu(
            reason@,
        ),
        error is HtmMismatch <==> error@ is HtmMismatch,
        error matches DpopError::HtuMismatch(actual, expected) ==> error@
            == DpopErrorView::HtuMismatch(actual@, expected@),
        error is MissingAth <==> error@ is MissingAth,
        error is AthMalformed <==> error@ is AthMalformed,
        error is AthMismatch <==> error@ is AthMismatch,
        error is FutureSkew <==> error@ is FutureSkew,
        error is Stale <==> error@ is Stale,
        error is MissingNonce <==> error@ is MissingNonce,
        error matches DpopError::UseDpopNonce { nonce } ==> error@ == DpopErrorView::UseDpopNonce(
            nonce@,
        ),
        error is NonceMismatch <==> error@ is NonceMismatch,
        error is NonceStale <==> error@ is NonceStale,
        error is Replay <==> error@ is Replay,
        error is EntropyUnavailable <==> error@ is EntropyUnavailable,
        error matches DpopError::Store(reason) ==> error@ == DpopErrorView::Store(reason@),
{
}

/// Claims, headers, keys and proofs stand for their fields.
pub proof fn lemma_token_views(
    claims: DpopClaims,
    header: DpopHeader,
    token: DpopToken,
    examined: ExaminedProof,
    accepted: VerifiedDpop,
)
    ensures
        claims@.jti == claims.jti@ && claims@.iat == claims.iat && claims@.htm == claims.htm@
            && claims@.htu == claims.htu@,
        claims.ath matches Some(ath) ==> claims@.ath == Some(ath@),
        claims.ath is None ==> claims@.ath is None,
        claims.nonce matches Some(nonce) ==> claims@.nonce == Some(nonce@),
        claims.nonce is None ==> claims@.nonce is None,
        header@.typ == header.typ@ && header@.alg == header.alg@ && header@.jwk == header.jwk@,
        header.jwk matches Jwk::EcP256 { kty, crv, x, y } ==> header.jwk@ == (JwkView::EcP256 {
            kty: kty@,
            crv: crv@,
            x: x@,
            y: y@,
        }),
        header.jwk matches Jwk::OkpEd25519 { kty, crv, x } ==> header.jwk@ == (JwkView::OkpEd25519 {
            kty: kty@,
            crv: crv@,
            x: x@,
        }),
        token@.header == token.header@ && token@.payload_b64 == token.payload_b64@
            && token@.signature_bytes == token.signature_bytes@ && token@.signing_input
            == token.signing_input@,
        examined@.jkt == examined.jkt@ && examined@.claims == examined.claims@ && examined@.htm
            == examined.htm@ && examined@.htu == examined.htu@,
        accepted@.jkt == accepted.jkt@ && accepted@.jti == accepted.jti@ && accepted@.iat
            == accepted.iat,
{
}

/// Options, contexts and URLs stand for their fields.
pub proof fn lemma_option_views(
    config: HmacConfig,
    mode: NonceMode,
    options: VerifyOptions,
    nonce_ctx: NonceCtx<'_>,
    replay_ctx: ReplayContext<'_>,
    url: UrlParts,
)
    ensures
        config@.secret == secret_bytes(config.secret) && config@.max_age_seconds
            == config.max_age_seconds && config@.bind_htu_htm == config.bind_htu_htm
            && config@.bind_jkt == config.bind_jkt && config@.bind_client == config.bind_client,
        mode is Disabled ==> mode@ is Disabled,
        mode matches NonceMode::RequireEqual { expected_nonce } ==> mode@
            == NonceModeView::RequireEqual(expected_nonce@),
        mode matches NonceMode::Hmac(config) ==> mode@ == NonceModeView::Hmac(config@),
        options@.max_age_seconds == options.max_age_seconds && options@.future_skew_seconds
            == options.future_skew_seconds && options@.nonce_mode == options.nonce_mode@,
        options.client_binding matches Some(binding) ==> options@.client_id == Some(
            binding.client_id@,
        ),
        options.client_binding is None ==> options@.client_id is None,
        nonce_ctx@.htu == view_of_str(nonce_ctx.htu) && nonce_ctx@.htm == view_of_str(nonce_ctx.htm)
            && nonce_ctx@.jkt == view_of_str(nonce_ctx.jkt) && nonce_ctx@.client == view_of_str(
            nonce_ctx.client,
        ),
        replay_ctx@.jkt == view_of_str(replay_ctx.jkt) && replay_ctx@.htm == view_of_str(
            replay_ctx.htm,
        ) && replay_ctx@.htu == view_of_str(replay_ctx.htu) && replay_ctx@.client_id == view_of_str(
            replay_ctx.client_id,
        ) && replay_ctx@.iat == replay_ctx.iat,
        url@.scheme == url.scheme@ && url@.user_info == url.user_info@ && url@.port == url.port
            && url@.path == url.path@,
        url.host matches Some(host) ==> url@.host == Some(host@),
        url.host is None ==> url@.host is None,
{
}

/// What may be missing stands for what it holds, where it is there.
pub proof fn lemma_optional_views(
    text: &str,
    string: String,
    bytes: Vec<u8>,
    random: [u8; 16],
    strings: Seq<String>,
    i: int,
)
    requires
        0 <= i < strings.len(),
    ensures
        view_of_str(Some(text)) == Some(text@) && view_of_str(None) is None,
        view_of_text(Some(string)) == Some(string@) && view_of_text(None) is None,
        view_of_bytes(Some(bytes)) == Some(bytes@) && view_of_bytes(None) is None,
        view_of_random(Some(random)) == Some(random@) && view_of_random(None) is None,
        texts(strings).len() == strings.len() && texts(strings)[i] == strings[i]@,
{
}

/// The options of a verifier that was not told otherwise.
pub proof fn lemma_default_options()
    ensures
        default_options().max_age_seconds == 300,
        default_options().future_skew_seconds == 5,
        default_options().nonce_mode is Disabled,
        default_options().client_id is None,
{
}

/// A secret is the bytes that it is made from, whichever form they have.
pub proof fn lemma_secrets<const N: usize>(
    secret: SecretKey,
    slice: &[u8],
    array: &[u8; N],
    bytes: Vec<u8>,
)
    ensures
        secret.secret() == secret_bytes(secret),
        (&secret).secret() == secret_bytes(secret),
        slice.secret() == slice@,
        array.secret() == array@,
        bytes.secret() == bytes@,
        (&bytes).secret() == bytes@,
{
}

/// An outcome is a success exactly where there is one, with what it yields, and else its error.
pub proof fn lemma_outcomes(
    error: DpopError,
    text: String,
    other: String,
    flag: bool,
    reason: String,
)
    ensures
        verdict(Ok(())) is Ok && verdict(Err(error)) == Err::<(), DpopErrorView>(error@),
        text_outcome(Ok(text)) == Ok::<Seq<char>, DpopErrorView>(text@) && text_outcome(Err(error))
            == Err::<Seq<char>, DpopErrorView>(error@),
        pair_outcome(Ok((text, other))) == Ok::<(Seq<char>, Seq<char>), DpopErrorView>(
            (text@, other@),
        ) && pair_outcome(Err(error)) == Err::<(Seq<char>, Seq<char>), DpopErrorView>(error@),
        answer_view(Ok(flag)) == Ok::<bool, DpopErrorView>(flag),
        answer_view(Err(error)) == Err::<bool, DpopErrorView>(error@),
        host_outcome(Ok(())) is Ok && host_outcome(Err(reason)) == Err::<(), Seq<char>>(reason@),
{
}

/// The same of the outcomes that yield what has been read or checked.
pub proof fn lemma_read_outcomes(
    error: DpopError,
    reason: String,
    header: DpopHeader,
    token: DpopToken,
    parts: UrlParts,
    p256: P256Key,
    ed25519: Ed25519Key,
    examined: ExaminedProof,
    checked: CheckedProof,
    accepted: VerifiedDpop,
)
    ensures
        header_outcome(Ok(header)) == Ok::<DpopHeaderView, DpopErrorView>(header@),
        header_outcome(Err(error)) == Err::<DpopHeaderView, DpopErrorView>(error@),
        token_outcome(Ok(token)) == Ok::<DpopTokenView, DpopErrorView>(token@),
        token_outcome(Err(error)) == Err::<DpopTokenView, DpopErrorView>(error@),
        parts_outcome(Ok(parts)) == Ok::<UrlPartsView, Seq<char>>(parts@),
        parts_outcome(Err(reason)) == Err::<UrlPartsView, Seq<char>>(reason@),
        p256_key_outcome(Ok(p256)) == Ok::<P256KeyView, DpopErrorView>(p256@),
        p256_key_outcome(Err(error)) == Err::<P256KeyView, DpopErrorView>(error@),
        ed25519_key_outcome(Ok(ed25519)) == Ok::<Seq<u8>, DpopErrorView>(ed25519@),
        ed25519_key_outcome(Err(error)) == Err::<Seq<u8>, DpopErrorView>(error@),
        examined_outcome(Ok(examined)) == Ok::<ExaminedProofView, DpopErrorView>(examined@),
        examined_outcome(Err(error)) == Err::<ExaminedProofView, DpopErrorView>(error@),
        checked_outcome(Ok(checked)) == Ok::<CheckedProofView, DpopErrorView>(checked@),
        checked_outcome(Err(error)) == Err::<CheckedProofView, DpopErrorView>(error@),
        verified_outcome(Ok(accepted)) == Ok::<VerifiedDpopView, DpopErrorView>(accepted@),
        verified_outcome(Err(error)) == Err::<VerifiedDpopView, DpopErrorView>(error@),
{
}

/// A value of a document is of its own kind, with its text.
pub proof fn lemma_node_view(node: JsonNode)
    ensures
        node is Null <==> node@ is Null,
        node is Bool <==> node@ is Bool,
        node is Number <==> node@ is Number,
        node matches JsonNode::Text(text) ==> node@ == JsonNodeView::Text(text@),
        node is Array <==> node@ is Array,
        node is Object <==> node@ is Object,
{
}

} // verus!
