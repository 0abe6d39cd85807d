//! What holds of every nonce and every binding of one, said of its bytes and of the time.

use vstd::bytes::{
    lemma_auto_spec_u64_to_from_le_bytes, spec_u64_from_le_bytes, spec_u64_to_le_bytes,
};
use vstd::prelude::*;
use vstd::utf8::encode_utf8;

use crate::crypto::hmac_sha256;
use crate::encoding::{base64url, from_base64url};
use crate::error::DpopErrorView;
use crate::judgment::{bound_context, nonce_check, retry_accepted, retry_in_time, NonceScope};
use crate::nonce::{
    accepted_in_time, context_bytes, context_fits, issued, lemma_context_bytes, nonce_bytes,
    nonce_in_time, nonce_text, nonce_verdict, NonceCtxView,
};
use crate::options::{HmacConfigView, NonceModeView};

verus! {

// ---------------------------------------------------------------------------
// Nonces
// ---------------------------------------------------------------------------

/// A nonce made of a time, sixteen random bytes and a tag is accepted exactly when the tag is that
/// of the time, the random bytes and the context under the secret, and the time is neither more
/// than five seconds ahead nor more than the limit ago. Another tag does not match, whatever the
/// time.
pub proof fn lemma_nonce_decided(
    secret: Seq<u8>,
    nonce: Seq<char>,
    issued_at: i64,
    random: Seq<u8>,
    tag: Seq<u8>,
    ctx: NonceCtxView,
    now: i64,
    max_age_seconds: i64,
)
    requires
        random.len() == 16,
        tag.len() == 32,
        from_base64url(nonce) == Some(spec_u64_to_le_bytes(issued_at as u64) + random + tag),
    ensures
        nonce_verdict(secret, nonce, now, max_age_seconds, ctx) is Ok <==> tag == hmac_sha256(
            secret,
            spec_u64_to_le_bytes(issued_at as u64) + random + context_bytes(ctx),
        ) && issued_at <= now + 5 && now - issued_at <= max_age_seconds,
        nonce_verdict(secret, nonce, now, max_age_seconds, ctx) == Err::<(), DpopErrorView>(
            DpopErrorView::NonceMismatch,
        ) <==> tag != hmac_sha256(
            secret,
            spec_u64_to_le_bytes(issued_at as u64) + random + context_bytes(ctx),
        ),
        nonce_verdict(secret, nonce, now, max_age_seconds, ctx) matches Err(error) ==> error
            is NonceMismatch || error is NonceStale,
{
    lemma_auto_spec_u64_to_from_le_bytes();
    let time = spec_u64_to_le_bytes(issued_at as u64);
    let stamp = time + random;
    let bytes = time + random + tag;
    assert(bytes.subrange(0, 24) =~= stamp);
    assert(bytes.subrange(24, 56) =~= tag);
    assert(stamp.subrange(0, 8) =~= time);
    assert((issued_at as u64) as i64 == issued_at) by (bit_vector);
}

/// What is not fifty-six bytes in base64url is no nonce.
pub proof fn lemma_no_nonce(
    secret: Seq<u8>,
    nonce: Seq<char>,
    ctx: NonceCtxView,
    now: i64,
    max_age_seconds: i64,
)
    requires
        from_base64url(nonce) matches Some(bytes) ==> bytes.len() != 56,
    ensures
        nonce_verdict(secret, nonce, now, max_age_seconds, ctx) == Err::<(), DpopErrorView>(
            DpopErrorView::NonceMismatch,
        ),
{
}

/// Every nonce of the right length is a time, sixteen random bytes and a tag.
pub proof fn lemma_nonce_parts_exist(bytes: Seq<u8>)
    requires
        bytes.len() == 56,
    ensures
        exists|issued_at: i64, random: Seq<u8>, tag: Seq<u8>|
            random.len() == 16 && tag.len() == 32 && bytes == #[trigger] spec_u64_to_le_bytes(
                issued_at as u64,
            ) + #[trigger] (random + tag),
{
    lemma_auto_spec_u64_to_from_le_bytes();
    let time = bytes.subrange(0, 8);
    let random = bytes.subrange(8, 24);
    let tag = bytes.subrange(24, 56);
    let number = spec_u64_from_le_bytes(time);
    let issued_at = number as i64;
    assert((number as i64) as u64 == number) by (bit_vector);
    assert(spec_u64_to_le_bytes(spec_u64_from_le_bytes(time)) == time);
    assert(spec_u64_to_le_bytes(issued_at as u64) == time);
    assert(bytes =~= spec_u64_to_le_bytes(issued_at as u64) + (random + tag));
}

/// A nonce is in time from five seconds before it is issued until its age is over.
pub proof fn lemma_nonce_window(issued_at: i64, now: i64, max_age_seconds: i64)
    ensures
        nonce_in_time(issued_at, now, max_age_seconds) <==> issued_at - 5 <= now <= issued_at
            + max_age_seconds,
{
}

/// What is issued is the time, the random bytes and their tag in the context, and nothing is
/// issued without random bytes.
pub proof fn lemma_issued(secret: Seq<u8>, now: i64, ctx: NonceCtxView, random: Seq<u8>)
    ensures
        issued(secret, now, ctx, Some(random)) == Ok::<Seq<char>, DpopErrorView>(
            base64url(
                spec_u64_to_le_bytes(now as u64) + random + hmac_sha256(
                    secret,
                    spec_u64_to_le_bytes(now as u64) + random + context_bytes(ctx),
                ),
            ),
        ),
        issued(secret, now, ctx, Some(random)) == Ok::<Seq<char>, DpopErrorView>(
            nonce_text(secret, now, random, ctx),
        ),
        issued(secret, now, ctx, None) == Err::<Seq<char>, DpopErrorView>(
            DpopErrorView::EntropyUnavailable,
        ),
{
}

/// A nonce that is accepted in time is accepted at each time in the window, with each limit.
pub proof fn lemma_accepted_in_window(
    secret: Seq<u8>,
    nonce: Seq<char>,
    issued_at: i64,
    ctx: NonceCtxView,
    now: i64,
    max_age_seconds: i64,
)
    requires
        accepted_in_time(secret, nonce, issued_at, ctx),
        issued_at - 5 <= now <= issued_at + max_age_seconds,
    ensures
        nonce_verdict(secret, nonce, now, max_age_seconds, ctx) is Ok,
{
    assert(nonce_in_time(issued_at, now, max_age_seconds));
}

/// A nonce that was issued in one context and is accepted in another, or under another secret,
/// shows two different messages, or keys, with the same tag.
pub proof fn lemma_issued_elsewhere(
    secret: Seq<u8>,
    nonce: Seq<char>,
    issued_at: i64,
    random: Seq<u8>,
    ctx: NonceCtxView,
    other_secret: Seq<u8>,
    other: NonceCtxView,
    now: i64,
    max_age_seconds: i64,
)
    requires
        random.len() == 16,
        context_fits(ctx),
        context_fits(other),
        from_base64url(nonce) == Some(nonce_bytes(secret, issued_at, random, ctx)),
        nonce_verdict(other_secret, nonce, now, max_age_seconds, other) is Ok,
    ensures
        hmac_sha256(
            secret,
            spec_u64_to_le_bytes(issued_at as u64) + random + context_bytes(ctx),
        ) == hmac_sha256(
            other_secret,
            spec_u64_to_le_bytes(issued_at as u64) + random + context_bytes(other),
        ),
        ctx != other ==> spec_u64_to_le_bytes(issued_at as u64) + random + context_bytes(ctx)
            != spec_u64_to_le_bytes(issued_at as u64) + random + context_bytes(other),
{
    lemma_auto_spec_u64_to_from_le_bytes();
    let time = spec_u64_to_le_bytes(issued_at as u64);
    let stamp = time + random;
    let tag = hmac_sha256(secret, stamp + context_bytes(ctx));
    let bytes = stamp + tag;
    assert(bytes.len() == 56);
    assert(bytes.subrange(0, 24) =~= stamp);
    assert(bytes.subrange(24, 56) =~= tag);
    let left = stamp + context_bytes(ctx);
    let right = stamp + context_bytes(other);
    if left == right {
        assert(context_bytes(ctx) =~= left.subrange(24, left.len() as int));
        assert(context_bytes(other) =~= right.subrange(24, right.len() as int));
        lemma_context_bytes(ctx, other);
    }
}

/// Whether a text, where it is there, is one whose length a machine can count.
pub open spec fn is_countable(text: Option<Seq<char>>) -> bool {
    text matches Some(text) ==> encode_utf8(text).len() <= 0xffff_ffff_ffff_ffff
}

/// Two contexts that differ in a field, in where a text stands or in whether a field is there are
/// two different messages.
pub proof fn lemma_contexts_told_apart(left: NonceCtxView, right: NonceCtxView)
    requires
        is_countable(left.htu) && is_countable(left.htm) && is_countable(left.jkt) && is_countable(
            left.client,
        ),
        is_countable(right.htu) && is_countable(right.htm) && is_countable(right.jkt)
            && is_countable(right.client),
        left.htu != right.htu || left.htm != right.htm || left.jkt != right.jkt || left.client
            != right.client,
    ensures
        context_fits(left),
        context_fits(right),
        context_bytes(left) != context_bytes(right),
{
    if context_bytes(left) == context_bytes(right) {
        lemma_context_bytes(left, right);
    }
}

// ---------------------------------------------------------------------------
// Nonces in a verifier
// ---------------------------------------------------------------------------

/// Without a nonce mode no nonce is looked at.
pub proof fn lemma_disabled(
    nonce: Option<Seq<char>>,
    scope: NonceScope,
    now: i64,
    random: Option<Seq<u8>>,
)
    ensures
        nonce_check(NonceModeView::Disabled, nonce, scope, now, random) is Ok,
{
}

/// Where one nonce is required, that one is accepted and no other, at any time; the one required
/// is handed out for another, and nothing where there is none.
pub proof fn lemma_require_equal(
    expected: Seq<char>,
    nonce: Option<Seq<char>>,
    scope: NonceScope,
    now: i64,
    random: Option<Seq<u8>>,
)
    ensures
        nonce_check(NonceModeView::RequireEqual(expected), nonce, scope, now, random) is Ok
            <==> nonce == Some(expected),
        nonce is None ==> nonce_check(
            NonceModeView::RequireEqual(expected),
            nonce,
            scope,
            now,
            random,
        ) == Err::<(), DpopErrorView>(DpopErrorView::MissingNonce),
        nonce is Some && nonce->0 != expected ==> nonce_check(
            NonceModeView::RequireEqual(expected),
            nonce,
            scope,
            now,
            random,
        ) == Err::<(), DpopErrorView>(DpopErrorView::UseDpopNonce(expected)),
{
}

/// Of two nonces that differ, at most one is accepted where one is required.
pub proof fn lemma_one_required_nonce(
    expected: Seq<char>,
    left: Seq<char>,
    right: Seq<char>,
    scope: NonceScope,
    now: i64,
    random: Option<Seq<u8>>,
)
    requires
        left != right,
    ensures
        nonce_check(NonceModeView::RequireEqual(expected), Some(left), scope, now, random) is Err
            || nonce_check(NonceModeView::RequireEqual(expected), Some(right), scope, now, random)
            is Err,
{
}

/// A nonce is bound to each thing that the configuration selects, and to nothing else.
pub proof fn lemma_bound_context(config: HmacConfigView, scope: NonceScope)
    ensures
        config.bind_htu_htm ==> bound_context(config, scope).htu == Some(scope.htu)
            && bound_context(config, scope).htm == Some(scope.htm),
        !config.bind_htu_htm ==> bound_context(config, scope).htu is None && bound_context(
            config,
            scope,
        ).htm is None,
        config.bind_jkt ==> bound_context(config, scope).jkt == Some(scope.jkt),
        !config.bind_jkt ==> bound_context(config, scope).jkt is None,
        config.bind_client ==> bound_context(config, scope).client == scope.client,
        !config.bind_client ==> bound_context(config, scope).client is None,
{
}

/// Two scopes that differ in something that the configuration selects are two contexts.
pub proof fn lemma_scopes_told_apart(
    config: HmacConfigView,
    left: NonceScope,
    right: NonceScope,
)
    ensures
        bound_context(config, left) == bound_context(config, right) <==> {
            &&& config.bind_htu_htm ==> left.htu == right.htu && left.htm == right.htm
            &&& config.bind_jkt ==> left.jkt == right.jkt
            &&& config.bind_client ==> left.client == right.client
        },
{
}

/// With authenticated nonces a nonce is accepted exactly when it is there and verifies under the
/// secret, with the limit, in the context that the configuration selects. Else a fresh one is
/// handed out, issued now in that context, or it is said that there are no random bytes for one.
pub proof fn lemma_hmac_mode(
    config: HmacConfigView,
    nonce: Option<Seq<char>>,
    scope: NonceScope,
    now: i64,
    random: Option<Seq<u8>>,
)
    ensures
        nonce_check(NonceModeView::Hmac(config), nonce, scope, now, random) is Ok <==> nonce is Some
            && nonce_verdict(
            config.secret,
            nonce->0,
            now,
            config.max_age_seconds,
            bound_context(config, scope),
        ) is Ok,
        nonce_check(NonceModeView::Hmac(config), nonce, scope, now, random) matches Err(error)
            ==> match random {
            Some(random) => error == DpopErrorView::UseDpopNonce(
                base64url(
                    spec_u64_to_le_bytes(now as u64) + random + hmac_sha256(
                        config.secret,
                        spec_u64_to_le_bytes(now as u64) + random + context_bytes(
                            bound_context(config, scope),
                        ),
                    ),
                ),
            ),
            None => error == DpopErrorView::EntropyUnavailable,
        },
{
}

/// Where an answer carries a nonce that a retry is accepted with, the retry is accepted at each
/// time in its window.
pub proof fn lemma_retry_window(
    mode: NonceModeView,
    nonce: Seq<char>,
    scope: NonceScope,
    issued_at: i64,
    later: i64,
    random: Option<Seq<u8>>,
)
    requires
        retry_accepted(mode, Err(DpopErrorView::UseDpopNonce(nonce)), scope, issued_at),
        mode matches NonceModeView::Hmac(config) ==> issued_at - 5 <= later <= issued_at
            + config.max_age_seconds,
    ensures
        nonce_check(mode, Some(nonce), scope, later, random) is Ok,
{
    assert(retry_in_time(mode, issued_at, later));
}

} // verus!
