//! Nonces that need no store: a time and random bytes, authenticated together with a context.

use vstd::bytes::{
    lemma_auto_spec_u64_to_from_le_bytes, spec_u64_from_le_bytes, spec_u64_to_le_bytes,
    u64_from_le_bytes, u64_to_le_bytes,
};
use vstd::prelude::*;
use vstd::utf8::{encode_utf8, encode_utf8_decode_utf8};

pub use crate::crypto::is_random;

use crate::crypto::{authenticate, equal_bytes, hmac_sha256, random_bytes};
use crate::encoding::{base64url, decode, encode, from_base64url};
use crate::error::{text_outcome, verdict, DpopError, DpopErrorView};
use secrecy::ExposeSecret;

verus! {

// ---------------------------------------------------------------------------
// The secret
// ---------------------------------------------------------------------------

/// The secret under which nonces are authenticated. Its bytes are wiped when it is dropped, and
/// `Debug` does not show them.
#[verifier::external_body]
#[derive(Debug)]
pub struct SecretKey {
    inner: secrecy::SecretBox<[u8]>,
}

/// The bytes of a secret.
pub uninterp spec fn secret_bytes(secret: SecretKey) -> Seq<u8>;

impl SecretKey {
    /// Calls `from` of `secrecy::SecretBox` on a vector: the secret holds the bytes of the vector.
    #[verifier::external_body]
    pub(crate) fn seal(bytes: Vec<u8>) -> (secret: Self)
        ensures
            secret_bytes(secret) == bytes@,
    {
        SecretKey { inner: secrecy::SecretBox::from(bytes) }
    }

    /// Calls `expose_secret` of `secrecy::SecretBox`: the bytes that the secret holds.
    #[verifier::external_body]
    pub(crate) fn expose(&self) -> (bytes: &[u8])
        ensures
            bytes@ == secret_bytes(*self),
    {
        self.inner.expose_secret()
    }
}

impl Clone for SecretKey {
    /// A secret with the same bytes.
    fn clone(&self) -> (secret: Self)
        ensures
            secret_bytes(secret) == secret_bytes(*self),
    {
        SecretKey::seal(vstd::slice::slice_to_vec(self.expose()))
    }
}

/// What a secret can be made from.
pub trait IntoSecretBox: Sized {
    /// The bytes of the secret.
    spec fn secret(self) -> Seq<u8>;

    /// Makes the secret.
    fn into_secret_box(self) -> (secret: SecretKey)
        ensures
            secret_bytes(secret) == self.secret(),
    ;
}

impl IntoSecretBox for SecretKey {
    open spec fn secret(self) -> Seq<u8> {
        secret_bytes(self)
    }

    fn into_secret_box(self) -> (secret: SecretKey) {
        self
    }
}

impl IntoSecretBox for &SecretKey {
    open spec fn secret(self) -> Seq<u8> {
        secret_bytes(*self)
    }

    fn into_secret_box(self) -> (secret: SecretKey) {
        self.clone()
    }
}

impl IntoSecretBox for &[u8] {
    open spec fn secret(self) -> Seq<u8> {
        self@
    }

    fn into_secret_box(self) -> (secret: SecretKey) {
        SecretKey::seal(vstd::slice::slice_to_vec(self))
    }
}

impl<const N: usize> IntoSecretBox for &[u8; N] {
    open spec fn secret(self) -> Seq<u8> {
        self@
    }

    fn into_secret_box(self) -> (secret: SecretKey) {
        SecretKey::seal(vstd::slice::slice_to_vec(self.as_slice()))
    }
}

impl IntoSecretBox for Vec<u8> {
    open spec fn secret(self) -> Seq<u8> {
        self@
    }

    fn into_secret_box(self) -> (secret: SecretKey) {
        SecretKey::seal(self)
    }
}

impl IntoSecretBox for &Vec<u8> {
    open spec fn secret(self) -> Seq<u8> {
        self@
    }

    fn into_secret_box(self) -> (secret: SecretKey) {
        SecretKey::seal(vstd::slice::slice_to_vec(self.as_slice()))
    }
}

// ---------------------------------------------------------------------------
// The context
// ---------------------------------------------------------------------------

/// What a nonce is bound to. A field that is `None` binds nothing.
#[derive(Clone, Copy, Debug)]
pub struct NonceCtx<'a> {
    pub htu: Option<&'a str>,
    pub htm: Option<&'a str>,
    pub jkt: Option<&'a str>,
    pub client: Option<&'a str>,
}

/// [`NonceCtx`], with each text as a sequence of characters.
pub struct NonceCtxView {
    pub htu: Option<Seq<char>>,
    pub htm: Option<Seq<char>>,
    pub jkt: Option<Seq<char>>,
    pub client: Option<Seq<char>>,
}

/// A text that may be missing, as a sequence of characters.
pub open spec fn view_of_str(text: Option<&str>) -> Option<Seq<char>> {
    match text {
        Some(text) => Some(text@),
        None => None,
    }
}

impl<'a> View for NonceCtx<'a> {
    type V = NonceCtxView;

    open spec fn view(&self) -> NonceCtxView {
        NonceCtxView {
            htu: view_of_str(self.htu),
            htm: view_of_str(self.htm),
            jkt: view_of_str(self.jkt),
            client: view_of_str(self.client),
        }
    }
}

/// A field of a context in bytes: whether it is there, its length and its text.
pub open spec fn field_bytes(field: Option<Seq<char>>) -> Seq<u8> {
    match field {
        None => seq![0u8],
        Some(text) => seq![1u8] + spec_u64_to_le_bytes(encode_utf8(text).len() as u64)
            + encode_utf8(text),
    }
}

/// A context in bytes.
pub open spec fn context_bytes(ctx: NonceCtxView) -> Seq<u8> {
    field_bytes(ctx.htu) + field_bytes(ctx.htm) + field_bytes(ctx.jkt) + field_bytes(ctx.client)
}

/// Whether the length of a field can be written in eight bytes.
pub open spec fn field_fits(field: Option<Seq<char>>) -> bool {
    field matches Some(text) ==> encode_utf8(text).len() <= u64::MAX
}

/// Whether the length of each field can be written in eight bytes.
pub open spec fn context_fits(ctx: NonceCtxView) -> bool {
    &&& field_fits(ctx.htu)
    &&& field_fits(ctx.htm)
    &&& field_fits(ctx.jkt)
    &&& field_fits(ctx.client)
}

/// A field can be told from what follows it.
proof fn lemma_field_bytes(a: Option<Seq<char>>, b: Option<Seq<char>>, s: Seq<u8>, t: Seq<u8>)
    requires
        field_fits(a),
        field_fits(b),
        field_bytes(a) + s == field_bytes(b) + t,
    ensures
        a == b,
        s == t,
{
    let left = field_bytes(a) + s;
    let right = field_bytes(b) + t;
    assert(left[0] == field_bytes(a)[0]);
    assert(right[0] == field_bytes(b)[0]);
    match (a, b) {
        (Some(x), Some(y)) => {
            lemma_auto_spec_u64_to_from_le_bytes();
            let m = encode_utf8(x).len();
            let n = encode_utf8(y).len();
            assert(left.subrange(1, 9) =~= spec_u64_to_le_bytes(m as u64));
            assert(right.subrange(1, 9) =~= spec_u64_to_le_bytes(n as u64));
            assert(spec_u64_from_le_bytes(left.subrange(1, 9)) == m as u64);
            assert(m == n);
            assert(left.subrange(9, 9 + m as int) =~= encode_utf8(x));
            assert(right.subrange(9, 9 + m as int) =~= encode_utf8(y));
            encode_utf8_decode_utf8(x);
            encode_utf8_decode_utf8(y);
            assert(s =~= left.subrange(9 + m as int, left.len() as int));
            assert(t =~= right.subrange(9 + m as int, right.len() as int));
        },
        (None, None) => {
            assert(s =~= left.subrange(1, left.len() as int));
            assert(t =~= right.subrange(1, right.len() as int));
        },
        _ => {},
    }
}

/// Two contexts with the same bytes are the same context, so that a nonce is bound to each field,
/// to the field that a text stands in, and to whether the field is there.
pub proof fn lemma_context_bytes(a: NonceCtxView, b: NonceCtxView)
    requires
        context_fits(a),
        context_fits(b),
        context_bytes(a) == context_bytes(b),
    ensures
        a == b,
{
    let a3 = field_bytes(a.client) + Seq::<u8>::empty();
    let b3 = field_bytes(b.client) + Seq::<u8>::empty();
    let a2 = field_bytes(a.jkt) + a3;
    let b2 = field_bytes(b.jkt) + b3;
    let a1 = field_bytes(a.htm) + a2;
    let b1 = field_bytes(b.htm) + b2;
    assert(context_bytes(a) =~= field_bytes(a.htu) + a1);
    assert(context_bytes(b) =~= field_bytes(b.htu) + b1);
    lemma_field_bytes(a.htu, b.htu, a1, b1);
    lemma_field_bytes(a.htm, b.htm, a2, b2);
    lemma_field_bytes(a.jkt, b.jkt, a3, b3);
    lemma_field_bytes(a.client, b.client, Seq::empty(), Seq::empty());
}

fn append_bytes(bytes: &mut Vec<u8>, more: &[u8])
    ensures
        final(bytes)@ == old(bytes)@ + more@,
{
    for i in 0..more.len()
        invariant
            bytes@ == old(bytes)@ + more@.take(i as int),
    {
        assert(more@.take(i + 1) =~= more@.take(i as int).push(more@[i as int]));
        bytes.push(more[i]);
    }
    assert(more@.take(more@.len() as int) =~= more@);
}

fn append_field(bytes: &mut Vec<u8>, field: Option<&str>)
    ensures
        final(bytes)@ == old(bytes)@ + field_bytes(view_of_str(field)),
{
    match field {
        None => {
            bytes.push(0);
        },
        Some(text) => {
            bytes.push(1);
            let encoded = text.as_bytes();
            let length = u64_to_le_bytes(encoded.len() as u64);
            append_bytes(bytes, length.as_slice());
            append_bytes(bytes, encoded);
        },
    }
}

// ---------------------------------------------------------------------------
// Nonces
// ---------------------------------------------------------------------------

/// The number of bytes of a nonce before its tag: eight for the time and sixteen random ones.
pub const STAMP_LENGTH: usize = 24;

/// The number of bytes of a nonce.
pub const NONCE_LENGTH: usize = 56;

/// How far in the future a nonce may have been issued, in seconds.
pub const NONCE_FUTURE_SKEW_SECONDS: i64 = 5;

/// The time and the random bytes of a nonce.
pub open spec fn nonce_stamp(issued_at: i64, random: Seq<u8>) -> Seq<u8> {
    spec_u64_to_le_bytes(issued_at as u64) + random
}

/// The time that a stamp holds.
pub open spec fn stamp_time(stamp: Seq<u8>) -> i64 {
    spec_u64_from_le_bytes(stamp.subrange(0, 8)) as i64
}

/// The tag that binds a stamp to a context.
pub open spec fn nonce_tag(secret: Seq<u8>, stamp: Seq<u8>, ctx: NonceCtxView) -> Seq<u8> {
    hmac_sha256(secret, stamp + context_bytes(ctx))
}

/// The bytes of the nonce issued at a time, with random bytes, in a context.
pub open spec fn nonce_bytes(
    secret: Seq<u8>,
    issued_at: i64,
    random: Seq<u8>,
    ctx: NonceCtxView,
) -> Seq<u8> {
    nonce_stamp(issued_at, random) + nonce_tag(secret, nonce_stamp(issued_at, random), ctx)
}

/// The nonce issued at a time, with random bytes, in a context.
pub open spec fn nonce_text(
    secret: Seq<u8>,
    issued_at: i64,
    random: Seq<u8>,
    ctx: NonceCtxView,
) -> Seq<char> {
    base64url(nonce_bytes(secret, issued_at, random, ctx))
}

/// Whether a nonce that was issued at a time may still be used, or already.
pub open spec fn nonce_in_time(issued_at: i64, now: i64, max_age_seconds: i64) -> bool {
    &&& issued_at <= now + NONCE_FUTURE_SKEW_SECONDS
    &&& now - issued_at <= max_age_seconds
}

/// What is to be said of a nonce in a context.
pub open spec fn nonce_verdict(
    secret: Seq<u8>,
    nonce: Seq<char>,
    now: i64,
    max_age_seconds: i64,
    ctx: NonceCtxView,
) -> Result<(), DpopErrorView> {
    match from_base64url(nonce) {
        None => Err(DpopErrorView::NonceMismatch),
        Some(bytes) => if bytes.len() != NONCE_LENGTH {
            Err(DpopErrorView::NonceMismatch)
        } else {
            let stamp = bytes.subrange(0, STAMP_LENGTH as int);
            let tag = bytes.subrange(STAMP_LENGTH as int, NONCE_LENGTH as int);
            if tag != nonce_tag(secret, stamp, ctx) {
                Err(DpopErrorView::NonceMismatch)
            } else if !nonce_in_time(stamp_time(stamp), now, max_age_seconds) {
                Err(DpopErrorView::NonceStale)
            } else {
                Ok(())
            }
        },
    }
}

/// Whether a nonce that was issued at a time is accepted in a context for as long as its age
/// allows.
pub open spec fn accepted_in_time(
    secret: Seq<u8>,
    nonce: Seq<char>,
    issued_at: i64,
    ctx: NonceCtxView,
) -> bool {
    forall|now: i64, max_age_seconds: i64|
        #[trigger] nonce_in_time(issued_at, now, max_age_seconds) ==> nonce_verdict(
            secret,
            nonce,
            now,
            max_age_seconds,
            ctx,
        ) is Ok
}

fn tag_of(secret: &SecretKey, stamp: &[u8], ctx: &NonceCtx<'_>) -> (tag: [u8; 32])
    ensures
        tag@ == nonce_tag(secret_bytes(*secret), stamp@, ctx@),
{
    let mut message = vstd::slice::slice_to_vec(stamp);
    append_field(&mut message, ctx.htu);
    append_field(&mut message, ctx.htm);
    append_field(&mut message, ctx.jkt);
    append_field(&mut message, ctx.client);
    assert(message@ =~= stamp@ + context_bytes(ctx@));
    authenticate(secret.expose(), message.as_slice())
}

/// A nonce stands for the time it was issued at, and keeps its tag.
proof fn lemma_nonce_parts(issued_at: i64, random: Seq<u8>, tag: Seq<u8>)
    requires
        random.len() == 16,
        tag.len() == 32,
    ensures
        (nonce_stamp(issued_at, random) + tag).len() == NONCE_LENGTH,
        (nonce_stamp(issued_at, random) + tag).subrange(0, STAMP_LENGTH as int) == nonce_stamp(
            issued_at,
            random,
        ),
        (nonce_stamp(issued_at, random) + tag).subrange(STAMP_LENGTH as int, NONCE_LENGTH as int)
            == tag,
        stamp_time(nonce_stamp(issued_at, random)) == issued_at,
{
    lemma_auto_spec_u64_to_from_le_bytes();
    let stamp = nonce_stamp(issued_at, random);
    assert((stamp + tag).subrange(0, STAMP_LENGTH as int) =~= stamp);
    assert((stamp + tag).subrange(STAMP_LENGTH as int, NONCE_LENGTH as int) =~= tag);
    assert(stamp.subrange(0, 8) =~= spec_u64_to_le_bytes(issued_at as u64));
    assert((issued_at as u64) as i64 == issued_at) by (bit_vector);
}

/// Makes the nonce with the time and the random bytes given. It is accepted in the same context
/// for as long as its age allows.
pub fn make_nonce(secret: &SecretKey, now: i64, random: [u8; 16], ctx: &NonceCtx<'_>) -> (nonce:
    String)
    ensures
        nonce@ == nonce_text(secret_bytes(*secret), now, random@, ctx@),
        from_base64url(nonce@) == Some(nonce_bytes(secret_bytes(*secret), now, random@, ctx@)),
        accepted_in_time(secret_bytes(*secret), nonce@, now, ctx@),
{
    proof {
        lemma_auto_spec_u64_to_from_le_bytes();
    }
    #[verifier::truncate]
    let time: u64 = now as u64;
    let mut bytes = u64_to_le_bytes(time);
    append_bytes(&mut bytes, random.as_slice());
    let tag = tag_of(secret, bytes.as_slice(), ctx);
    append_bytes(&mut bytes, tag.as_slice());
    proof {
        lemma_nonce_parts(now, random@, tag@);
    }
    encode(bytes.as_slice())
}

/// The outcome of issuing a nonce, given the random bytes, where there were any.
pub open spec fn issued(
    secret: Seq<u8>,
    now: i64,
    ctx: NonceCtxView,
    random: Option<Seq<u8>>,
) -> Result<Seq<char>, DpopErrorView> {
    match random {
        Some(random) => Ok(nonce_text(secret, now, random, ctx)),
        None => Err(DpopErrorView::EntropyUnavailable),
    }
}

/// The random bytes, as a sequence.
pub open spec fn view_of_random(random: Option<[u8; 16]>) -> Option<Seq<u8>> {
    match random {
        Some(bytes) => Some(bytes@),
        None => None,
    }
}

/// Issues a nonce with random bytes, where there are any.
pub fn issue_nonce_from<S: IntoSecretBox>(
    secret: S,
    now: i64,
    ctx: &NonceCtx<'_>,
    random: Option<[u8; 16]>,
) -> (nonce: Result<String, DpopError>)
    ensures
        text_outcome(nonce) == issued(secret.secret(), now, ctx@, view_of_random(random)),
        nonce matches Ok(nonce) ==> accepted_in_time(secret.secret(), nonce@, now, ctx@),
{
    let secret = secret.into_secret_box();
    match random {
        Some(bytes) => Ok(make_nonce(&secret, now, bytes, ctx)),
        None => Err(DpopError::EntropyUnavailable),
    }
}

/// Issues a nonce with random bytes of the operating system.
pub fn issue_nonce<S: IntoSecretBox>(secret: S, now: i64, ctx: &NonceCtx<'_>) -> (nonce: Result<
    String,
    DpopError,
>)
    ensures
        exists|random: Option<Seq<u8>>|
            is_random(random) && text_outcome(nonce) == #[trigger] issued(
                secret.secret(),
                now,
                ctx@,
                random,
            ),
        nonce matches Ok(nonce) ==> accepted_in_time(secret.secret(), nonce@, now, ctx@),
{
    issue_nonce_from(secret, now, ctx, random_bytes())
}

/// Verifies a nonce in a context.
pub fn verify_nonce<S: IntoSecretBox>(
    secret: S,
    nonce: &str,
    now: i64,
    max_age_seconds: i64,
    ctx: &NonceCtx<'_>,
) -> (outcome: Result<(), DpopError>)
    ensures
        verdict(outcome) == nonce_verdict(secret.secret(), nonce@, now, max_age_seconds, ctx@),
{
    let secret = secret.into_secret_box();
    let bytes = match decode(nonce) {
        Some(bytes) => bytes,
        None => {
            return Err(DpopError::NonceMismatch);
        },
    };
    if bytes.len() != NONCE_LENGTH {
        return Err(DpopError::NonceMismatch);
    }
    let stamp = vstd::slice::slice_subrange(bytes.as_slice(), 0, STAMP_LENGTH);
    let tag = vstd::slice::slice_subrange(bytes.as_slice(), STAMP_LENGTH, NONCE_LENGTH);
    let expected = tag_of(&secret, stamp, ctx);
    if !equal_bytes(tag, expected.as_slice()) {
        return Err(DpopError::NonceMismatch);
    }
    #[verifier::truncate]
    let issued_at: i64 = u64_from_le_bytes(vstd::slice::slice_subrange(stamp, 0, 8)) as i64;
    if issued_at as i128 > now as i128 + NONCE_FUTURE_SKEW_SECONDS as i128 {
        return Err(DpopError::NonceStale);
    }
    if now as i128 - issued_at as i128 > max_age_seconds as i128 {
        return Err(DpopError::NonceStale);
    }
    Ok(())
}

/// A nonce that is issued in one context and accepted in another has the same tag for two
/// different messages: without such a collision a nonce is accepted in its own context only.
pub proof fn lemma_nonce_bound_to_context(
    secret: Seq<u8>,
    nonce: Seq<char>,
    issued_at: i64,
    random: Seq<u8>,
    ctx: NonceCtxView,
    other: NonceCtxView,
    now: i64,
    max_age_seconds: i64,
)
    requires
        random.len() == 16,
        context_fits(ctx),
        context_fits(other),
        ctx != other,
        from_base64url(nonce) == Some(nonce_bytes(secret, issued_at, random, ctx)),
        nonce_verdict(secret, nonce, now, max_age_seconds, other) is Ok,
    ensures
        nonce_stamp(issued_at, random) + context_bytes(ctx) != nonce_stamp(issued_at, random)
            + context_bytes(other),
        nonce_tag(secret, nonce_stamp(issued_at, random), ctx) == nonce_tag(
            secret,
            nonce_stamp(issued_at, random),
            other,
        ),
{
    lemma_auto_spec_u64_to_from_le_bytes();
    let stamp = nonce_stamp(issued_at, random);
    let tag = nonce_tag(secret, stamp, ctx);
    lemma_nonce_parts(issued_at, random, tag);
    let message = stamp + context_bytes(ctx);
    let message_other = stamp + context_bytes(other);
    if message == message_other {
        assert(context_bytes(ctx) =~= message.subrange(stamp.len() as int, message.len() as int));
        assert(context_bytes(other) =~= message_other.subrange(
            stamp.len() as int,
            message_other.len() as int,
        ));
        lemma_context_bytes(ctx, other);
    }
}

} // verus!
