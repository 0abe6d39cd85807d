//! Digests, message authentication, signatures, random bytes and the clock.

use vstd::prelude::*;

use hmac::Mac;
use rand_core::RngCore;
use sha2::Digest;
use signature::Verifier;
use subtle::ConstantTimeEq;

use crate::nonce::view_of_random;

verus! {

/// The SHA-256 digest of a sequence of bytes.
pub uninterp spec fn sha256(bytes: Seq<u8>) -> Seq<u8>;

/// Calls `digest` of `sha2::Sha256`. The digest has thirty-two bytes.
#[verifier::external_body]
pub(crate) fn digest(bytes: &[u8]) -> (digest: [u8; 32])
    ensures
        digest@ == sha256(bytes@),
{
    sha2::Sha256::digest(bytes).into()
}

/// The HMAC-SHA-256 tag of a message under a key.
pub uninterp spec fn hmac_sha256(key: Seq<u8>, message: Seq<u8>) -> Seq<u8>;

/// Calls `new_from_slice`, `update` and `finalize` of `hmac::Hmac<sha2::Sha256>`. A key may have
/// any length, so that the first does not fail. The tag has thirty-two bytes.
#[verifier::external_body]
pub(crate) fn authenticate(key: &[u8], message: &[u8]) -> (tag: [u8; 32])
    ensures
        tag@ == hmac_sha256(key@, message@),
{
    let mut mac = hmac::Hmac::<sha2::Sha256>::new_from_slice(key).unwrap();
    mac.update(message);
    mac.finalize().into_bytes().into()
}

/// Calls `ct_eq` of `subtle::ConstantTimeEq` on two slices: whether they have the same length and
/// the same bytes.
#[verifier::external_body]
pub(crate) fn equal_bytes(left: &[u8], right: &[u8]) -> (equal: bool)
    ensures
        equal == (left@ == right@),
{
    bool::from(left.ct_eq(right))
}

/// Whether these can be random bytes that the operating system gave, where it gave any. Outside
/// this module nothing is known of them but that there are sixteen: only what
/// [`random_bytes`] returned can be shown to be such bytes.
pub closed spec fn is_random(random: Option<Seq<u8>>) -> bool {
    random matches Some(bytes) ==> bytes.len() == 16
}

/// There are sixteen random bytes, where there are any.
pub proof fn lemma_random_length(random: Option<Seq<u8>>)
    requires
        is_random(random),
    ensures
        random matches Some(bytes) ==> bytes.len() == 16,
{
}

/// There is something that the operating system can give.
pub proof fn lemma_some_random()
    ensures
        exists|random: Option<Seq<u8>>| is_random(random),
{
    assert(is_random(None));
}

/// Calls `try_fill_bytes` of `rand_core::OsRng` for sixteen bytes. Which they are, and whether the
/// operating system gives any, is open.
#[verifier::external_body]
pub(crate) fn random_bytes() -> (bytes: Option<[u8; 16]>)
    ensures
        is_random(view_of_random(bytes)),
{
    let mut bytes = [0u8; 16];
    rand_core::OsRng.try_fill_bytes(&mut bytes).ok()?;
    Some(bytes)
}

/// The largest distance of the clock from the epoch, in seconds: more than the million years that
/// a date of the `time` crate can span.
pub const CLOCK_BOUND: i64 = 0x4000_0000_0000;

/// Whether a number of seconds is one that the clock can show. Outside this module nothing is
/// known of it but its bounds: only what [`now`] returned can be shown to be a reading.
pub closed spec fn is_clock(now: i64) -> bool {
    -CLOCK_BOUND <= now <= CLOCK_BOUND
}

/// A reading of the clock lies within the years that a date can have.
pub proof fn lemma_clock_bounds(now: i64)
    requires
        is_clock(now),
    ensures
        -CLOCK_BOUND <= now <= CLOCK_BOUND,
{
}

/// The clock shows something.
pub proof fn lemma_some_clock()
    ensures
        exists|now: i64| is_clock(now),
{
    assert(is_clock(0));
}

/// Calls `now_utc` and `unix_timestamp` of `time::OffsetDateTime`. Which second it is, is open; it
/// lies within the years that a date can have.
#[verifier::external_body]
pub(crate) fn now() -> (now: i64)
    ensures
        is_clock(now),
{
    time::OffsetDateTime::now_utc().unix_timestamp()
}

/// Whether two coordinates are those of a point on the curve P-256 that can be a public key.
pub uninterp spec fn p256_point(x: Seq<u8>, y: Seq<u8>) -> bool;

/// Calls `from_encoded_point` of `p256::ecdsa::VerifyingKey` on the uncompressed point with the
/// coordinates: whether it gives a key. A coordinate has thirty-two bytes; on another length the
/// conversion to the type of a coordinate stops the program.
#[verifier::external_body]
#[allow(deprecated)]
pub(crate) fn check_p256_point(x: &[u8], y: &[u8]) -> (valid: bool)
    requires
        x@.len() == 32,
        y@.len() == 32,
    ensures
        valid == p256_point(x@, y@),
{
    let x = p256::FieldBytes::from_slice(x);
    let y = p256::FieldBytes::from_slice(y);
    let point = p256::EncodedPoint::from_affine_coordinates(x, y, false);
    p256::ecdsa::VerifyingKey::from_encoded_point(&point).is_ok()
}

/// Whether a signature, as the concatenation of its two scalars, is one of a message under the
/// P-256 key with the coordinates.
pub uninterp spec fn es256_signed(
    x: Seq<u8>,
    y: Seq<u8>,
    message: Seq<u8>,
    signature: Seq<u8>,
) -> bool;

/// Calls `from_slice` of `p256::ecdsa::Signature` and `verify` of `p256::ecdsa::VerifyingKey`:
/// whether the bytes are a signature and it verifies.
#[verifier::external_body]
#[allow(deprecated)]
pub(crate) fn check_es256(x: &[u8], y: &[u8], message: &[u8], signature: &[u8]) -> (valid: bool)
    requires
        x@.len() == 32,
        y@.len() == 32,
    ensures
        valid == es256_signed(x@, y@, message@, signature@),
{
    let x = p256::FieldBytes::from_slice(x);
    let y = p256::FieldBytes::from_slice(y);
    let point = p256::EncodedPoint::from_affine_coordinates(x, y, false);
    let key = p256::ecdsa::VerifyingKey::from_encoded_point(&point);
    let signature = p256::ecdsa::Signature::from_slice(signature);
    match (key, signature) {
        (Ok(key), Ok(signature)) => key.verify(message, &signature).is_ok(),
        _ => false,
    }
}

/// Whether bytes are those of a point that can be an Ed25519 public key.
pub uninterp spec fn ed25519_point(key: Seq<u8>) -> bool;

/// Calls `try_from` of `ed25519_dalek::VerifyingKey`, which is `from_bytes` on thirty-two bytes and
/// fails on any other number: whether it gives a key.
#[verifier::external_body]
pub(crate) fn check_ed25519_point(key: &[u8]) -> (valid: bool)
    ensures
        valid == ed25519_point(key@),
{
    ed25519_dalek::VerifyingKey::try_from(key).is_ok()
}

/// Whether a signature is one of a message under an Ed25519 public key.
pub uninterp spec fn eddsa_signed(key: Seq<u8>, message: Seq<u8>, signature: Seq<u8>) -> bool;

/// Calls `from_slice` of `ed25519_dalek::Signature` and `verify` of `ed25519_dalek::VerifyingKey`:
/// whether the bytes are a signature and it verifies.
#[verifier::external_body]
pub(crate) fn check_eddsa(key: &[u8], message: &[u8], signature: &[u8]) -> (valid: bool)
    ensures
        valid == eddsa_signed(key@, message@, signature@),
{
    let key = ed25519_dalek::VerifyingKey::try_from(key);
    let signature = ed25519_dalek::Signature::from_slice(signature);
    match (key, signature) {
        (Ok(key), Ok(signature)) => key.verify(message, &signature).is_ok(),
        _ => false,
    }
}

} // verus!
