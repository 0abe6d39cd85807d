//! Public keys from their JSON members, and their thumbprints.

use vstd::prelude::*;
use vstd::utf8::encode_utf8;

use crate::crypto::{
    check_ed25519_point, check_eddsa, check_es256, check_p256_point, digest, ed25519_point,
    eddsa_signed, es256_signed, p256_point, sha256,
};
use crate::encoding::{base64url, decode, encode, from_base64url, is_base64url_text};
use crate::error::{text_outcome, DpopError, DpopErrorView};

verus! {

/// The number of bytes of a coordinate of a P-256 point, and of an Ed25519 public key.
pub const KEY_LENGTH: usize = 32;

// ---------------------------------------------------------------------------
// Keys
// ---------------------------------------------------------------------------

/// A P-256 public key.
#[derive(Debug)]
pub struct P256Key {
    x: Vec<u8>,
    y: Vec<u8>,
}

/// The coordinates of a P-256 public key.
pub struct P256KeyView {
    pub x: Seq<u8>,
    pub y: Seq<u8>,
}

impl View for P256Key {
    type V = P256KeyView;

    closed spec fn view(&self) -> P256KeyView {
        P256KeyView { x: self.x@, y: self.y@ }
    }
}

impl P256KeyView {
    /// Whether the coordinates are those of a key.
    pub open spec fn valid(self) -> bool {
        &&& self.x.len() == KEY_LENGTH
        &&& self.y.len() == KEY_LENGTH
        &&& p256_point(self.x, self.y)
    }
}

/// The key with the coordinates that two texts spell in base64url: each has to have its full
/// length, leading zeros included, and together they have to lie on the curve.
pub open spec fn p256_key(x: Seq<char>, y: Seq<char>) -> Result<P256KeyView, DpopErrorView> {
    match (from_base64url(x), from_base64url(y)) {
        (None, _) => Err(DpopErrorView::BadJwk("bad jwk.x"@)),
        (Some(_), None) => Err(DpopErrorView::BadJwk("bad jwk.y"@)),
        (Some(x), Some(y)) => if x.len() != KEY_LENGTH || y.len() != KEY_LENGTH {
            Err(DpopErrorView::BadJwk("jwk x/y must be 32 bytes"@))
        } else if !p256_point(x, y) {
            Err(DpopErrorView::BadJwk("jwk x/y is not a point on P-256"@))
        } else {
            Ok(P256KeyView { x, y })
        },
    }
}

/// The outcome of making a P-256 key.
pub open spec fn p256_key_outcome(outcome: Result<P256Key, DpopError>) -> Result<
    P256KeyView,
    DpopErrorView,
> {
    match outcome {
        Ok(key) => Ok(key@),
        Err(error) => Err(error@),
    }
}

/// Makes a P-256 key from the members `x` and `y` of a JSON Web Key.
pub fn verifying_key_from_p256_xy(x_b64: &str, y_b64: &str) -> (key: Result<P256Key, DpopError>)
    ensures
        p256_key_outcome(key) == p256_key(x_b64@, y_b64@),
{
    let x = match decode(x_b64) {
        Some(x) => x,
        None => {
            return Err(DpopError::BadJwk("bad jwk.x"));
        },
    };
    let y = match decode(y_b64) {
        Some(y) => y,
        None => {
            return Err(DpopError::BadJwk("bad jwk.y"));
        },
    };
    if x.len() != KEY_LENGTH || y.len() != KEY_LENGTH {
        return Err(DpopError::BadJwk("jwk x/y must be 32 bytes"));
    }
    if !check_p256_point(x.as_slice(), y.as_slice()) {
        return Err(DpopError::BadJwk("jwk x/y is not a point on P-256"));
    }
    Ok(P256Key { x, y })
}

impl P256Key {
    #[verifier::type_invariant]
    spec fn well_formed(self) -> bool {
        self@.valid()
    }

    /// Whether the bytes are an ES256 signature of the message under this key.
    pub fn verify(&self, message: &[u8], signature: &[u8]) -> (valid: bool)
        ensures
            valid == es256_signed(self@.x, self@.y, message@, signature@),
    {
        proof {
            use_type_invariant(self);
        }
        check_es256(self.x.as_slice(), self.y.as_slice(), message, signature)
    }
}

/// An Ed25519 public key.
#[derive(Debug)]
pub struct Ed25519Key {
    bytes: Vec<u8>,
}

impl View for Ed25519Key {
    type V = Seq<u8>;

    closed spec fn view(&self) -> Seq<u8> {
        self.bytes@
    }
}

/// The key whose bytes a text spells in base64url: there have to be enough of them, and they have
/// to give a point on the curve.
pub open spec fn ed25519_key(x: Seq<char>) -> Result<Seq<u8>, DpopErrorView> {
    match from_base64url(x) {
        None => Err(DpopErrorView::BadJwk("bad jwk.x"@)),
        Some(x) => if x.len() != KEY_LENGTH {
            Err(DpopErrorView::BadJwk("jwk x must be 32 bytes"@))
        } else if !ed25519_point(x) {
            Err(DpopErrorView::BadJwk("jwk x is not an Ed25519 key"@))
        } else {
            Ok(x)
        },
    }
}

/// The outcome of making an Ed25519 key.
pub open spec fn ed25519_key_outcome(outcome: Result<Ed25519Key, DpopError>) -> Result<
    Seq<u8>,
    DpopErrorView,
> {
    match outcome {
        Ok(key) => Ok(key@),
        Err(error) => Err(error@),
    }
}

/// Makes an Ed25519 key from the member `x` of a JSON Web Key.
pub fn verifying_key_from_okp_ed25519(x_b64: &str) -> (key: Result<Ed25519Key, DpopError>)
    ensures
        ed25519_key_outcome(key) == ed25519_key(x_b64@),
{
    let bytes = match decode(x_b64) {
        Some(bytes) => bytes,
        None => {
            return Err(DpopError::BadJwk("bad jwk.x"));
        },
    };
    if bytes.len() != KEY_LENGTH {
        return Err(DpopError::BadJwk("jwk x must be 32 bytes"));
    }
    if !check_ed25519_point(bytes.as_slice()) {
        return Err(DpopError::BadJwk("jwk x is not an Ed25519 key"));
    }
    Ok(Ed25519Key { bytes })
}

impl Ed25519Key {
    /// Whether the bytes are an EdDSA signature of the message under this key.
    pub fn verify(&self, message: &[u8], signature: &[u8]) -> (valid: bool)
        ensures
            valid == eddsa_signed(self@, message@, signature@),
    {
        check_eddsa(self.bytes.as_slice(), message, signature)
    }
}

// ---------------------------------------------------------------------------
// Thumbprints
// ---------------------------------------------------------------------------

/// The number of characters of a thumbprint.
pub const THUMBPRINT_LENGTH: usize = 43;

/// The members that a P-256 key is known by, as JSON: in lexicographic order and without white
/// space.
pub open spec fn ec_p256_members(x: Seq<char>, y: Seq<char>) -> Seq<char> {
    "{\"crv\":\"P-256\",\"kty\":\"EC\",\"x\":\""@ + x + "\",\"y\":\""@ + y + "\"}"@
}

/// The members that an Ed25519 key is known by, as JSON: in lexicographic order and without white
/// space.
pub open spec fn okp_ed25519_members(x: Seq<char>) -> Seq<char> {
    "{\"crv\":\"Ed25519\",\"kty\":\"OKP\",\"x\":\""@ + x + "\"}"@
}

/// The thumbprint of a key that is known by these members.
pub open spec fn thumbprint(members: Seq<char>) -> Seq<char> {
    base64url(sha256(encode_utf8(members)))
}

/// The thumbprint of a P-256 key, whose members have to be base64url.
pub open spec fn ec_p256_thumbprint(x: Seq<char>, y: Seq<char>) -> Result<
    Seq<char>,
    DpopErrorView,
> {
    if from_base64url(x) is None {
        Err(DpopErrorView::BadJwk("bad jwk.x"@))
    } else if from_base64url(y) is None {
        Err(DpopErrorView::BadJwk("bad jwk.y"@))
    } else {
        Ok(thumbprint(ec_p256_members(x, y)))
    }
}

/// The thumbprint of an Ed25519 key, whose member has to be base64url.
pub open spec fn okp_ed25519_thumbprint(x: Seq<char>) -> Result<Seq<char>, DpopErrorView> {
    if from_base64url(x) is None {
        Err(DpopErrorView::BadJwk("bad jwk.x"@))
    } else {
        Ok(thumbprint(okp_ed25519_members(x)))
    }
}

fn thumbprint_of(members: &str) -> (text: String)
    ensures
        text@ == thumbprint(members@),
        text@.len() == THUMBPRINT_LENGTH,
        is_base64url_text(text@),
{
    let hash = digest(members.as_bytes());
    encode(hash.as_slice())
}

/// The thumbprint of the P-256 key with the members `x` and `y`.
pub fn thumbprint_ec_p256(x_b64: &str, y_b64: &str) -> (text: Result<String, DpopError>)
    ensures
        text_outcome(text) == ec_p256_thumbprint(x_b64@, y_b64@),
        text matches Ok(text) ==> text@.len() == THUMBPRINT_LENGTH && is_base64url_text(text@),
{
    if decode(x_b64).is_none() {
        return Err(DpopError::BadJwk("bad jwk.x"));
    }
    if decode(y_b64).is_none() {
        return Err(DpopError::BadJwk("bad jwk.y"));
    }
    let mut members = "{\"crv\":\"P-256\",\"kty\":\"EC\",\"x\":\"".to_owned();
    members.append(x_b64);
    members.append("\",\"y\":\"");
    members.append(y_b64);
    members.append("\"}");
    Ok(thumbprint_of(members.as_str()))
}

/// The thumbprint of the Ed25519 key with the member `x`.
pub fn thumbprint_okp_ed25519(x_b64: &str) -> (text: Result<String, DpopError>)
    ensures
        text_outcome(text) == okp_ed25519_thumbprint(x_b64@),
        text matches Ok(text) ==> text@.len() == THUMBPRINT_LENGTH && is_base64url_text(text@),
{
    if decode(x_b64).is_none() {
        return Err(DpopError::BadJwk("bad jwk.x"));
    }
    let mut members = "{\"crv\":\"Ed25519\",\"kty\":\"OKP\",\"x\":\"".to_owned();
    members.append(x_b64);
    members.append("\"}");
    Ok(thumbprint_of(members.as_str()))
}

} // verus!
