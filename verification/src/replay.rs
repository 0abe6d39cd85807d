//! The store that tells a proof that is used for the first time from one that is replayed.

use vstd::prelude::*;
use vstd::utf8::encode_utf8;

use crate::crypto::{digest, sha256};
use crate::error::{DpopError, DpopErrorView};
use crate::nonce::view_of_str;

verus! {

/// The number of bytes of the hash of a `jti` claim.
pub const JTI_HASH_LENGTH: usize = 32;

/// The hash of a `jti` claim, under which a store remembers it.
#[derive(Clone, Copy, Debug)]
pub struct JtiHash([u8; JTI_HASH_LENGTH]);

impl View for JtiHash {
    type V = Seq<u8>;

    closed spec fn view(&self) -> Seq<u8> {
        self.0@
    }
}

/// The SHA-256 digest of the bytes of a `jti` claim.
pub open spec fn jti_hash(jti: Seq<char>) -> Seq<u8> {
    sha256(encode_utf8(jti))
}

impl JtiHash {
    /// Hashes a `jti` claim.
    pub fn from_jti(jti: &str) -> (hash: Self)
        ensures
            hash@ == jti_hash(jti@),
    {
        JtiHash(digest(jti.as_bytes()))
    }

    /// The bytes of the hash.
    pub fn as_array(&self) -> (bytes: [u8; JTI_HASH_LENGTH])
        ensures
            bytes@ == self@,
    {
        self.0
    }
}

/// What a store may keep beside the hash.
#[derive(Clone, Copy, Debug)]
pub struct ReplayContext<'a> {
    pub jkt: Option<&'a str>,
    pub htm: Option<&'a str>,
    pub htu: Option<&'a str>,
    pub client_id: Option<&'a str>,
    pub iat: i64,
}

/// [`ReplayContext`], with each text as a sequence of characters.
pub struct ReplayContextView {
    pub jkt: Option<Seq<char>>,
    pub htm: Option<Seq<char>>,
    pub htu: Option<Seq<char>>,
    pub client_id: Option<Seq<char>>,
    pub iat: i64,
}

impl<'a> View for ReplayContext<'a> {
    type V = ReplayContextView;

    open spec fn view(&self) -> ReplayContextView {
        ReplayContextView {
            jkt: view_of_str(self.jkt),
            htm: view_of_str(self.htm),
            htu: view_of_str(self.htu),
            client_id: view_of_str(self.client_id),
            iat: self.iat,
        }
    }
}

/// The answer of a store.
pub open spec fn answer_view(answer: Result<bool, DpopError>) -> Result<bool, DpopErrorView> {
    match answer {
        Ok(first) => Ok(first),
        Err(error) => Err(error@),
    }
}

/// A store of the hashes that have been seen.
pub trait ReplayStore {
    /// Which answers the store may give to a hash and a context, and what it is afterwards. A store
    /// of which nothing is stated may give any.
    open spec fn may_answer(
        before: &Self,
        jti_hash: Seq<u8>,
        ctx: ReplayContextView,
        after: &Self,
        answer: Result<bool, DpopErrorView>,
    ) -> bool {
        true
    }

    /// Remembers a hash: `Ok(true)` if it has not been seen before, `Ok(false)` if it has.
    fn insert_once(&mut self, jti_hash: [u8; 32], ctx: ReplayContext<'_>) -> (answer: Result<
        bool,
        DpopError,
    >)
        ensures
            Self::may_answer(old(self), jti_hash@, ctx@, final(self), answer_view(answer)),
    ;
}

} // verus!
