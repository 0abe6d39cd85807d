//! What a verifier allows and demands.

use vstd::prelude::*;

use crate::nonce::{secret_bytes, IntoSecretBox, SecretKey};

verus! {

/// How nonces are authenticated, and what they are bound to.
#[derive(Clone, Debug)]
pub struct HmacConfig {
    pub secret: SecretKey,
    pub max_age_seconds: i64,
    pub bind_htu_htm: bool,
    pub bind_jkt: bool,
    pub bind_client: bool,
}

/// [`HmacConfig`], with the secret as a sequence of bytes.
pub struct HmacConfigView {
    pub secret: Seq<u8>,
    pub max_age_seconds: i64,
    pub bind_htu_htm: bool,
    pub bind_jkt: bool,
    pub bind_client: bool,
}

impl View for HmacConfig {
    type V = HmacConfigView;

    open spec fn view(&self) -> HmacConfigView {
        HmacConfigView {
            secret: secret_bytes(self.secret),
            max_age_seconds: self.max_age_seconds,
            bind_htu_htm: self.bind_htu_htm,
            bind_jkt: self.bind_jkt,
            bind_client: self.bind_client,
        }
    }
}

impl HmacConfig {
    /// Makes a configuration. The secret may be given as a [`SecretKey`], a vector, a slice or an
    /// array of bytes.
    pub fn new<S>(
        secret: S,
        max_age_seconds: i64,
        bind_htu_htm: bool,
        bind_jkt: bool,
        bind_client: bool,
    ) -> (config: Self) where S: IntoSecretBox
        ensures
            config@ == (HmacConfigView {
                secret: secret.secret(),
                max_age_seconds,
                bind_htu_htm,
                bind_jkt,
                bind_client,
            }),
    {
        HmacConfig {
            secret: secret.into_secret_box(),
            max_age_seconds,
            bind_htu_htm,
            bind_jkt,
            bind_client,
        }
    }
}

/// Which nonce a proof has to hold.
#[derive(Clone, Debug)]
pub enum NonceMode {
    /// None.
    Disabled,
    /// The one that was issued before.
    RequireEqual {
        /// The nonce that was issued before.
        expected_nonce: String,
    },
    /// One that carries its time and context with it, authenticated.
    Hmac(HmacConfig),
}

/// [`NonceMode`], with each text as a sequence of characters.
pub enum NonceModeView {
    Disabled,
    RequireEqual(Seq<char>),
    Hmac(HmacConfigView),
}

impl View for NonceMode {
    type V = NonceModeView;

    open spec fn view(&self) -> NonceModeView {
        match self {
            NonceMode::Disabled => NonceModeView::Disabled,
            NonceMode::RequireEqual { expected_nonce } => NonceModeView::RequireEqual(
                expected_nonce@,
            ),
            NonceMode::Hmac(config) => NonceModeView::Hmac(config@),
        }
    }
}

/// The client that a verifier is bound to.
#[derive(Debug, Clone)]
pub struct ClientBinding {
    pub client_id: String,
}

impl ClientBinding {
    /// Binds to the client with the identifier.
    pub fn new<T: Into<String>>(client_id: T) -> (binding: Self)
        ensures
            call_ensures(<T as Into<String>>::into, (client_id,), binding.client_id),
    {
        Self { client_id: client_id.into() }
    }
}

/// What a verifier allows and demands.
#[derive(Debug, Clone)]
pub struct VerifyOptions {
    pub max_age_seconds: i64,
    pub future_skew_seconds: i64,
    pub nonce_mode: NonceMode,
    pub client_binding: Option<ClientBinding>,
}

/// [`VerifyOptions`], with each text as a sequence of characters.
pub struct VerifyOptionsView {
    pub max_age_seconds: i64,
    pub future_skew_seconds: i64,
    pub nonce_mode: NonceModeView,
    pub client_id: Option<Seq<char>>,
}

impl View for VerifyOptions {
    type V = VerifyOptionsView;

    open spec fn view(&self) -> VerifyOptionsView {
        VerifyOptionsView {
            max_age_seconds: self.max_age_seconds,
            future_skew_seconds: self.future_skew_seconds,
            nonce_mode: self.nonce_mode@,
            client_id: match self.client_binding {
                Some(binding) => Some(binding.client_id@),
                None => None,
            },
        }
    }
}

/// Five minutes of age, five seconds into the future, no nonce and no client.
pub open spec fn default_options() -> VerifyOptionsView {
    VerifyOptionsView {
        max_age_seconds: 300,
        future_skew_seconds: 5,
        nonce_mode: NonceModeView::Disabled,
        client_id: None,
    }
}

impl Default for VerifyOptions {
    fn default() -> (options: Self)
        ensures
            options@ == default_options(),
    {
        Self {
            max_age_seconds: 300,
            future_skew_seconds: 5,
            nonce_mode: NonceMode::Disabled,
            client_binding: None,
        }
    }
}

} // verus!
