//! Nonces on their own.

use base64::engine::general_purpose::URL_SAFE_NO_PAD as B64;
use base64::Engine;
use dpop_verifier::nonce::{issue_nonce, issue_nonce_from, make_nonce, verify_nonce, NonceCtx};
use dpop_verifier::{DpopError, IntoSecretBox};
use hmac::{Hmac, Mac};
use sha2::Sha256;

const CTX: NonceCtx<'static> = NonceCtx {
    htu: Some("https://ex.com/"),
    htm: Some("GET"),
    jkt: None,
    client: Some("c"),
};

#[test]
fn a_nonce_is_time_random_bytes_and_tag() {
    let secret = b"key".into_secret_box();
    let nonce = make_nonce(&secret, -2, [9; 16], &CTX);
    let mut message = (-2i64).to_le_bytes().to_vec();
    message.extend([9; 16]);
    let stamp = message.clone();
    for field in [CTX.htu, CTX.htm, CTX.jkt, CTX.client] {
        match field {
            None => message.push(0),
            Some(text) => {
                message.push(1);
                message.extend((text.len() as u64).to_le_bytes());
                message.extend(text.as_bytes());
            }
        }
    }
    let mut mac = Hmac::<Sha256>::new_from_slice(b"key").unwrap();
    mac.update(&message);
    let mut expected = stamp;
    expected.extend(mac.finalize().into_bytes());
    assert_eq!(B64.decode(&nonce).unwrap(), expected);
    assert_eq!(nonce.len(), 75);
}

#[test]
fn a_nonce_is_accepted_in_its_context_and_time() {
    let nonce = issue_nonce(b"key", 1000, &CTX).unwrap();
    for now in [995, 1000, 1100] {
        assert_eq!(verify_nonce(b"key", &nonce, now, 100, &CTX), Ok(()));
    }
    for now in [994, 1101, i64::MIN, i64::MAX] {
        assert_eq!(
            verify_nonce(b"key", &nonce, now, 100, &CTX),
            Err(DpopError::NonceStale)
        );
    }
}

#[test]
fn a_nonce_is_refused_under_another_secret_or_in_another_context() {
    let nonce = issue_nonce(b"key", 1000, &CTX).unwrap();
    let refused = |secret: &[u8], ctx: NonceCtx<'_>| {
        verify_nonce(secret, &nonce, 1000, 100, &ctx) == Err(DpopError::NonceMismatch)
    };
    assert!(!refused(b"key", CTX));
    assert!(refused(b"kez", CTX));
    assert!(refused(b"", CTX));
    assert!(refused(b"key", NonceCtx { htu: None, ..CTX }));
    assert!(refused(b"key", NonceCtx { htm: Some("PUT"), ..CTX }));
    assert!(refused(b"key", NonceCtx { jkt: Some(""), ..CTX }));
    assert!(refused(b"key", NonceCtx { client: None, ..CTX }));
    // The same texts, divided otherwise.
    assert!(refused(
        b"key",
        NonceCtx {
            htu: Some("https://ex.com/G"),
            htm: Some("ET"),
            ..CTX
        }
    ));
    // The same text in another field.
    assert!(refused(
        b"key",
        NonceCtx {
            jkt: Some("c"),
            client: None,
            ..CTX
        }
    ));
}

#[test]
fn what_is_no_nonce_is_refused() {
    let nonce = issue_nonce(b"key", 1000, &CTX).unwrap();
    for text in [
        "",
        "x",
        "not base64url!",
        &nonce[..74],
        &format!("{nonce}A"),
        &format!("{nonce}="),
        &B64.encode([0u8; 55]),
        &B64.encode([0u8; 57]),
        &B64.encode([0u8; 56]),
    ] {
        assert_eq!(
            verify_nonce(b"key", text, 1000, 100, &CTX),
            Err(DpopError::NonceMismatch)
        );
    }
}

#[test]
fn every_form_of_a_secret_is_the_same_secret() {
    let bytes: Vec<u8> = b"key".to_vec();
    let sealed = b"key".into_secret_box();
    let nonce = issue_nonce(&sealed, 1000, &CTX).unwrap();
    assert_eq!(verify_nonce(b"key", &nonce, 1000, 1, &CTX), Ok(()));
    assert_eq!(verify_nonce(&bytes[..], &nonce, 1000, 1, &CTX), Ok(()));
    assert_eq!(verify_nonce(&bytes, &nonce, 1000, 1, &CTX), Ok(()));
    assert_eq!(verify_nonce(bytes, &nonce, 1000, 1, &CTX), Ok(()));
    assert_eq!(verify_nonce(sealed.clone(), &nonce, 1000, 1, &CTX), Ok(()));
    assert_eq!(verify_nonce(sealed, &nonce, 1000, 1, &CTX), Ok(()));
}

#[test]
fn no_nonce_is_issued_without_random_bytes() {
    assert_eq!(
        issue_nonce_from(b"key", 1000, &CTX, None),
        Err(DpopError::EntropyUnavailable)
    );
    assert_eq!(
        issue_nonce_from(b"key", 1000, &CTX, Some([3; 16])).unwrap(),
        make_nonce(&b"key".into_secret_box(), 1000, [3; 16], &CTX)
    );
}

#[test]
fn two_nonces_of_the_same_second_differ() {
    assert_ne!(
        issue_nonce(b"key", 1000, &CTX).unwrap(),
        issue_nonce(b"key", 1000, &CTX).unwrap()
    );
}
