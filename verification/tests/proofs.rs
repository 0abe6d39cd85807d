//! Proofs, from the compact form to the verdict.

use base64::engine::general_purpose::URL_SAFE_NO_PAD as B64;
use base64::Engine;
use dpop_verifier::jwk::{thumbprint_ec_p256, verifying_key_from_p256_xy};
use dpop_verifier::nonce::{issue_nonce, verify_nonce, NonceCtx};
use dpop_verifier::{
    verify_proof, ClientBinding, DpopError, HmacConfig, IntoSecretBox, NonceMode, ReplayContext,
    ReplayStore, VerifyOptions,
};
use p256::ecdsa::{signature::Signer, Signature, SigningKey, VerifyingKey};
use rand_core::OsRng;
use sha2::{Digest, Sha256};
use std::collections::HashSet;
use time::OffsetDateTime;

fn gen_es256_key() -> (SigningKey, String, String) {
    let signing_key = SigningKey::random(&mut OsRng);
    let verifying_key = VerifyingKey::from(&signing_key);
    let encoded_point = verifying_key.to_encoded_point(false);
    let x_coordinate = B64.encode(encoded_point.x().unwrap());
    let y_coordinate = B64.encode(encoded_point.y().unwrap());
    (signing_key, x_coordinate, y_coordinate)
}

fn make_jws(signing_key: &SigningKey, header_json: String, claims_json: String) -> String {
    let header_b64 = B64.encode(header_json);
    let payload_b64 = B64.encode(claims_json);
    let signing_input = format!("{header_b64}.{payload_b64}");
    let signature: Signature = signing_key.sign(signing_input.as_bytes());
    let signature_b64 = B64.encode(signature.to_bytes());
    format!("{header_b64}.{payload_b64}.{signature_b64}")
}

fn ec_header(alg: &str, x: &str, y: &str) -> String {
    format!(
        r#"{{"alg":"{alg}","jwk":{{"crv":"P-256","kty":"EC","x":"{x}","y":"{y}"}},"typ":"dpop+jwt"}}"#
    )
}

fn claims(jti: &str, iat: i64, htm: &str, htu: &str) -> String {
    format!(r#"{{"jti":"{jti}","iat":{iat},"htm":"{htm}","htu":"{htu}"}}"#)
}

fn claims_with(jti: &str, iat: i64, htm: &str, htu: &str, name: &str, value: &str) -> String {
    format!(r#"{{"jti":"{jti}","iat":{iat},"htm":"{htm}","htu":"{htu}","{name}":"{value}"}}"#)
}

fn now() -> i64 {
    OffsetDateTime::now_utc().unix_timestamp()
}

#[derive(Default)]
struct MemoryStore(HashSet<[u8; 32]>);

impl ReplayStore for MemoryStore {
    fn insert_once(
        &mut self,
        jti_hash: [u8; 32],
        _ctx: ReplayContext<'_>,
    ) -> Result<bool, DpopError> {
        Ok(self.0.insert(jti_hash))
    }
}

fn hmac_options(
    secret: impl IntoSecretBox,
    bind_client: bool,
    client_binding: Option<ClientBinding>,
) -> VerifyOptions {
    VerifyOptions {
        max_age_seconds: 300,
        future_skew_seconds: 5,
        nonce_mode: NonceMode::Hmac(HmacConfig::new(secret, 300, true, true, bind_client)),
        client_binding,
    }
}

#[test]
fn thumbprint_has_expected_length_and_no_padding() {
    // 32 zero bytes -> base64url = "AAAAAAAAAAAAAAAAAAAAAAAAAAAAAAAAAAAAAAAAAAA" (43 chars)
    let x = "AAAAAAAAAAAAAAAAAAAAAAAAAAAAAAAAAAAAAAAAAAA";
    let y = "AAAAAAAAAAAAAAAAAAAAAAAAAAAAAAAAAAAAAAAAAAA";
    let t1 = thumbprint_ec_p256(x, y).expect("thumbprint");
    let t2 = thumbprint_ec_p256(x, y).expect("thumbprint");
    // deterministic and base64url w/out '=' padding; sha256 -> 43 chars
    assert_eq!(t1, t2);
    assert_eq!(t1.len(), 43);
    assert!(!t1.contains('='));
}

#[test]
fn decoding_key_rejects_wrong_sizes() {
    // 31-byte x (trimmed), 32-byte y
    let bad_x = B64.encode([0u8; 31]);
    let good_y = B64.encode([0u8; 32]);
    let res = verifying_key_from_p256_xy(&bad_x, &good_y);
    assert!(res.is_err(), "expected error for bad y");

    // 32-byte x, 33-byte y
    let good_x = B64.encode([0u8; 32]);
    let bad_y = B64.encode([0u8; 33]);
    let res = verifying_key_from_p256_xy(&good_x, &bad_y);
    assert!(res.is_err(), "expected error for bad y");
}

#[test]
fn replay_store_trait_basic() {
    let mut s = MemoryStore(HashSet::new());
    let ctx = ReplayContext {
        jkt: Some("j"),
        htm: Some("POST"),
        htu: Some("https://ex"),
        client_id: None,
        iat: 0,
    };
    let first = s.insert_once([42u8; 32], ctx).unwrap();
    let second = s.insert_once([42u8; 32], ctx).unwrap();
    assert!(first);
    assert!(!second); // replay detected
}

#[test]
fn verify_valid_es256_proof() {
    let (sk, x, y) = gen_es256_key();
    let jws = make_jws(
        &sk,
        ec_header("ES256", &x, &y),
        claims("j1", now(), "GET", "https://api.example.com/resource"),
    );
    let mut store = MemoryStore::default();
    let res = verify_proof(
        &mut store,
        &jws,
        "https://api.example.com/resource",
        "GET",
        None,
        VerifyOptions::default(),
    );
    assert!(res.is_ok(), "{res:?}");
}

#[test]
fn method_normalization_allows_lowercase_claim() {
    let (sk, x, y) = gen_es256_key();
    let jws = make_jws(
        &sk,
        ec_header("ES256", &x, &y),
        claims("j2", now(), "get", "https://ex.com/a"),
    );
    let mut store = MemoryStore::default();
    let res = verify_proof(
        &mut store,
        &jws,
        "https://ex.com/a",
        "GET",
        None,
        VerifyOptions::default(),
    );
    assert!(res.is_ok(), "{res:?}");
}

#[test]
fn htu_normalizes_dot_segments_and_default_ports_and_strips_qf() {
    // claim has :443, dot-segment, query and fragment
    let (sk, x, y) = gen_es256_key();
    let jws = make_jws(
        &sk,
        ec_header("ES256", &x, &y),
        claims("j3", now(), "GET", "https://EX.COM:443/a/../b?q=1#frag"),
    );
    let mut store = MemoryStore::default();
    let res = verify_proof(
        &mut store,
        &jws,
        "https://ex.com/b",
        "GET",
        None,
        VerifyOptions::default(),
    );
    assert!(res.is_ok(), "{res:?}");
}

#[test]
fn htu_path_case_mismatch_fails() {
    let (sk, x, y) = gen_es256_key();
    let jws = make_jws(
        &sk,
        ec_header("ES256", &x, &y),
        claims("j4", now(), "GET", "https://ex.com/API"),
    );
    let mut store = MemoryStore::default();
    let err = verify_proof(
        &mut store,
        &jws,
        "https://ex.com/api",
        "GET",
        None,
        VerifyOptions::default(),
    )
    .unwrap_err();
    assert!(matches!(err, DpopError::HtuMismatch(_, _)), "{err:?}");
}

#[test]
fn alg_none_rejected() {
    // signed all the same: the algorithm alone decides
    let (sk, x, y) = gen_es256_key();
    let jws = make_jws(
        &sk,
        ec_header("none", &x, &y),
        claims("j5", now(), "GET", "https://ex.com/a"),
    );
    let mut store = MemoryStore::default();
    let err = verify_proof(
        &mut store,
        &jws,
        "https://ex.com/a",
        "GET",
        None,
        VerifyOptions::default(),
    )
    .unwrap_err();
    assert!(matches!(err, DpopError::InvalidAlg(_)), "{err:?}");
}

#[test]
fn alg_hs256_rejected() {
    let (sk, x, y) = gen_es256_key();
    let jws = make_jws(
        &sk,
        ec_header("HS256", &x, &y),
        claims("j6", now(), "GET", "https://ex.com/a"),
    );
    let mut store = MemoryStore::default();
    let err = verify_proof(
        &mut store,
        &jws,
        "https://ex.com/a",
        "GET",
        None,
        VerifyOptions::default(),
    )
    .unwrap_err();
    assert!(matches!(err, DpopError::InvalidAlg(_)), "{err:?}");
}

#[test]
fn jwk_with_private_d_rejected() {
    let (sk, x, y) = gen_es256_key();
    // inject "d" (any string) -> must be rejected
    let header = format!(
        r#"{{"alg":"ES256","jwk":{{"crv":"P-256","d":"AAAA","kty":"EC","x":"{x}","y":"{y}"}},"typ":"dpop+jwt"}}"#
    );
    let jws = make_jws(&sk, header, claims("j7", now(), "GET", "https://ex.com/a"));
    let mut store = MemoryStore::default();
    let err = verify_proof(
        &mut store,
        &jws,
        "https://ex.com/a",
        "GET",
        None,
        VerifyOptions::default(),
    )
    .unwrap_err();
    assert!(matches!(err, DpopError::BadJwk(_)), "{err:?}");
}

#[test]
fn ath_binding_ok_and_mismatch_and_padded_rejected() {
    let (sk, x, y) = gen_es256_key();
    let at = "access.token.string";
    let ath = B64.encode(Sha256::digest(at.as_bytes()));
    let proof = |jti: &str, ath: &str| {
        make_jws(
            &sk,
            ec_header("ES256", &x, &y),
            claims_with(jti, now(), "GET", "https://ex.com/a", "ath", ath),
        )
    };

    // OK
    let jws_ok = proof("j8", &ath);
    let mut store = MemoryStore::default();
    assert!(verify_proof(
        &mut store,
        &jws_ok,
        "https://ex.com/a",
        "GET",
        Some(at),
        VerifyOptions::default()).is_ok(),
    );

    // Mismatch
    let jws_bad = proof("j9", &ath);
    let mut store2 = MemoryStore::default();
    let err = verify_proof(
        &mut store2,
        &jws_bad,
        "https://ex.com/a",
        "GET",
        Some("different.token"),
        VerifyOptions::default(),
    )
    .unwrap_err();
    assert!(matches!(err, DpopError::AthMismatch), "{err:?}");

    // Padded ath should be rejected as malformed (engine is URL_SAFE_NO_PAD)
    let ath_padded = format!("{ath}==");
    let jws_pad = proof("j10", &ath_padded);
    let mut store3 = MemoryStore::default();
    let err = verify_proof(
        &mut store3,
        &jws_pad,
        "https://ex.com/a",
        "GET",
        Some(at),
        VerifyOptions::default(),
    )
    .unwrap_err();
    assert!(matches!(err, DpopError::AthMalformed), "{err:?}");
}

#[test]
fn freshness_future_skew_and_stale() {
    let (sk, x, y) = gen_es256_key();
    let now = now();
    let future_skew_seconds = 5;
    let opts = VerifyOptions {
        max_age_seconds: 300,
        future_skew_seconds,
        nonce_mode: NonceMode::Disabled,
        client_binding: None,
    };
    let proof = |jti: &str, iat: i64| {
        make_jws(
            &sk,
            ec_header("ES256", &x, &y),
            claims(jti, iat, "GET", "https://ex.com/a"),
        )
    };

    // Future skew just over limit
    let jws_future = proof("jf", now + future_skew_seconds + 5);
    let mut store1 = MemoryStore::default();
    let err = verify_proof(
        &mut store1,
        &jws_future,
        "https://ex.com/a",
        "GET",
        None,
        opts.clone(),
    )
    .unwrap_err();
    assert!(matches!(err, DpopError::FutureSkew), "{err:?}");

    // Stale just over limit
    let jws_stale = proof("js", now - 301);
    let mut store2 = MemoryStore::default();
    let err = verify_proof(
        &mut store2,
        &jws_stale,
        "https://ex.com/a",
        "GET",
        None,
        opts,
    )
    .unwrap_err();
    assert!(matches!(err, DpopError::Stale), "{err:?}");
}

#[test]
fn replay_same_jti_is_rejected() {
    let (sk, x, y) = gen_es256_key();
    let jws = make_jws(
        &sk,
        ec_header("ES256", &x, &y),
        claims("jr", now(), "GET", "https://ex.com/a"),
    );
    let mut store = MemoryStore::default();
    let ok1 = verify_proof(
        &mut store,
        &jws,
        "https://ex.com/a",
        "GET",
        None,
        VerifyOptions::default(),
    );
    assert!(ok1.is_ok());
    let err = verify_proof(
        &mut store,
        &jws,
        "https://ex.com/a",
        "GET",
        None,
        VerifyOptions::default(),
    )
    .unwrap_err();
    assert!(matches!(err, DpopError::Replay), "{err:?}");
}

#[test]
fn signature_tamper_detected() {
    let (sk, x, y) = gen_es256_key();
    let jws = make_jws(
        &sk,
        ec_header("ES256", &x, &y),
        claims("jt", now(), "GET", "https://ex.com/a"),
    );
    let mut store = MemoryStore::default();

    // Flip one bit of a character before the second dot
    let mut bytes = jws.into_bytes();
    let mut dot_count = 0usize;
    for i in 0..bytes.len() {
        if bytes[i] == b'.' {
            dot_count += 1;
            if dot_count == 2 && i > 10 {
                bytes[i - 5] ^= 0x01; // tiny flip
                break;
            }
        }
    }
    let jws = String::from_utf8(bytes).unwrap();
    let err = verify_proof(
        &mut store,
        &jws,
        "https://ex.com/a",
        "GET",
        None,
        VerifyOptions::default(),
    )
    .unwrap_err();
    assert!(matches!(err, DpopError::InvalidSignature), "{err:?}");
}

#[test]
fn method_mismatch_rejected() {
    let (sk, x, y) = gen_es256_key();
    let jws = make_jws(
        &sk,
        ec_header("ES256", &x, &y),
        claims("jm", now(), "POST", "https://ex.com/a"),
    );
    let mut store = MemoryStore::default();
    let err = verify_proof(
        &mut store,
        &jws,
        "https://ex.com/a",
        "GET",
        None,
        VerifyOptions::default(),
    )
    .unwrap_err();
    assert!(matches!(err, DpopError::HtmMismatch), "{err:?}");
}

#[test]
fn jti_too_long_rejected() {
    let (sk, x, y) = gen_es256_key();
    let too_long = "x".repeat(513);
    let jws = make_jws(
        &sk,
        ec_header("ES256", &x, &y),
        claims(&too_long, now(), "GET", "https://ex.com/a"),
    );
    let mut store = MemoryStore::default();
    let err = verify_proof(
        &mut store,
        &jws,
        "https://ex.com/a",
        "GET",
        None,
        VerifyOptions::default(),
    )
    .unwrap_err();
    assert!(matches!(err, DpopError::JtiTooLong), "{err:?}");
}

#[test]
fn nonce_require_equal_ok() {
    let (sk, x, y) = gen_es256_key();
    let expected_nonce = "nonce-123";
    let jws = make_jws(
        &sk,
        ec_header("ES256", &x, &y),
        claims_with("n-reqeq-ok", now(), "GET", "https://ex.com/a", "nonce", "nonce-123"),
    );
    let mut store = MemoryStore::default();
    let opts = VerifyOptions {
        max_age_seconds: 300,
        future_skew_seconds: 5,
        nonce_mode: NonceMode::RequireEqual {
            expected_nonce: expected_nonce.to_string(),
        },
        client_binding: None,
    };
    let res = verify_proof(&mut store, &jws, "https://ex.com/a", "GET", None, opts);
    assert!(res.is_ok(), "{res:?}");
}

#[test]
fn nonce_require_equal_missing_claim() {
    let (sk, x, y) = gen_es256_key();
    let expected_nonce = "x";
    let jws = make_jws(
        &sk,
        ec_header("ES256", &x, &y),
        claims("n-reqeq-miss", now(), "GET", "https://ex.com/a"),
    );
    let mut store = MemoryStore::default();
    let opts = VerifyOptions {
        max_age_seconds: 300,
        future_skew_seconds: 5,
        nonce_mode: NonceMode::RequireEqual {
            expected_nonce: expected_nonce.to_string(),
        },
        client_binding: None,
    };
    let err = verify_proof(&mut store, &jws, "https://ex.com/a", "GET", None, opts).unwrap_err();
    assert!(matches!(err, DpopError::MissingNonce), "{err:?}");
}

#[test]
fn nonce_require_equal_mismatch_yields_usedpopnonce() {
    let (sk, x, y) = gen_es256_key();
    let expected_nonce = "server-expected";
    let jws = make_jws(
        &sk,
        ec_header("ES256", &x, &y),
        claims_with("n-reqeq-mis", now(), "GET", "https://ex.com/a", "nonce", "client-value"),
    );
    let mut store = MemoryStore::default();
    let opts = VerifyOptions {
        max_age_seconds: 300,
        future_skew_seconds: 5,
        nonce_mode: NonceMode::RequireEqual {
            expected_nonce: expected_nonce.to_string(),
        },
        client_binding: None,
    };
    let err = verify_proof(&mut store, &jws, "https://ex.com/a", "GET", None, opts).unwrap_err();
    // Server should respond with UseDpopNonce carrying a fresh/expected nonce
    if let DpopError::UseDpopNonce { nonce } = err {
        assert_eq!(nonce, expected_nonce);
    } else {
        panic!("expected UseDpopNonce, got {err:?}");
    }
}

#[test]
fn nonce_hmac_ok_bound_all() {
    let (sk, x, y) = gen_es256_key();
    let now = now();
    let expected_htu = "https://ex.com/a";
    let expected_htm = "GET";
    let jkt = thumbprint_ec_p256(&x, &y).unwrap();
    let secret = b"supersecret".to_vec().into_secret_box();
    let ctx = NonceCtx {
        htu: Some(expected_htu),
        htm: Some(expected_htm),
        jkt: Some(&jkt),
        client: None,
    };
    let nonce = issue_nonce(&secret, now, &ctx).expect("issue_nonce");
    let jws = make_jws(
        &sk,
        ec_header("ES256", &x, &y),
        claims_with("n-hmac-ok", now, expected_htm, expected_htu, "nonce", &nonce),
    );
    let mut store = MemoryStore::default();
    let res = verify_proof(
        &mut store,
        &jws,
        expected_htu,
        expected_htm,
        None,
        hmac_options(&secret, false, None),
    );
    assert!(res.is_ok(), "{res:?}");
}

#[test]
fn nonce_hmac_missing_claim_prompts_use_dpop_nonce() {
    let secret = b"supersecret".to_vec().into_secret_box();
    let (sk, x, y) = gen_es256_key();
    let jws = make_jws(
        &sk,
        ec_header("ES256", &x, &y),
        claims("n-hmac-miss", now(), "GET", "https://ex.com/a"),
    );
    let mut store = MemoryStore::default();
    let err = verify_proof(
        &mut store,
        &jws,
        "https://ex.com/a",
        "GET",
        None,
        hmac_options(&secret, false, None),
    )
    .unwrap_err();
    assert!(matches!(err, DpopError::UseDpopNonce { .. }), "{err:?}");
}

#[test]
fn nonce_hmac_wrong_htu_prompts_use_dpop_nonce() {
    // Bind nonce to a different HTU to force mismatch
    let (sk, x, y) = gen_es256_key();
    let now = now();
    let expected_htu = "https://ex.com/correct";
    let expected_htm = "GET";
    let jkt = thumbprint_ec_p256(&x, &y).unwrap();
    let secret = b"k".to_vec().into_secret_box();
    let ctx = NonceCtx {
        htu: Some("https://ex.com/wrong"),
        htm: Some(expected_htm),
        jkt: Some(&jkt),
        client: None,
    };
    let nonce = issue_nonce(&secret, now, &ctx).expect("issue_nonce");
    let jws = make_jws(
        &sk,
        ec_header("ES256", &x, &y),
        claims_with("n-hmac-htu-mis", now, expected_htm, expected_htu, "nonce", &nonce),
    );
    let mut store = MemoryStore::default();
    let err = verify_proof(
        &mut store,
        &jws,
        expected_htu,
        expected_htm,
        None,
        hmac_options(&secret, false, None),
    )
    .unwrap_err();
    assert!(matches!(err, DpopError::UseDpopNonce { .. }), "{err:?}");
}

#[test]
fn nonce_hmac_wrong_jkt_prompts_use_dpop_nonce() {
    // Mint the nonce with the thumbprint of key A, but sign the proof with key B
    let (_sk_a, x_a, y_a) = gen_es256_key();
    let (sk, x, y) = gen_es256_key();
    let now = now();
    let expected_htu = "https://ex.com/a";
    let expected_htm = "GET";
    let jkt_a = thumbprint_ec_p256(&x_a, &y_a).unwrap();
    let secret = b"secret-2".to_vec().into_secret_box();
    let ctx = NonceCtx {
        htu: Some(expected_htu),
        htm: Some(expected_htm),
        jkt: Some(&jkt_a),
        client: None,
    };
    let nonce = issue_nonce(&secret, now, &ctx).expect("issue_nonce");
    let jws = make_jws(
        &sk,
        ec_header("ES256", &x, &y),
        claims_with("n-hmac-jkt-mis", now, expected_htm, expected_htu, "nonce", &nonce),
    );
    let mut store = MemoryStore::default();
    let err = verify_proof(
        &mut store,
        &jws,
        expected_htu,
        expected_htm,
        None,
        hmac_options(&secret, false, None),
    )
    .unwrap_err();
    assert!(matches!(err, DpopError::UseDpopNonce { .. }), "{err:?}");
}

#[test]
fn nonce_hmac_stale_prompts_use_dpop_nonce() {
    let (sk, x, y) = gen_es256_key();
    let now = now();
    let expected_htu = "https://ex.com/a";
    let expected_htm = "GET";
    let jkt = thumbprint_ec_p256(&x, &y).unwrap();
    let secret = b"secret-3".to_vec().into_secret_box();
    let ctx = NonceCtx {
        htu: Some(expected_htu),
        htm: Some(expected_htm),
        jkt: Some(&jkt),
        client: None,
    };
    let nonce = issue_nonce(&secret, now - 400, &ctx).expect("issue_nonce");
    let jws = make_jws(
        &sk,
        ec_header("ES256", &x, &y),
        claims_with("n-hmac-stale", now, expected_htm, expected_htu, "nonce", &nonce),
    );
    let mut store = MemoryStore::default();
    let err = verify_proof(
        &mut store,
        &jws,
        expected_htu,
        expected_htm,
        None,
        hmac_options(&secret, false, None),
    )
    .unwrap_err();
    assert!(matches!(err, DpopError::UseDpopNonce { .. }), "{err:?}");
}

#[test]
fn nonce_hmac_future_skew_prompts_use_dpop_nonce() {
    // Issue with a time in the future beyond the tolerance of 5 s
    let (sk, x, y) = gen_es256_key();
    let now = now();
    let expected_htu = "https://ex.com/a";
    let expected_htm = "GET";
    let jkt = thumbprint_ec_p256(&x, &y).unwrap();
    let secret = b"secret-4".to_vec().into_secret_box();
    let ctx = NonceCtx {
        htu: Some(expected_htu),
        htm: Some(expected_htm),
        jkt: Some(&jkt),
        client: None,
    };
    let nonce = issue_nonce(&secret, now + 10, &ctx).expect("issue_nonce");
    let jws = make_jws(
        &sk,
        ec_header("ES256", &x, &y),
        claims_with("n-hmac-future", now, expected_htm, expected_htu, "nonce", &nonce),
    );
    let mut store = MemoryStore::default();
    let err = verify_proof(
        &mut store,
        &jws,
        expected_htu,
        expected_htm,
        None,
        hmac_options(&secret, false, None),
    )
    .unwrap_err();
    assert!(matches!(err, DpopError::UseDpopNonce { .. }), "{err:?}");
}

#[test]
fn nonce_hmac_client_binding_ok() {
    let (sk, x, y) = gen_es256_key();
    let now = now();
    let expected_htu = "https://ex.com/a";
    let expected_htm = "GET";
    let jkt = thumbprint_ec_p256(&x, &y).unwrap();
    let client_id = "client-123";
    let secret = b"secret-client".to_vec().into_secret_box();
    let ctx = NonceCtx {
        htu: Some(expected_htu),
        htm: Some(expected_htm),
        jkt: Some(&jkt),
        client: Some(client_id),
    };
    let nonce = issue_nonce(&secret, now, &ctx).expect("issue_nonce");
    let jws = make_jws(
        &sk,
        ec_header("ES256", &x, &y),
        claims_with("n-hmac-client-ok", now, expected_htm, expected_htu, "nonce", &nonce),
    );
    let mut store = MemoryStore::default();
    let res = verify_proof(
        &mut store,
        &jws,
        expected_htu,
        expected_htm,
        None,
        hmac_options(&secret, true, Some(ClientBinding::new(client_id))),
    );
    assert!(res.is_ok(), "{res:?}");
}

#[test]
fn nonce_hmac_client_binding_mismatch_prompts_use_dpop_nonce() {
    let (sk, x, y) = gen_es256_key();
    let now = now();
    let expected_htu = "https://ex.com/a";
    let expected_htm = "GET";
    let jkt = thumbprint_ec_p256(&x, &y).unwrap();
    let issue_client_id = "client-issuer";
    let verify_client_id = "client-verifier";
    let secret = b"secret-client-mismatch".to_vec().into_secret_box();
    let ctx = NonceCtx {
        htu: Some(expected_htu),
        htm: Some(expected_htm),
        jkt: Some(&jkt),
        client: Some(issue_client_id),
    };
    let nonce = issue_nonce(&secret, now, &ctx).expect("issue_nonce");
    let jws = make_jws(
        &sk,
        ec_header("ES256", &x, &y),
        claims_with("n-hmac-client-mismatch", now, expected_htm, expected_htu, "nonce", &nonce),
    );
    let mut store = MemoryStore::default();
    let opts = hmac_options(&secret, true, Some(ClientBinding::new(verify_client_id)));
    let err = verify_proof(&mut store, &jws, expected_htu, expected_htm, None, opts).unwrap_err();
    if let DpopError::UseDpopNonce { nonce: new_nonce } = err {
        // Response nonce should be bound to the verifier's client binding
        let retry_ctx = NonceCtx {
            client: Some(verify_client_id),
            ..ctx
        };
        assert!(
            verify_nonce(&secret, &new_nonce, now, 300, &retry_ctx).is_ok(),
            "returned nonce should bind to verifier client id"
        );
    } else {
        panic!("expected UseDpopNonce, got {err:?}");
    }
}

#[test]
fn nonce_hmac_constructor_with_non_boxed_types() {
    let (sk, x, y) = gen_es256_key();
    let now = now();
    let expected_htu = "https://ex.com/a";
    let expected_htm = "GET";
    let jkt = thumbprint_ec_p256(&x, &y).unwrap();

    // Test with byte array (b"..." syntax)
    let secret_bytes = b"test-secret-bytes";
    let ctx = NonceCtx {
        htu: Some(expected_htu),
        htm: Some(expected_htm),
        jkt: Some(&jkt),
        client: None,
    };
    let nonce = issue_nonce(secret_bytes, now, &ctx).expect("issue_nonce");
    let jws = make_jws(
        &sk,
        ec_header("ES256", &x, &y),
        claims_with("n-hmac-constructor-test", now, expected_htm, expected_htu, "nonce", &nonce),
    );
    let mut store = MemoryStore::default();
    let opts = hmac_options(secret_bytes, false, None);
    assert!(verify_proof(&mut store, &jws, expected_htu, expected_htm, None, opts).is_ok());

    // Test with Vec<u8>
    let secret_vec = b"test-secret-vec".to_vec();
    let nonce2 = issue_nonce(&secret_vec, now, &ctx).expect("issue_nonce");
    let jws2 = make_jws(
        &sk,
        ec_header("ES256", &x, &y),
        claims_with("n-hmac-constructor-test-2", now, expected_htm, expected_htu, "nonce", &nonce2),
    );
    let mut store2 = MemoryStore::default();
    let opts2 = hmac_options(&secret_vec, false, None);
    assert!(verify_proof(&mut store2, &jws2, expected_htu, expected_htm, None, opts2).is_ok());
}

fn gen_ed25519() -> (ed25519_dalek::SigningKey, String) {
    let sk = ed25519_dalek::SigningKey::generate(&mut OsRng);
    let x_b64 = B64.encode(sk.verifying_key().as_bytes()); // 32-byte public key
    (sk, x_b64)
}

fn make_jws_ed(sk: &ed25519_dalek::SigningKey, header: String, claims: String) -> String {
    let h_b64 = B64.encode(header);
    let p_b64 = B64.encode(claims);
    let signing_input = format!("{h_b64}.{p_b64}");
    let sig: ed25519_dalek::Signature = sk.sign(signing_input.as_bytes());
    let s_b64 = B64.encode(sig.to_bytes());
    format!("{h_b64}.{p_b64}.{s_b64}")
}

fn okp_header(x: &str) -> String {
    format!(
        r#"{{"alg":"EdDSA","jwk":{{"crv":"Ed25519","kty":"OKP","x":"{x}"}},"typ":"dpop+jwt"}}"#
    )
}

#[test]
fn verify_valid_eddsa_proof() {
    let (sk, x) = gen_ed25519();
    let jws = make_jws_ed(
        &sk,
        okp_header(&x),
        claims("ed-ok", now(), "GET", "https://ex.com/a"),
    );
    let mut store = MemoryStore::default();
    let res = verify_proof(
        &mut store,
        &jws,
        "https://ex.com/a",
        "GET",
        None,
        VerifyOptions::default(),
    );
    assert!(res.is_ok(), "{res:?}");
}

#[test]
fn eddsa_wrong_jwk_type_rejected() {
    let (sk, x) = gen_ed25519();
    // bad: kty/crv don't match EdDSA expectations
    let jws = make_jws_ed(
        &sk,
        ec_header("EdDSA", &x, &x),
        claims("ed-badjwk", now(), "GET", "https://ex.com/a"),
    );
    let mut store = MemoryStore::default();
    let err = verify_proof(
        &mut store,
        &jws,
        "https://ex.com/a",
        "GET",
        None,
        VerifyOptions::default(),
    )
    .unwrap_err();
    assert!(matches!(err, DpopError::BadJwk(_)), "{err:?}");
}

#[test]
fn eddsa_signature_tamper_detected() {
    let (sk, x) = gen_ed25519();
    let jws = make_jws_ed(
        &sk,
        okp_header(&x),
        claims("ed-tamper", now(), "GET", "https://ex.com/a"),
    );
    // flip a byte in the header part (remain base64url-ish length)
    let mut bytes = jws.into_bytes();
    bytes[10] ^= 1;
    let jws = String::from_utf8(bytes).unwrap();
    let mut store = MemoryStore::default();
    let err = verify_proof(
        &mut store,
        &jws,
        "https://ex.com/a",
        "GET",
        None,
        VerifyOptions::default(),
    )
    .unwrap_err();
    assert!(
        matches!(err, DpopError::InvalidSignature | DpopError::MalformedJws),
        "{err:?}"
    );
}

#[test]
fn eddsa_payload_tamper_is_an_invalid_signature() {
    let (sk, x) = gen_ed25519();
    let jws = make_jws_ed(
        &sk,
        okp_header(&x),
        claims("ed-tamper-2", now(), "GET", "https://ex.com/a"),
    );
    let other = claims("ed-tamper-3", now(), "GET", "https://ex.com/a");
    let parts: Vec<&str> = jws.split('.').collect();
    let jws = format!("{}.{}.{}", parts[0], B64.encode(other), parts[2]);
    let mut store = MemoryStore::default();
    let err = verify_proof(
        &mut store,
        &jws,
        "https://ex.com/a",
        "GET",
        None,
        VerifyOptions::default(),
    )
    .unwrap_err();
    assert!(matches!(err, DpopError::InvalidSignature), "{err:?}");
}
