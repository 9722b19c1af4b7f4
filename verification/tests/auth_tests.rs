use ed25519_dalek::{Signer, SigningKey};
use interaction_webhook::auth::{AuthError, VerifyKey};
use interaction_webhook::verify_discord_message;

fn to_hex(bytes: &[u8]) -> String {
    let mut s = String::new();
    for b in bytes {
        s.push_str(&format!("{:02x}", b));
    }
    s
}

fn key_pair(seed: u8) -> (SigningKey, VerifyKey) {
    let sk = SigningKey::from_bytes(&[seed; 32]);
    let vk = VerifyKey::from_bytes(sk.verifying_key().to_bytes().to_vec()).unwrap();
    (sk, vk)
}

fn sign_hex(sk: &SigningKey, ts: &str, body: &[u8]) -> String {
    let msg = [ts.as_bytes(), body].concat();
    to_hex(&sk.sign(&msg).to_bytes())
}

#[test]
fn good_signature_verifies() {
    let (sk, vk) = key_pair(7);
    let ts = "1700000000";
    let body = b"{\"type\":1}";
    let sig = sign_hex(&sk, ts, body);
    assert_eq!(verify_discord_message(&vk, &sig, ts, body), Ok(()));
}

#[test]
fn malformed_hex_is_malformed_signature() {
    let (_, vk) = key_pair(7);
    assert_eq!(
        verify_discord_message(&vk, "zz", "1", b"x"),
        Err(AuthError::MalformedSignature)
    );
    let short = "ab".repeat(63);
    assert_eq!(
        verify_discord_message(&vk, &short, "1", b"x"),
        Err(AuthError::MalformedSignature)
    );
    let bad = format!("{}g{}", "a".repeat(64), "a".repeat(63));
    assert!(matches!(
        verify_discord_message(&vk, &bad, "1", b"x"),
        Err(AuthError::MalformedSignature)
    ));
}

#[test]
fn any_flipped_signature_bit_fails() {
    let (sk, vk) = key_pair(9);
    let ts = "1700000000";
    let body = b"{\"type\":1}";
    let msg = [ts.as_bytes(), body].concat();
    let sig = sk.sign(&msg).to_bytes();
    for byte in 0..64 {
        for bit in 0..8 {
            let mut flipped = sig;
            flipped[byte] ^= 1 << bit;
            let hex = to_hex(&flipped);
            assert_eq!(
                verify_discord_message(&vk, &hex, ts, body),
                Err(AuthError::InvalidSignature),
                "byte {} bit {}",
                byte,
                bit
            );
        }
    }
}

#[test]
fn flipped_timestamp_or_body_fails() {
    let (sk, vk) = key_pair(3);
    let ts = "1700000000";
    let body = b"{\"type\":1}";
    let sig = sign_hex(&sk, ts, body);
    assert_eq!(
        verify_discord_message(&vk, &sig, "1700000001", body),
        Err(AuthError::InvalidSignature)
    );
    assert_eq!(
        verify_discord_message(&vk, &sig, ts, b"{\"type\":2}"),
        Err(AuthError::InvalidSignature)
    );
}

#[test]
fn wrong_key_fails() {
    let (sk, _) = key_pair(5);
    let (_, other_vk) = key_pair(6);
    let ts = "1700000000";
    let body = b"{\"type\":1}";
    let sig = sign_hex(&sk, ts, body);
    assert_eq!(
        verify_discord_message(&other_vk, &sig, ts, body),
        Err(AuthError::InvalidSignature)
    );
}

#[test]
fn timestamp_and_body_concatenation_is_exact() {
    // moving a byte between timestamp and body leaves the signed message
    // identical, so verification still succeeds
    let (sk, vk) = key_pair(11);
    let sig = sign_hex(&sk, "123", b"456");
    assert_eq!(verify_discord_message(&vk, &sig, "1234", b"56"), Ok(()));
    assert_eq!(verify_discord_message(&vk, &sig, "12", b"3456"), Ok(()));
}

#[test]
fn key_from_hex_and_bytes() {
    let (sk, _) = key_pair(13);
    let bytes = sk.verifying_key().to_bytes();
    let k = VerifyKey::from_hex(&to_hex(&bytes)).unwrap();
    let sig = sign_hex(&sk, "1", b"x");
    assert_eq!(verify_discord_message(&k, &sig, "1", b"x"), Ok(()));
    assert!(VerifyKey::from_hex("00ff").is_none());
    assert!(VerifyKey::from_hex(&"g".repeat(64)).is_none());
    assert!(VerifyKey::from_bytes(vec![0; 31]).is_none());
}
