use ed25519_dalek::{Signer, SigningKey};
use interaction_webhook::auth::VerifyKey;
use interaction_webhook::dispatch::CommandRegistry;
use interaction_webhook::handler::{handle_request, HeaderInput, RequestError};

fn to_hex(bytes: &[u8]) -> String {
    let mut s = String::new();
    for b in bytes {
        s.push_str(&format!("{:02x}", b));
    }
    s
}

fn setup() -> (SigningKey, VerifyKey, CommandRegistry) {
    let sk = SigningKey::from_bytes(&[42; 32]);
    let vk = VerifyKey::from_bytes(sk.verifying_key().to_bytes().to_vec()).unwrap();
    let mut reg = CommandRegistry::new();
    reg.add_command(b"city".to_vec(), vec![b"Nairobi".to_vec(), b"Oslo".to_vec()]);
    (sk, vk, reg)
}

fn signed_headers(sk: &SigningKey, ts: &str, body: &[u8]) -> (HeaderInput, HeaderInput) {
    let msg = [ts.as_bytes(), body].concat();
    let sig = to_hex(&sk.sign(&msg).to_bytes());
    (HeaderInput::Text(sig), HeaderInput::Text(ts.to_string()))
}

#[test]
fn signed_ping_yields_pong_wire() {
    let (sk, vk, reg) = setup();
    let body = b"{\"type\":1}";
    let (sig, ts) = signed_headers(&sk, "1700000000", body);
    let out = handle_request(&vk, &sig, &ts, body, &reg).unwrap();
    assert_eq!(out, b"{\"type\":1}".to_vec());
}

#[test]
fn flipped_signature_byte_is_unauthorized() {
    let (sk, vk, reg) = setup();
    let body = b"{\"type\":1}";
    let ts = "1700000000";
    let msg = [ts.as_bytes(), &body[..]].concat();
    let mut sig = sk.sign(&msg).to_bytes();
    sig[63] ^= 0x01;
    let r = handle_request(
        &vk,
        &HeaderInput::Text(to_hex(&sig)),
        &HeaderInput::Text(ts.to_string()),
        body,
        &reg,
    );
    assert_eq!(r, Err(RequestError::InvalidSignature));
    assert_eq!(r.unwrap_err().status(), 401);
}

#[test]
fn signed_unused_discriminant_is_bad_request() {
    let (sk, vk, reg) = setup();
    let body = b"{\"type\":3}";
    let (sig, ts) = signed_headers(&sk, "1700000000", body);
    let r = handle_request(&vk, &sig, &ts, body, &reg);
    assert_eq!(r, Err(RequestError::UnrecognizedEnvelope));
    assert_eq!(r.unwrap_err().status(), 400);
}

#[test]
fn signed_command_yields_channel_message() {
    let (sk, vk, reg) = setup();
    let body = b"{\"type\":2,\"data\":{\"name\":\"city\"}}";
    let (sig, ts) = signed_headers(&sk, "1700000001", body);
    let out = handle_request(&vk, &sig, &ts, body, &reg).unwrap();
    assert!(
        out == b"{\"type\":4,\"data\":{\"content\":\"Nairobi\"}}".to_vec()
            || out == b"{\"type\":4,\"data\":{\"content\":\"Oslo\"}}".to_vec(),
        "unexpected wire bytes {:?}",
        String::from_utf8_lossy(&out)
    );
}

#[test]
fn unknown_command_is_bad_request() {
    let (sk, vk, reg) = setup();
    let body = b"{\"type\":2,\"data\":{\"name\":\"doesnotexist\"}}";
    let (sig, ts) = signed_headers(&sk, "1700000000", body);
    let r = handle_request(&vk, &sig, &ts, body, &reg);
    assert_eq!(r, Err(RequestError::UnknownCommand));
    let e = r.unwrap_err();
    assert_eq!(e.status(), 400);
    assert_eq!(e.message(), "unknown command");
}

#[test]
fn missing_headers_are_bad_requests() {
    let (sk, vk, reg) = setup();
    let body = b"{\"type\":1}";
    let (sig, ts) = signed_headers(&sk, "1700000000", body);
    let r = handle_request(&vk, &HeaderInput::Missing, &ts, body, &reg);
    assert_eq!(r, Err(RequestError::MissingSignature));
    assert_eq!(r.unwrap_err().status(), 400);
    let r = handle_request(&vk, &sig, &HeaderInput::Missing, body, &reg);
    assert_eq!(r, Err(RequestError::MissingTimestamp));
    let r = handle_request(&vk, &HeaderInput::NotText, &ts, body, &reg);
    assert_eq!(r, Err(RequestError::SignatureNotText));
    let r = handle_request(&vk, &sig, &HeaderInput::NotText, body, &reg);
    assert_eq!(r, Err(RequestError::TimestampNotText));
    // the signature header is examined first
    let r = handle_request(&vk, &HeaderInput::Missing, &HeaderInput::Missing, body, &reg);
    assert_eq!(r, Err(RequestError::MissingSignature));
}

#[test]
fn malformed_signature_hex_is_bad_request() {
    let (_, vk, reg) = setup();
    let body = b"{\"type\":1}";
    let r = handle_request(
        &vk,
        &HeaderInput::Text("abc".to_string()),
        &HeaderInput::Text("1700000000".to_string()),
        body,
        &reg,
    );
    assert_eq!(r, Err(RequestError::MalformedSignature));
    assert_eq!(r.unwrap_err().status(), 400);
}

#[test]
fn verification_covers_timestamp_and_body_together() {
    // a signature over one timestamp does not authorize another
    let (sk, vk, reg) = setup();
    let body = b"{\"type\":1}";
    let (sig, _) = signed_headers(&sk, "1700000000", body);
    let r = handle_request(
        &vk,
        &sig,
        &HeaderInput::Text("1700000009".to_string()),
        body,
        &reg,
    );
    assert_eq!(r, Err(RequestError::InvalidSignature));
}
