use interaction_webhook::encode::{encode, InteractionResponse};
use interaction_webhook::envelope::{decode, DecodeError, Interaction};

#[test]
fn decode_ping() {
    assert_eq!(decode(b"{\"type\":1}"), Ok(Interaction::Ping));
}

#[test]
fn decode_ping_with_whitespace() {
    assert_eq!(decode(b"  {\n\t\"type\" : 1 ,\r\n \"id\": \"77\" }  "), Ok(Interaction::Ping));
}

#[test]
fn decode_command() {
    let r = decode(b"{\"type\":2,\"data\":{\"name\":\"city\"}}");
    assert_eq!(r, Ok(Interaction::ApplicationCommand { name: b"city".to_vec() }));
}

#[test]
fn decode_command_extra_fields() {
    let body = b"{\"id\":\"123\",\"type\":2,\"token\":\"t\",\"data\":{\"id\":9,\"name\":\"state\",\"options\":[{\"x\":null}]},\"member\":{\"nick\":\"n\"}}";
    assert_eq!(decode(body), Ok(Interaction::ApplicationCommand { name: b"state".to_vec() }));
}

#[test]
fn decode_unused_discriminant_fails() {
    assert_eq!(decode(b"{\"type\":3}"), Err(DecodeError::UnrecognizedEnvelope));
    assert_eq!(decode(b"{\"type\":0}"), Err(DecodeError::UnrecognizedEnvelope));
    assert_eq!(decode(b"{\"type\":4}"), Err(DecodeError::UnrecognizedEnvelope));
}

#[test]
fn decode_wrong_tag_with_valid_fields_fails() {
    // every field a command needs, but the wrong discriminant
    assert_eq!(
        decode(b"{\"type\":3,\"data\":{\"name\":\"city\"}}"),
        Err(DecodeError::UnrecognizedEnvelope)
    );
}

#[test]
fn decode_command_without_name_fails() {
    assert_eq!(decode(b"{\"type\":2}"), Err(DecodeError::UnrecognizedEnvelope));
    assert_eq!(decode(b"{\"type\":2,\"data\":{}}"), Err(DecodeError::UnrecognizedEnvelope));
    assert_eq!(decode(b"{\"type\":2,\"data\":{\"name\":5}}"), Err(DecodeError::UnrecognizedEnvelope));
    assert_eq!(decode(b"{\"type\":2,\"data\":7}"), Err(DecodeError::UnrecognizedEnvelope));
}

#[test]
fn decode_missing_or_odd_tag_fails() {
    assert_eq!(decode(b"{}"), Err(DecodeError::UnrecognizedEnvelope));
    assert_eq!(decode(b"{\"data\":{\"name\":\"city\"}}"), Err(DecodeError::UnrecognizedEnvelope));
    assert_eq!(decode(b"{\"type\":\"1\"}"), Err(DecodeError::UnrecognizedEnvelope));
    assert_eq!(decode(b"{\"type\":1.0}"), Err(DecodeError::UnrecognizedEnvelope));
    assert_eq!(decode(b"{\"type\":-1}"), Err(DecodeError::UnrecognizedEnvelope));
    assert_eq!(decode(b"{\"type\":1e0}"), Err(DecodeError::UnrecognizedEnvelope));
}

#[test]
fn decode_duplicate_type_fails() {
    assert_eq!(decode(b"{\"type\":9,\"type\":1}"), Err(DecodeError::UnrecognizedEnvelope));
    assert_eq!(decode(b"{\"type\":1,\"type\":1}"), Err(DecodeError::UnrecognizedEnvelope));
}

#[test]
fn decode_malformed_json_fails() {
    for body in [
        &b""[..],
        b"5",
        b"\"x\"",
        b"[1]",
        b"{\"type\":1",
        b"{\"type\":1}}",
        b"{\"type\":1} x",
        b"{'type':1}",
        b"{\"type\":01}",
        b"{\"type\":1,}",
    ] {
        assert_eq!(decode(body), Err(DecodeError::UnrecognizedEnvelope), "body {:?}", body);
    }
}

#[test]
fn decode_string_escapes_in_name() {
    let r = decode(b"{\"type\":2,\"data\":{\"name\":\"a\\\\b\\\"c\\n\"}}");
    assert_eq!(r, Ok(Interaction::ApplicationCommand { name: b"a\\b\"c\n".to_vec() }));
}

#[test]
fn decode_unicode_escapes() {
    let r = decode(b"{\"type\":2,\"data\":{\"name\":\"\\u0063ity\"}}");
    assert_eq!(r, Ok(Interaction::ApplicationCommand { name: b"city".to_vec() }));
    // two-byte, three-byte and surrogate-pair code points
    let r = decode(b"{\"type\":2,\"data\":{\"name\":\"\\u00e9\\u20ac\\ud83d\\ude00\"}}");
    let expected = "\u{e9}\u{20ac}\u{1f600}".as_bytes().to_vec();
    assert_eq!(r, Ok(Interaction::ApplicationCommand { name: expected }));
}

#[test]
fn decode_lone_surrogate_fails() {
    assert_eq!(
        decode(b"{\"type\":2,\"data\":{\"name\":\"\\ud800\"}}"),
        Err(DecodeError::UnrecognizedEnvelope)
    );
    assert_eq!(
        decode(b"{\"type\":2,\"data\":{\"name\":\"\\ude00x\"}}"),
        Err(DecodeError::UnrecognizedEnvelope)
    );
    assert_eq!(
        decode(b"{\"type\":2,\"data\":{\"name\":\"\\uzzzz\"}}"),
        Err(DecodeError::UnrecognizedEnvelope)
    );
}

#[test]
fn decode_unicode_escape_agrees_with_reference_parser() {
    let body = b"{\"type\":2,\"data\":{\"name\":\"\\u0441\\u0442\\ud83c\\udf0d\"}}";
    let v: serde_json::Value = serde_json::from_slice(body).unwrap();
    let reference = v["data"]["name"].as_str().unwrap().as_bytes().to_vec();
    assert_eq!(
        decode(body),
        Ok(Interaction::ApplicationCommand { name: reference })
    );
}

#[test]
fn decode_agrees_with_reference_parser_on_samples() {
    // the bodies our grammar accepts parse as JSON for serde_json too, with
    // the same type field
    for body in [
        &b"{\"type\":1}"[..],
        b"{\"type\":2,\"data\":{\"name\":\"city\"}}",
        b" { \"type\" : 1 } ",
    ] {
        let v: serde_json::Value = serde_json::from_slice(body).unwrap();
        let t = v.get("type").and_then(|x| x.as_u64()).unwrap();
        match decode(body).unwrap() {
            Interaction::Ping => assert_eq!(t, 1),
            Interaction::ApplicationCommand { .. } => assert_eq!(t, 2),
        }
    }
}

#[test]
fn encode_pong_exact() {
    assert_eq!(encode(&InteractionResponse::Pong), b"{\"type\":1}".to_vec());
}

#[test]
fn encode_channel_message_exact() {
    let r = InteractionResponse::ChannelMessageWithSource { content: b"hello".to_vec() };
    assert_eq!(encode(&r), b"{\"type\":4,\"data\":{\"content\":\"hello\"}}".to_vec());
}

#[test]
fn encode_escapes_content() {
    let r = InteractionResponse::ChannelMessageWithSource { content: b"a\"b\\c\nd\te\x01".to_vec() };
    assert_eq!(
        encode(&r),
        b"{\"type\":4,\"data\":{\"content\":\"a\\\"b\\\\c\\nd\\te\\u0001\"}}".to_vec()
    );
}

#[test]
fn encode_output_is_valid_json_with_fixed_tags() {
    let pong = encode(&InteractionResponse::Pong);
    let v: serde_json::Value = serde_json::from_slice(&pong).unwrap();
    assert_eq!(v.get("type").and_then(|x| x.as_u64()), Some(1));

    let msg = InteractionResponse::ChannelMessageWithSource {
        content: b"Salt Lake City\" \\ \x07".to_vec(),
    };
    let out = encode(&msg);
    let v: serde_json::Value = serde_json::from_slice(&out).unwrap();
    assert_eq!(v.get("type").and_then(|x| x.as_u64()), Some(4));
    assert_eq!(
        v.get("data").and_then(|d| d.get("content")).and_then(|c| c.as_str()),
        Some("Salt Lake City\" \\ \u{7}")
    );
}
