use aes::cipher::BlockEncryptMut;
use aes::cipher::KeyInit;
use aes::cipher::block_padding::Pkcs7;
use base64::Engine;
use base64::prelude::BASE64_STANDARD;
use hollow_knight_save_converter::CodecError;
use hollow_knight_save_converter::add_framing;
use hollow_knight_save_converter::decode;
use hollow_knight_save_converter::encode;

const BASE64_ALPHABET: &[u8] =
    b"ABCDEFGHIJKLMNOPQRSTUVWXYZabcdefghijklmnopqrstuvwxyz0123456789+/=";

fn sample_json() -> Vec<u8> {
    let mut obj = serde_json::Map::new();
    obj.insert("health".to_string(), serde_json::Value::from(9u64));
    obj.insert("scene".to_string(), serde_json::Value::from("Town"));
    obj.insert("hardMode".to_string(), serde_json::Value::Bool(false));
    serde_json::to_string(&obj).unwrap().into_bytes()
}

/// The container a real game client would produce for `plaintext`, built with
/// the cipher crates directly: padded, encrypted, base64-encoded, framed.
fn container_of_plaintext(plaintext: &[u8]) -> Vec<u8> {
    let mut buf = plaintext.to_vec();
    buf.resize(plaintext.len() + 16, 0);
    let ct = ecb::Encryptor::<aes::Aes256>::new(b"UKu52ePUBwetZ9wNX88o54dnfKRu0T1l".into())
        .encrypt_padded_mut::<Pkcs7>(&mut buf, plaintext.len())
        .unwrap()
        .to_vec();
    add_framing(BASE64_STANDARD.encode(ct).into_bytes())
}

#[test]
fn round_trip_preserves_the_object() {
    let json = sample_json();
    let container = encode(json.clone()).unwrap();
    let decoded = decode(&container).unwrap();
    let expected: serde_json::Map<String, serde_json::Value> =
        serde_json::from_slice(&json).unwrap();
    assert_eq!(decoded, expected);
}

#[test]
fn byte_exact_reencode_of_own_container() {
    let container = encode(sample_json()).unwrap();
    let decoded = decode(&container).unwrap();
    let reencoded = encode(serde_json::to_string(&decoded).unwrap().into_bytes()).unwrap();
    assert_eq!(reencoded, container);
}

#[test]
fn encoding_is_deterministic() {
    let json = sample_json();
    assert_eq!(encode(json.clone()).unwrap(), encode(json).unwrap());
}

#[test]
fn encoding_ignores_whitespace_differences() {
    let spaced = b"{ \"a\" : 1 , \"b\" : [ true ] }".to_vec();
    let compact = b"{\"a\":1,\"b\":[true]}".to_vec();
    assert_eq!(encode(spaced).unwrap(), encode(compact).unwrap());
}

#[test]
fn decode_rejects_truncated_buffer() {
    assert_eq!(decode(&[0u8; 10]), Err(CodecError::Framing));
    assert_eq!(decode(&[]), Err(CodecError::Framing));
}

#[test]
fn decode_rejects_invalid_base64_payload() {
    let mut container = encode(sample_json()).unwrap();
    // payload of a one-block-or-more ciphertext starts at offset 23 and is at
    // least 24 base64 characters long
    container[30] = b'!';
    assert_eq!(decode(&container), Err(CodecError::Decoding));
}

#[test]
fn decode_rejects_unaligned_ciphertext() {
    let fifteen = BASE64_STANDARD.encode([0u8; 15]).into_bytes();
    let container = add_framing(fifteen);
    assert_eq!(decode(&container), Err(CodecError::Cipher));
}

#[test]
fn decode_rejects_non_object_plaintext() {
    let container = container_of_plaintext(b"[]");
    assert_eq!(decode(&container), Err(CodecError::JsonShape));
}

#[test]
fn decode_rejects_malformed_json_plaintext() {
    let container = container_of_plaintext(b"nope");
    assert_eq!(decode(&container), Err(CodecError::JsonSyntax));
}

#[test]
fn decode_accepts_externally_built_container() {
    let container = container_of_plaintext(b"{\"geo\":21}");
    let decoded = decode(&container).unwrap();
    let expected: serde_json::Map<String, serde_json::Value> =
        serde_json::from_slice(b"{\"geo\":21}").unwrap();
    assert_eq!(decoded, expected);
}

#[test]
fn encode_rejects_json_array() {
    assert_eq!(encode(b"[]".to_vec()), Err(CodecError::JsonShape));
}

#[test]
fn encode_rejects_json_scalar() {
    assert_eq!(encode(b"3".to_vec()), Err(CodecError::JsonShape));
}

#[test]
fn encode_rejects_malformed_json() {
    assert_eq!(encode(b"{".to_vec()), Err(CodecError::JsonSyntax));
    assert_eq!(encode(Vec::new()), Err(CodecError::JsonSyntax));
}

#[test]
fn payload_region_is_base64_text() {
    let container = encode(sample_json()).unwrap();
    let payload = &container[23..container.len() - 1];
    assert!(!payload.is_empty());
    for &b in payload {
        assert!(BASE64_ALPHABET.contains(&b));
    }
}
