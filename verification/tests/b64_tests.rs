use prost_helper::b64;
use prost_helper::DecodingError;
use serde_json::Value;

/// Builds the JSON text of a message with the five byte-bearing fields of
/// the reference shape, each run through the base64 flavor.
fn hello_json(
    msg: &str,
    value_vec: &[u8],
    list_vec: &[Vec<u8>],
    value_bytes: &[u8],
    list_bytes: &[Vec<u8>],
) -> String {
    let list_vec_tokens = b64::encode_sequence(&list_vec.to_vec());
    let list_bytes_tokens = b64::encode_sequence(&list_bytes.to_vec());
    let mut m = serde_json::Map::new();
    m.insert("msg".to_owned(), Value::String(msg.to_owned()));
    m.insert(
        "value_vec".to_owned(),
        Value::String(b64::encode_scalar(value_vec)),
    );
    m.insert(
        "list_vec".to_owned(),
        Value::Array(list_vec_tokens.into_iter().map(Value::String).collect()),
    );
    m.insert(
        "value_bytes".to_owned(),
        Value::String(b64::encode_scalar(value_bytes)),
    );
    m.insert(
        "list_bytes".to_owned(),
        Value::Array(list_bytes_tokens.into_iter().map(Value::String).collect()),
    );
    serde_json::to_string(&Value::Object(m)).unwrap()
}

/// Builds the JSON text of a tagged union whose active variant holds a
/// blob with the base64 flavor attached.
fn union_json(variant: &str, blob: &[u8]) -> String {
    let mut inner = serde_json::Map::new();
    inner.insert(variant.to_owned(), Value::String(b64::encode_scalar(blob)));
    let mut outer = serde_json::Map::new();
    outer.insert("data".to_owned(), Value::Object(inner));
    serde_json::to_string(&Value::Object(outer)).unwrap()
}

#[test]
fn vec_u8_encoded_with_base64() {
    let s = hello_json("world", b"world", &[], b"", &[]);
    assert_eq!(
        s,
        r#"{"msg":"world","value_vec":"d29ybGQ","list_vec":[],"value_bytes":"","list_bytes":[]}"#
    );
}

#[test]
fn vec_u8_in_enum_encoded_with_base64() {
    let s = union_json("Value", b"world");
    assert_eq!(s, r#"{"data":{"Value":"d29ybGQ"}}"#);
}

#[test]
fn repeat_vec_u8_encoded_with_base64() {
    let s = hello_json("world", b"", &[b"world".to_vec()], b"", &[]);
    assert_eq!(
        s,
        r#"{"msg":"world","value_vec":"","list_vec":["d29ybGQ"],"value_bytes":"","list_bytes":[]}"#
    );
}

#[test]
fn buf_bytes_encoded_with_base64() {
    let s = hello_json("world", b"", &[], b"world", &[]);
    assert_eq!(
        s,
        r#"{"msg":"world","value_vec":"","list_vec":[],"value_bytes":"d29ybGQ","list_bytes":[]}"#
    );
}

#[test]
fn repeat_bytes_encoded_with_base64() {
    let s = hello_json("world", b"", &[], b"", &[b"world".to_vec()]);
    assert_eq!(
        s,
        r#"{"msg":"world","value_vec":"","list_vec":[],"value_bytes":"","list_bytes":["d29ybGQ"]}"#
    );
}

#[test]
fn lib_bytes_encoded_with_base64() {
    let mut m = serde_json::Map::new();
    m.insert("msg".to_owned(), Value::String("world".to_owned()));
    m.insert("value".to_owned(), Value::String(b64::encode_scalar(b"world")));
    let s = serde_json::to_string(&Value::Object(m)).unwrap();
    assert_eq!(s, r#"{"msg":"world","value":"d29ybGQ"}"#);
}

#[test]
fn bytes_in_enum_encoded_with_base64() {
    let s = union_json("Value", b"world");
    assert_eq!(s, r#"{"data":{"Value":"d29ybGQ"}}"#);
}

#[test]
fn vec_bytes_encoded_with_base64() {
    let tokens = b64::encode_sequence(&vec![b"world".to_vec()]);
    let mut m = serde_json::Map::new();
    m.insert("msg".to_owned(), Value::String("world".to_owned()));
    m.insert(
        "value".to_owned(),
        Value::Array(tokens.into_iter().map(Value::String).collect()),
    );
    let s = serde_json::to_string(&Value::Object(m)).unwrap();
    assert_eq!(s, r#"{"msg":"world","value":["d29ybGQ"]}"#);
}

#[test]
fn scalar_encode_known_value() {
    assert_eq!(b64::encode_scalar(b"world"), "d29ybGQ");
    assert_eq!(b64::encode_scalar(b""), "");
    assert_eq!(b64::encode_scalar(b"i"), "aQ");
}

#[test]
fn scalar_decode_known_value() {
    assert_eq!(b64::decode_scalar("d29ybGQ").unwrap(), b"world".to_vec());
    assert_eq!(b64::decode_scalar("").unwrap(), Vec::<u8>::new());
    assert_eq!(b64::decode_scalar("aQ").unwrap(), vec![0x69u8]);
}

#[test]
fn scalar_round_trip_many_lengths() {
    for len in 0..40usize {
        let blob: Vec<u8> = (0..len).map(|i| (i * 37 + 11) as u8).collect();
        let token = b64::encode_scalar(&blob);
        assert_eq!(b64::decode_scalar(&token).unwrap(), blob);
    }
}

#[test]
fn decode_rejects_padding_and_standard_alphabet() {
    assert_eq!(
        b64::decode_scalar("d29ybGQ="),
        Err(DecodingError::InvalidBase64)
    );
    assert_eq!(b64::decode_scalar("a+bc"), Err(DecodingError::InvalidBase64));
    assert_eq!(b64::decode_scalar("a/bc"), Err(DecodingError::InvalidBase64));
    assert_eq!(b64::decode_scalar("="), Err(DecodingError::InvalidBase64));
}

#[test]
fn decode_rejects_bad_shapes() {
    // a length 1 more than a multiple of 4
    assert_eq!(b64::decode_scalar("abcde"), Err(DecodingError::InvalidBase64));
    assert_eq!(b64::decode_scalar("a"), Err(DecodingError::InvalidBase64));
    // nonzero trailing bits
    assert_eq!(b64::decode_scalar("ab"), Err(DecodingError::InvalidBase64));
    // characters outside the alphabet
    assert_eq!(b64::decode_scalar("ab cd"), Err(DecodingError::InvalidBase64));
    assert_eq!(b64::decode_scalar("ab\u{e9}d"), Err(DecodingError::InvalidBase64));
}

#[test]
fn sequence_round_trip_preserves_order() {
    let blobs = vec![b"one".to_vec(), b"two".to_vec(), b"three".to_vec()];
    let tokens = b64::encode_sequence(&blobs);
    assert_eq!(tokens.len(), 3);
    let back = b64::decode_sequence(&tokens).unwrap();
    assert_eq!(back, blobs);
}

#[test]
fn sequence_decode_fails_fast() {
    let tokens = vec![
        "d29ybGQ".to_owned(),
        "not-base64!".to_owned(),
        "aQ".to_owned(),
    ];
    assert_eq!(
        b64::decode_sequence(&tokens),
        Err(DecodingError::InvalidBase64)
    );
}
