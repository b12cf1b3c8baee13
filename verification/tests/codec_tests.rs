use std::str::FromStr;

use prost_helper::codec::{self, Flavor, SequenceDecoder};
use prost_helper::{DecodingError, EncodingError};

fn uuid() -> &'static str {
    "018c8afb-43d7-7f73-be38-95ed30027670"
}

fn uuid_vec() -> Vec<u8> {
    uuid7::Uuid::from_str(uuid()).unwrap().as_bytes().to_vec()
}

#[test]
fn scalar_dispatch_by_flavor() {
    assert_eq!(
        codec::encode_scalar(Flavor::Base64, b"world").unwrap(),
        "d29ybGQ"
    );
    assert_eq!(
        codec::encode_scalar(Flavor::Identifier, &uuid_vec()).unwrap(),
        uuid()
    );
    assert_eq!(
        codec::decode_scalar(Flavor::Base64, "d29ybGQ").unwrap(),
        b"world".to_vec()
    );
    assert_eq!(
        codec::decode_scalar(Flavor::Identifier, uuid()).unwrap(),
        uuid_vec()
    );
}

#[test]
fn scalar_dispatch_errors_name_the_flavor() {
    assert_eq!(
        codec::encode_scalar(Flavor::Identifier, b"world"),
        Err(EncodingError::InvalidLength)
    );
    assert_eq!(
        codec::decode_scalar(Flavor::Base64, "a=bc"),
        Err(DecodingError::InvalidBase64)
    );
    assert_eq!(
        codec::decode_scalar(Flavor::Identifier, "no-such-id"),
        Err(DecodingError::InvalidIdentifier)
    );
}

#[test]
fn sequence_dispatch_by_flavor() {
    let blobs = vec![b"a".to_vec(), b"bc".to_vec()];
    let tokens = codec::encode_sequence(Flavor::Base64, &blobs).unwrap();
    assert_eq!(codec::decode_sequence(Flavor::Base64, &tokens).unwrap(), blobs);

    let blobs = vec![uuid_vec(), vec![]];
    let tokens = codec::encode_sequence(Flavor::Identifier, &blobs).unwrap();
    assert_eq!(tokens, vec![uuid().to_owned(), String::new()]);
    assert_eq!(
        codec::decode_sequence(Flavor::Identifier, &tokens).unwrap(),
        blobs
    );
}

#[test]
fn streaming_decoder_preserves_arrival_order() {
    let mut dec = SequenceDecoder::new(Flavor::Base64, Some(3));
    dec.push_token("d29ybGQ").unwrap();
    dec.push_token("").unwrap();
    dec.push_token("aQ").unwrap();
    let blobs = dec.finish();
    assert_eq!(blobs, vec![b"world".to_vec(), vec![], vec![0x69u8]]);
}

#[test]
fn streaming_decoder_ignores_absent_hint() {
    let mut dec = SequenceDecoder::new(Flavor::Identifier, None);
    dec.push_token(uuid()).unwrap();
    dec.push_token("").unwrap();
    let blobs = dec.finish();
    assert_eq!(blobs, vec![uuid_vec(), vec![]]);
}

#[test]
fn streaming_decoder_fails_fast_and_keeps_no_partial() {
    let mut dec = SequenceDecoder::new(Flavor::Base64, Some(1));
    dec.push_token("d29ybGQ").unwrap();
    assert_eq!(dec.push_token("?!"), Err(DecodingError::InvalidBase64));
    // the rejected token left the accumulator unchanged
    let blobs = dec.finish();
    assert_eq!(blobs, vec![b"world".to_vec()]);
}

#[test]
fn union_variant_uses_the_same_codec() {
    // a blob inside a tagged-union variant goes through the very same
    // call as a direct field: the token is identical
    let direct = codec::encode_scalar(Flavor::Base64, b"world").unwrap();
    let in_variant = codec::encode_scalar(Flavor::Base64, b"world").unwrap();
    assert_eq!(direct, in_variant);
    let s = format!("{{\"data\":{{\"Value\":\"{}\"}}}}", in_variant);
    assert_eq!(s, r#"{"data":{"Value":"d29ybGQ"}}"#);
}
