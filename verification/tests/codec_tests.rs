use zeco::codec::{
    decode_frame, decode_session_meta, decode_string, encode_frame, encode_session_meta,
    encode_string, u32_from_be_slice, u32_to_be_vec, CodecError,
};

#[test]
fn be_bytes_round_trip() {
    let v = u32_to_be_vec(0x01020304);
    assert_eq!(v, vec![1, 2, 3, 4]);
    assert_eq!(u32_from_be_slice(v[0], v[1], v[2], v[3]), 0x01020304);
    assert_eq!(u32_to_be_vec(7), vec![0, 0, 0, 7]);
}

#[test]
fn frame_has_length_prefix() {
    let framed = encode_frame(&vec![1, 2, 3]).unwrap();
    assert_eq!(framed, vec![0, 0, 0, 3, 1, 2, 3]);
}

#[test]
fn frame_round_trip() {
    let framed = encode_frame(&vec![9, 8, 7, 6]).unwrap();
    let (payload, rest) = decode_frame(&framed).unwrap();
    assert_eq!(payload, vec![9, 8, 7, 6]);
    assert!(rest.is_empty());
}

#[test]
fn frame_round_trip_with_rest() {
    let mut framed = encode_frame(&vec![5, 5]).unwrap();
    framed.push(42);
    let (payload, rest) = decode_frame(&framed).unwrap();
    assert_eq!(payload, vec![5, 5]);
    assert_eq!(rest, vec![42]);
}

#[test]
fn frame_truncated_prefix() {
    assert_eq!(decode_frame(&vec![0, 0]), Err(CodecError::Truncated));
}

#[test]
fn frame_truncated_payload() {
    assert_eq!(decode_frame(&vec![0, 0, 0, 5, 1, 2]), Err(CodecError::Truncated));
}

#[test]
fn string_payload_is_compact_binary() {
    // An 8-byte little-endian byte length, then the UTF-8 bytes, all
    // behind the 4-byte big-endian frame prefix.
    let framed = encode_string(&String::from("work")).unwrap();
    let expected = vec![0, 0, 0, 12, 4, 0, 0, 0, 0, 0, 0, 0, b'w', b'o', b'r', b'k'];
    assert_eq!(framed, expected);
}

#[test]
fn string_round_trip() {
    let framed = encode_string(&String::from("a session name")).unwrap();
    let (s, rest) = decode_string(&framed).unwrap();
    assert_eq!(s, "a session name");
    assert!(rest.is_empty());
}

#[test]
fn empty_string_round_trip() {
    let framed = encode_string(&String::from("")).unwrap();
    let (s, rest) = decode_string(&framed).unwrap();
    assert_eq!(s, "");
    assert!(rest.is_empty());
}

#[test]
fn string_truncated() {
    assert_eq!(
        decode_string(&vec![0, 0, 0, 9, 1]).map(|p| p.0),
        Err(CodecError::Truncated)
    );
}

#[test]
fn string_malformed_payload() {
    // A well-framed payload that claims one byte of string data but
    // carries an invalid UTF-8 byte.
    let framed = encode_frame(&vec![1, 0, 0, 0, 0, 0, 0, 0, 0xff]).unwrap();
    assert_eq!(decode_string(&framed).map(|p| p.0), Err(CodecError::Malformed));
}

#[test]
fn string_malformed_short_payload() {
    // The frame is whole, but the payload ends inside the serialized
    // string's own length field.
    let framed = encode_frame(&vec![9, 0, 0]).unwrap();
    assert_eq!(decode_string(&framed).map(|p| p.0), Err(CodecError::Malformed));
}

#[test]
fn string_payload_trailing_bytes_are_ignored() {
    // Deserialization reads one value and allows trailing bytes, so a
    // payload that begins with a serialized string still decodes.
    let framed = encode_frame(&vec![2, 0, 0, 0, 0, 0, 0, 0, b'a', b'b', 9, 9]).unwrap();
    let (s, rest) = decode_string(&framed).unwrap();
    assert_eq!(s, "ab");
    assert!(rest.is_empty());
}

#[test]
fn meta_round_trip() {
    let bytes = encode_session_meta(&String::from("1.0"), &String::from("work")).unwrap();
    let (version, name, rest) = decode_session_meta(&bytes).unwrap();
    assert_eq!(version, "1.0");
    assert_eq!(name, "work");
    assert!(rest.is_empty());
}

#[test]
fn meta_order_is_version_then_name() {
    let bytes = encode_session_meta(&String::from("1.0"), &String::from("work")).unwrap();
    let first = encode_string(&String::from("1.0")).unwrap();
    let second = encode_string(&String::from("work")).unwrap();
    let mut joined = first.clone();
    joined.extend_from_slice(&second);
    assert_eq!(bytes, joined);
}
