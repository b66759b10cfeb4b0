use zkmember::codec::{CodecError, from_hex, i64_to_be_bytes, to_hex};

#[test]
fn hex_encodes_bytes() {
    let data: Vec<u8> = vec![0xbe, 0xef, 0x00, 0x1a];
    assert_eq!(to_hex(data.as_slice()), "beef001a");
    assert_eq!(to_hex(&[]), "");
}

#[test]
fn hex_round_trip_concrete() {
    let data: Vec<u8> = vec![0, 1, 2, 3, 15, 16, 127, 128, 255];
    let encoded = to_hex(data.as_slice());
    let decoded = from_hex(encoded.as_str()).unwrap();
    assert_eq!(decoded, data);
}

#[test]
fn hex_canonical_round_trip() {
    let s = "00ff10abcdef";
    let bytes = from_hex(s).unwrap();
    assert_eq!(to_hex(bytes.as_slice()), s);
}

#[test]
fn hex_rejects_odd_length() {
    assert_eq!(from_hex("abc"), Err(CodecError::OddLength));
}

#[test]
fn hex_rejects_bad_digit() {
    assert_eq!(from_hex("0g"), Err(CodecError::BadDigit));
    // upper case is not the canonical form
    assert_eq!(from_hex("AB"), Err(CodecError::BadDigit));
}

#[test]
fn be_bytes_of_timestamps() {
    assert_eq!(i64_to_be_bytes(0), vec![0u8; 8]);
    assert_eq!(i64_to_be_bytes(1), vec![0, 0, 0, 0, 0, 0, 0, 1]);
    assert_eq!(
        i64_to_be_bytes(1672531200),
        1672531200i64.to_be_bytes().to_vec()
    );
    assert_eq!(i64_to_be_bytes(-1), vec![0xff; 8]);
    assert_eq!(
        i64_to_be_bytes(i64::MIN),
        i64::MIN.to_be_bytes().to_vec()
    );
}
