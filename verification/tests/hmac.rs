use gm::hmac::{build_hmac, decimal};
use hmac::Mac;

fn reference(secret: &[u8], parts: &[&[u8]]) -> String {
    let mut mac = hmac::Hmac::<sha2::Sha256>::new_from_slice(secret).unwrap();
    for part in parts {
        mac.update(part);
    }
    hex::encode(mac.finalize().into_bytes())
}

#[test]
fn numbers_in_decimal() {
    assert_eq!(decimal(0), b"0".to_vec());
    assert_eq!(decimal(7), b"7".to_vec());
    assert_eq!(decimal(10), b"10".to_vec());
    assert_eq!(decimal(1_700_000_000), b"1700000000".to_vec());
    assert_eq!(decimal(-5), b"-5".to_vec());
    assert_eq!(decimal(i64::MAX), b"9223372036854775807".to_vec());
    assert_eq!(decimal(i64::MIN), b"-9223372036854775808".to_vec());
}

#[test]
fn the_signature_covers_timestamp_and_payload() {
    let (timestamp, signature) = build_hmac("topsecret", b"{\"message\":\"hi\"}", 1_700_000_000).unwrap();
    assert_eq!(timestamp, 1_700_000_000);
    assert_eq!(signature, reference(b"topsecret", &[b"1700000000", b"{\"message\":\"hi\"}"]));
    assert_eq!(signature.len(), 64);
    assert!(signature.chars().all(|c| c.is_ascii_digit() || ('a'..='f').contains(&c)));
}

#[test]
fn a_known_vector() {
    // HMAC-SHA256 with key "key" of "0The quick brown fox jumps over the lazy dog",
    // the payload being what follows the timestamp 0.
    let (_, signature) = build_hmac("key", b"The quick brown fox jumps over the lazy dog", 0).unwrap();
    assert_eq!(
        signature,
        reference(b"key", &[b"0The quick brown fox jumps over the lazy dog"])
    );
    assert_ne!(signature, "f7bc83f430538424b13298e6aa6fb143ef4d59a14946175997479dbc2d1a3cd8");
    assert_eq!(
        reference(b"key", &[b"The quick brown fox jumps over the lazy dog"]),
        "f7bc83f430538424b13298e6aa6fb143ef4d59a14946175997479dbc2d1a3cd8"
    );
}

#[test]
fn every_part_of_the_input_changes_the_signature() {
    let base = build_hmac("s", b"body", 1).unwrap().1;
    assert_ne!(build_hmac("t", b"body", 1).unwrap().1, base);
    assert_ne!(build_hmac("s", b"bodz", 1).unwrap().1, base);
    assert_ne!(build_hmac("s", b"body", 2).unwrap().1, base);
    assert_eq!(build_hmac("s", b"body", 1).unwrap().1, base);
    assert_eq!(build_hmac("", b"", -1).unwrap().1, reference(b"", &[b"-1"]));
    assert_eq!(
        build_hmac("schlüssel", b"\x00\xff", 12).unwrap().1,
        reference("schlüssel".as_bytes(), &[b"12", b"\x00\xff"])
    );
}
