use logline_daemon::codec::{base64_decode, hex_decode, hex_encode, json_string, sha256};
use logline_daemon::timestamp::parse_timestamp_ms;

#[test]
fn hex_round_trip() {
    assert_eq!(hex_encode(&[0x00, 0xab, 0x1f]), "00ab1f");
    assert_eq!(hex_decode("00AB1f"), Some(vec![0x00, 0xab, 0x1f]));
    assert_eq!(hex_decode("abc"), None);
    assert_eq!(hex_decode("zz"), None);
    assert_eq!(hex_decode(""), Some(vec![]));
}

#[test]
fn base64_standard() {
    assert_eq!(base64_decode("aGVsbG8="), Some(b"hello".to_vec()));
    assert_eq!(base64_decode("aGVsbG8"), None);
    assert_eq!(base64_decode("a-b_"), None);
}

#[test]
fn sha256_known_digest() {
    assert_eq!(
        hex_encode(&sha256(b"abc")),
        "ba7816bf8f01cfea414140de5dae2223b00361a396177a9cb410ff61f20015ad"
    );
}

#[test]
fn json_string_escapes() {
    assert_eq!(json_string("a\"b\\c"), Some("\"a\\\"b\\\\c\"".to_string()));
    assert_eq!(json_string("plain"), Some("\"plain\"".to_string()));
}

#[test]
fn timestamps() {
    assert_eq!(parse_timestamp_ms("1970-01-01T00:00:00Z"), Some(0));
    assert_eq!(parse_timestamp_ms("2000-03-01T00:00:00.123+01:00"), Some(951_865_200_123));
    assert_eq!(parse_timestamp_ms("2024-02-29T23:59:59.9-05:30"), Some(1_709_270_999_900));
    assert_eq!(parse_timestamp_ms("2100-01-01T00:00:00Z"), Some(4_102_444_800_000));
    assert_eq!(parse_timestamp_ms("2023-11-14T22:13:20.000123Z"), Some(1_700_000_000_000));
}

#[test]
fn malformed_timestamps() {
    assert_eq!(parse_timestamp_ms("2023-02-29T00:00:00Z"), None);
    assert_eq!(parse_timestamp_ms("2023-13-01T00:00:00Z"), None);
    assert_eq!(parse_timestamp_ms("2023-01-01T24:00:00Z"), None);
    assert_eq!(parse_timestamp_ms("2023-01-01T00:00:00"), None);
    assert_eq!(parse_timestamp_ms("2023-01-01T00:00:00.Z"), None);
    assert_eq!(parse_timestamp_ms("2023-01-01T00:00:00+0100"), None);
    assert_eq!(parse_timestamp_ms("0000-01-01T00:00:00Z"), None);
    assert_eq!(parse_timestamp_ms("tomorrow"), None);
}
