use cookie_session::codec::{decode, encode, DecodeError, UserId};
use cookie_session::digits::{parse_i32, render_i32, render_u32};

fn secret() -> Vec<u8> {
    (0u8..64).collect()
}

fn other_secret() -> Vec<u8> {
    (64u8..128).collect()
}

/// Sign an arbitrary payload with the same signed-jar scheme the codec
/// uses, to reach the malformed-payload path with a valid signature.
fn sign_raw(secret: &[u8], plain: &str) -> String {
    let key = cookie::Key::from(secret);
    let mut jar = cookie::CookieJar::new();
    jar.signed_mut(&key)
        .add(cookie::Cookie::new("v", plain.to_string()));
    jar.get("v").unwrap().value().to_string()
}

#[test]
fn render_values() {
    assert_eq!(render_i32(0), "0");
    assert_eq!(render_i32(2), "2");
    assert_eq!(render_i32(-123), "-123");
    assert_eq!(render_i32(i32::MAX), "2147483647");
    assert_eq!(render_i32(i32::MIN), "-2147483648");
    assert_eq!(render_u32(1048576), "1048576");
}

#[test]
fn parse_values() {
    assert_eq!(parse_i32("0"), Some(0));
    assert_eq!(parse_i32("007"), Some(7));
    assert_eq!(parse_i32("-1"), Some(-1));
    assert_eq!(parse_i32("2147483647"), Some(i32::MAX));
    assert_eq!(parse_i32("-2147483648"), Some(i32::MIN));
}

#[test]
fn parse_rejects() {
    assert_eq!(parse_i32(""), None);
    assert_eq!(parse_i32("-"), None);
    assert_eq!(parse_i32("12a"), None);
    assert_eq!(parse_i32("1 2"), None);
    assert_eq!(parse_i32("+1"), None);
    assert_eq!(parse_i32("2147483648"), None);
    assert_eq!(parse_i32("-2147483649"), None);
    assert_eq!(parse_i32("99999999999999999999"), None);
}

#[test]
fn round_trip_identities() {
    let secret = secret();
    for id in [0, 1, -1, 2, 42, i32::MAX, i32::MIN] {
        let sealed = encode(&secret, UserId(id));
        assert_eq!(decode(&secret, Some(sealed.as_str())), Ok(UserId(id)));
    }
}

#[test]
fn decode_missing_cookie() {
    assert_eq!(decode(&secret(), None), Err(DecodeError::Missing));
}

#[test]
fn decode_unsigned_value() {
    assert_eq!(
        decode(&secret(), Some("2")),
        Err(DecodeError::InvalidSignature)
    );
}

#[test]
fn decode_wrong_key() {
    let sealed = encode(&secret(), UserId(2));
    assert_eq!(
        decode(&other_secret(), Some(sealed.as_str())),
        Err(DecodeError::InvalidSignature)
    );
}

#[test]
fn decode_malformed_payload() {
    let secret = secret();
    for payload in ["abc", "", "2.5", "9999999999"] {
        let sealed = sign_raw(&secret, payload);
        assert_eq!(
            decode(&secret, Some(sealed.as_str())),
            Err(DecodeError::MalformedPayload)
        );
    }
}

#[test]
fn tampered_value_never_decodes() {
    let secret = secret();
    let sealed = encode(&secret, UserId(2));
    let bytes = sealed.into_bytes();
    for i in 0..bytes.len() {
        let mut flipped = bytes.clone();
        flipped[i] ^= 0x01;
        let tampered = String::from_utf8(flipped).unwrap();
        let r = decode(&secret, Some(tampered.as_str()));
        assert!(r.is_err());
    }
}
