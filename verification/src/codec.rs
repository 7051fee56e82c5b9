//! The identity codec: a tamper-evident encoding of a user identity
//! into a session cookie value, and its decoding.
//!
//! The cookie value is the `cookie` crate's signed form of the decimal
//! string of the identifier: a base64 HMAC-SHA256 tag over the value,
//! computed from a process-wide signing secret, followed by the value
//! itself. Only the signing and verification calls are trusted; the
//! decimal payload handling is verified in `digits`.

use vstd::prelude::*;

use crate::digits::int_repr;
use crate::digits::int_str_val;
use crate::digits::lemma_int_repr_parses;
use crate::digits::parse_i32;
use crate::digits::render_i32;
use crate::digits::wf_int_str;

verus! {

/// The integer identity of an authenticated principal.
#[derive(Debug, PartialEq, Eq, Structural, Clone, Copy)]
pub struct UserId(pub i32);

/// Why a session cookie value failed to decode. Internal to the codec
/// and the guard: the cause is never exposed past the guard.
#[derive(Debug, PartialEq, Eq, Structural, Clone, Copy)]
pub enum DecodeError {
    /// No session cookie was present.
    Missing,
    /// The tamper check rejected the value.
    InvalidSignature,
    /// The tag verified but the payload is not an `i32` decimal string.
    MalformedPayload,
}

/// The value the signed jar stores for a signing secret and a
/// plaintext: the base64 HMAC-SHA256 tag followed by the plaintext.
pub uninterp spec fn signed_of(key: Seq<u8>, plain: Seq<char>) -> Seq<char>;

/// What signed-jar verification recovers from a cookie value under a
/// signing secret: the plaintext if the tag checks out, nothing
/// otherwise.
pub uninterp spec fn verified_of(key: Seq<u8>, value: Seq<char>) -> Option<Seq<char>>;

/// The view of an optional viewable value.
pub open spec fn view_of_opt<T: View>(o: Option<T>) -> Option<T::V> {
    match o {
        Option::Some(v) => Option::Some(v@),
        Option::None => Option::None,
    }
}

/// Relies on `cookie::SignedJar::add` (via `CookieJar::signed_mut`):
/// it replaces the stored value by the base64 HMAC-SHA256 tag of the
/// value under the first 32 of the secret's 64 bytes, followed by the
/// value, a function of the secret and the value alone; and on
/// `SignedJar::verify`, whose documentation states that verification
/// always succeeds on a value produced with the same key.
#[verifier::external_body]
fn seal_value(secret: &Vec<u8>, plain: &str) -> (r: String)
    requires
        secret@.len() == 64,
    ensures
        r@ == signed_of(secret@, plain@),
        verified_of(secret@, r@) == Some(plain@),
{
    let key = cookie::Key::from(secret);
    let mut jar = cookie::CookieJar::new();
    jar.signed_mut(&key).add(cookie::Cookie::new("v", plain.to_string()));
    match jar.get("v") {
        Some(c) => c.value().to_string(),
        None => String::new(),
    }
}

/// Relies on `cookie::SignedJar::verify`: it recovers the plaintext of
/// a value signed with the same secret and rejects any other value, a
/// function of the secret and the value alone.
#[verifier::external_body]
fn open_value(secret: &Vec<u8>, value: &str) -> (r: Option<String>)
    requires
        secret@.len() == 64,
    ensures
        r is Some <==> verified_of(secret@, value@) is Some,
        r matches Some(p) ==> verified_of(secret@, value@) == Some(p@),
{
    let key = cookie::Key::from(secret);
    let jar = cookie::CookieJar::new();
    let signed = jar.signed(&key);
    signed.verify(cookie::Cookie::new("v", value.to_string())).map(|c| c.value().to_string())
}

/// What decoding an optional cookie value yields: each error variant
/// on exactly the inputs that produce it, and the parsed identity
/// otherwise.
pub open spec fn decode_spec(secret: Seq<u8>, value: Option<Seq<char>>) -> Result<
    UserId,
    DecodeError,
> {
    match value {
        Option::None => Result::Err(DecodeError::Missing),
        Option::Some(v) => match verified_of(secret, v) {
            Option::None => Result::Err(DecodeError::InvalidSignature),
            Option::Some(p) => if wf_int_str(p) && i32::MIN <= int_str_val(p) <= i32::MAX {
                Result::Ok(UserId(int_str_val(p) as i32))
            } else {
                Result::Err(DecodeError::MalformedPayload)
            },
        },
    }
}

/// Encode an identity as a tamper-evident session cookie value: the
/// signed form of its canonical decimal string.
pub fn encode(secret: &Vec<u8>, id: UserId) -> (r: String)
    requires
        secret@.len() == 64,
    ensures
        r@ == signed_of(secret@, int_repr(id.0 as int)),
        verified_of(secret@, r@) == Some(int_repr(id.0 as int)),
{
    let plain = render_i32(id.0);
    seal_value(secret, plain.as_str())
}

/// Decode an optional session cookie value into an identity, or say
/// exactly why not: `Missing` without a cookie, `InvalidSignature`
/// when the tamper check fails, `MalformedPayload` when the verified
/// payload is not an `i32` decimal string.
pub fn decode(secret: &Vec<u8>, value: Option<&str>) -> (r: Result<UserId, DecodeError>)
    requires
        secret@.len() == 64,
    ensures
        r == decode_spec(secret@, view_of_opt(value)),
{
    match value {
        None => Err(DecodeError::Missing),
        Some(v) => match open_value(secret, v) {
            None => Err(DecodeError::InvalidSignature),
            Some(p) => match parse_i32(p.as_str()) {
                None => Err(DecodeError::MalformedPayload),
                Some(n) => Ok(UserId(n)),
            },
        },
    }
}

/// Round trip: any cookie value that verifies to the canonical decimal
/// string of an identity decodes to exactly that identity. In
/// particular, by the contract of `encode`, decoding an encoded
/// identity yields it back.
pub proof fn lemma_decode_encode_round_trip(secret: Seq<u8>, id: UserId, sealed: Seq<char>)
    requires
        verified_of(secret, sealed) == Some(int_repr(id.0 as int)),
    ensures
        decode_spec(secret, Some(sealed)) == Ok::<UserId, DecodeError>(id),
{
    lemma_int_repr_parses(id.0 as int);
}

/// No silent corruption: a decoded identity is always backed by a
/// payload that the signing secret authenticated, and that payload is
/// the decimal string of exactly that identity.
pub proof fn lemma_decoded_identity_is_authenticated(secret: Seq<u8>, sealed: Seq<char>, id: UserId)
    requires
        decode_spec(secret, Some(sealed)) == Ok::<UserId, DecodeError>(id),
    ensures
        verified_of(secret, sealed) matches Some(p) && wf_int_str(p) && int_str_val(p)
            == id.0 as int,
{
}

} // verus!
