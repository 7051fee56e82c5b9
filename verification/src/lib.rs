//! Cookie-based session authentication: a signed-cookie identity codec,
//! a session issuer, and a request guard, built over the `cookie` crate's
//! HMAC signed jar and `serde_json` string encoding.

pub mod codec;
pub mod digits;
pub mod session;
