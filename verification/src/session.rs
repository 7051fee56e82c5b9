//! The session issuer and request guard.
//!
//! The issuer turns a login outcome into a response plan: a status, a
//! JSON body, and the cookie directives the HTTP collaborator must
//! apply to the client's jar. The guard turns the request's session
//! cookie back into an identity, collapsing every decode failure to a
//! single unauthenticated outcome.

use vstd::prelude::*;

use crate::codec::DecodeError;
use crate::codec::UserId;
use crate::codec::decode;
use crate::codec::decode_spec;
use crate::codec::encode;
use crate::codec::lemma_decode_encode_round_trip;
use crate::codec::signed_of;
use crate::codec::verified_of;
use crate::codec::view_of_opt;
use crate::digits::int_repr;
use crate::digits::render_i32;

verus! {

/// The HTTP status of a successful response.
pub const STATUS_OK: u16 = 200;

/// The HTTP status of an unauthenticated or failed-login response.
pub const STATUS_UNAUTHORIZED: u16 = 401;

/// An authenticated principal: an identifier and a display name.
#[derive(Debug, Clone)]
pub struct User {
    pub id: i32,
    pub name: String,
}

/// The outcome of a login attempt.
#[derive(Debug)]
pub enum SessionResponse {
    LoginFailed,
    LoginSucceeded(User),
}

/// The guard's single failure outcome: the cause of a decode failure
/// is never exposed to callers.
#[derive(Debug, PartialEq, Eq, Structural, Clone, Copy)]
pub struct Unauthenticated;

/// One instruction to the collaborator's cookie jar about the session
/// cookie.
#[derive(Debug, Clone)]
pub enum CookieDirective {
    /// Drop any existing session cookie.
    Remove,
    /// Store this value as the session cookie.
    Store(String),
}

/// A response plan: what the HTTP collaborator sends back, plus the
/// cookie directives to apply, in order, to the client's jar.
#[derive(Debug)]
pub struct ResponsePlan {
    pub status: u16,
    pub body: String,
    pub directives: Vec<CookieDirective>,
}

/// The session slot of a client's cookie jar: at most one session
/// cookie value.
#[derive(Debug)]
pub struct SessionJar {
    pub session: Option<String>,
}

/// The effect of one directive on the session slot.
pub open spec fn apply_one(session: Option<Seq<char>>, d: CookieDirective) -> Option<Seq<char>> {
    match d {
        CookieDirective::Remove => Option::None,
        CookieDirective::Store(v) => Option::Some(v@),
    }
}

/// The effect of a directive sequence on the session slot, applied in
/// order.
pub open spec fn apply_directives_spec(session: Option<Seq<char>>, ds: Seq<CookieDirective>) -> Option<
    Seq<char>,
>
    decreases ds.len(),
{
    if ds.len() == 0 {
        session
    } else {
        apply_one(apply_directives_spec(session, ds.drop_last()), ds.last())
    }
}

impl SessionJar {
    /// Apply a response's cookie directives, in order, to the session
    /// slot.
    pub fn apply(&mut self, ds: &Vec<CookieDirective>)
        ensures
            view_of_opt(final (self).session) == apply_directives_spec(
                view_of_opt(old(self).session),
                ds@,
            ),
    {
        let mut i: usize = 0;
        while i < ds.len()
            invariant
                0 <= i <= ds@.len(),
                view_of_opt(self.session) == apply_directives_spec(
                    view_of_opt(old(self).session),
                    ds@.subrange(0, i as int),
                ),
            decreases ds@.len() - i,
        {
            match &ds[i] {
                CookieDirective::Remove => {
                    self.session = None;
                },
                CookieDirective::Store(v) => {
                    self.session = Some(v.clone());
                },
            }
            proof {
                assert(ds@.subrange(0, i + 1).drop_last() =~= ds@.subrange(0, i as int));
                assert(ds@.subrange(0, i + 1).last() == ds@[i as int]);
            }
            i += 1;
        }
        proof {
            assert(ds@.subrange(0, ds@.len() as int) =~= ds@);
        }
    }
}

/// The JSON string literal (quoted and escaped) encoding a string.
pub uninterp spec fn json_quoted(s: Seq<char>) -> Seq<char>;

/// The JSON body of a successful login: an object with the user's
/// display name under the key `user`.
pub open spec fn login_body_json(name: Seq<char>) -> Seq<char> {
    "{\"user\":"@ + json_quoted(name) + "}"@
}

/// Relies on `serde_json::to_string` for a string slice: the JSON
/// string literal for its characters, quoted and escaped, a function
/// of the characters alone; serialising a string slice never fails.
#[verifier::external_body]
fn json_quote(s: &str) -> (r: String)
    ensures
        r@ == json_quoted(s@),
{
    match serde_json::to_string(s) {
        Ok(q) => q,
        Err(_) => String::new(),
    }
}

impl SessionResponse {
    /// Render a login outcome as a response plan.
    ///
    /// A failed login yields the unauthorized status with an empty
    /// JSON object and touches no cookie, stale or not. A successful
    /// login yields the ok status, a JSON body naming the user, and
    /// exactly one session cookie: a removal of any prior cookie
    /// followed by the signed encoding of the user's identity.
    pub fn respond_to(self, secret: &Vec<u8>) -> (r: ResponsePlan)
        requires
            secret@.len() == 64,
        ensures
            self matches SessionResponse::LoginFailed ==> r.status == STATUS_UNAUTHORIZED
                && r.body@ == "{}"@ && r.directives@.len() == 0,
            self matches SessionResponse::LoginSucceeded(user) ==> r.status == STATUS_OK && r.body@
                == login_body_json(user.name@) && r.directives@.len() == 2 && r.directives@[0]
                is Remove && (r.directives@[1] matches CookieDirective::Store(v) && v@ == signed_of(
                secret@,
                int_repr(user.id as int),
            ) && verified_of(secret@, v@) == Some(int_repr(user.id as int))),
    {
        match self {
            SessionResponse::LoginFailed => ResponsePlan {
                status: STATUS_UNAUTHORIZED,
                body: String::from_str("{}"),
                directives: Vec::new(),
            },
            SessionResponse::LoginSucceeded(user) => {
                let quoted = json_quote(user.name.as_str());
                let body = String::from_str("{\"user\":").concat(quoted.as_str()).concat("}");
                let mut directives: Vec<CookieDirective> = Vec::new();
                directives.push(CookieDirective::Remove);
                directives.push(CookieDirective::Store(encode(secret, UserId(user.id))));
                ResponsePlan { status: STATUS_OK, body, directives }
            },
        }
    }
}

/// What the guard yields for a decoded cookie: the identity on
/// success, one indistinct failure otherwise.
pub open spec fn authenticate_spec(secret: Seq<u8>, cookie: Option<Seq<char>>) -> Result<
    UserId,
    Unauthenticated,
> {
    match decode_spec(secret, cookie) {
        Result::Ok(u) => Result::Ok(u),
        Result::Err(_) => Result::Err(Unauthenticated),
    }
}

impl UserId {
    /// The request guard: look at the request's session cookie, if
    /// any, and decode it. Every decode failure collapses to the one
    /// `Unauthenticated` outcome, so callers never learn why
    /// authentication failed.
    pub fn from_request(secret: &Vec<u8>, session_cookie: Option<&str>) -> (r: Result<
        UserId,
        Unauthenticated,
    >)
        requires
            secret@.len() == 64,
        ensures
            r == authenticate_spec(secret@, view_of_opt(session_cookie)),
    {
        match decode(secret, session_cookie) {
            Ok(u) => Ok(u),
            Err(_) => Err(Unauthenticated),
        }
    }
}

/// The login handler: this demo's stubbed authentication always
/// succeeds with the fixed user of id 2 named `Ethan`.
pub fn create_session() -> (r: SessionResponse)
    ensures
        r matches SessionResponse::LoginSucceeded(u) && u.id == 2 && u.name@ == "Ethan"@,
{
    SessionResponse::LoginSucceeded(User { id: 2, name: String::from_str("Ethan") })
}

/// The authenticated handler: greet the identity the guard extracted.
pub fn whoami(user_id: UserId) -> (r: String)
    ensures
        r@ == "Got user id: "@ + int_repr(user_id.0 as int),
{
    String::from_str("Got user id: ").concat(render_i32(user_id.0).as_str())
}

/// The name under which the session cookie is stored in the client's
/// jar.
pub fn session_cookie_name() -> (r: &'static str)
    ensures
        r@ == "user_id"@,
{
    "user_id"
}

/// Idempotent overwrite: issuing a session twice in sequence leaves
/// exactly one session cookie, the most recent identity's, whatever
/// the jar held before; and that cookie decodes to the most recent
/// identity.
pub proof fn lemma_reissue_overwrites(
    secret: Seq<u8>,
    session: Option<Seq<char>>,
    ds1: Seq<CookieDirective>,
    ds2: Seq<CookieDirective>,
    v1: String,
    v2: String,
    id2: UserId,
)
    requires
        ds1.len() == 2,
        ds1[0] is Remove,
        ds1[1] == CookieDirective::Store(v1),
        ds2.len() == 2,
        ds2[0] is Remove,
        ds2[1] == CookieDirective::Store(v2),
        verified_of(secret, v2@) == Some(int_repr(id2.0 as int)),
    ensures
        apply_directives_spec(apply_directives_spec(session, ds1), ds2) == Some(v2@),
        decode_spec(secret, Some(v2@)) == Ok::<UserId, DecodeError>(id2),
{
    assert(ds2.last() == ds2[1]);
    lemma_decode_encode_round_trip(secret, id2, v2@);
}

} // verus!
