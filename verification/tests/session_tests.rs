use cookie_session::codec::UserId;
use cookie_session::session::{
    create_session, session_cookie_name, whoami, CookieDirective, ResponsePlan, SessionJar,
    SessionResponse, Unauthenticated, User, STATUS_OK, STATUS_UNAUTHORIZED,
};

fn secret() -> Vec<u8> {
    (0u8..64).collect()
}

fn stored_value(plan: &ResponsePlan) -> String {
    let mut jar = SessionJar { session: None };
    jar.apply(&plan.directives);
    jar.session.expect("a successful login stores a session cookie")
}

#[test]
fn login_issues_cookie_and_json_body() {
    let plan = create_session().respond_to(&secret());
    assert_eq!(plan.status, STATUS_OK);
    assert_eq!(plan.body, "{\"user\":\"Ethan\"}");
    assert_eq!(plan.directives.len(), 2);
    assert!(matches!(plan.directives[0], CookieDirective::Remove));
    assert!(matches!(plan.directives[1], CookieDirective::Store(_)));
}

#[test]
fn whoami_with_login_cookie() {
    let secret = secret();
    let plan = create_session().respond_to(&secret);
    let value = stored_value(&plan);
    let uid = UserId::from_request(&secret, Some(value.as_str())).unwrap();
    assert_eq!(uid, UserId(2));
    assert_eq!(whoami(uid), "Got user id: 2");
}

#[test]
fn whoami_without_cookie_is_unauthenticated() {
    assert_eq!(
        UserId::from_request(&secret(), None),
        Err(Unauthenticated)
    );
}

#[test]
fn whoami_with_altered_cookie_is_unauthenticated() {
    let secret = secret();
    let plan = create_session().respond_to(&secret);
    let value = stored_value(&plan);
    let mut bytes = value.into_bytes();
    bytes[0] ^= 0x01;
    let altered = String::from_utf8(bytes).unwrap();
    assert_eq!(
        UserId::from_request(&secret, Some(altered.as_str())),
        Err(Unauthenticated)
    );
}

#[test]
fn reissue_overwrites_previous_session() {
    let secret = secret();
    let mut jar = SessionJar { session: None };

    let first = SessionResponse::LoginSucceeded(User {
        id: 2,
        name: "Ethan".to_string(),
    })
    .respond_to(&secret);
    jar.apply(&first.directives);

    let second = SessionResponse::LoginSucceeded(User {
        id: 7,
        name: "Maya".to_string(),
    })
    .respond_to(&secret);
    jar.apply(&second.directives);

    let value = jar.session.expect("exactly one session cookie remains");
    assert_eq!(
        UserId::from_request(&secret, Some(value.as_str())),
        Ok(UserId(7))
    );
}

#[test]
fn failed_login_is_unauthorized_and_keeps_stale_cookie() {
    let secret = secret();
    let plan = SessionResponse::LoginFailed.respond_to(&secret);
    assert_eq!(plan.status, STATUS_UNAUTHORIZED);
    assert_eq!(plan.body, "{}");
    assert!(plan.directives.is_empty());

    let mut jar = SessionJar {
        session: Some("stale".to_string()),
    };
    jar.apply(&plan.directives);
    assert_eq!(jar.session, Some("stale".to_string()));
}

#[test]
fn login_body_escapes_the_name() {
    let plan = SessionResponse::LoginSucceeded(User {
        id: 1,
        name: "Eve \"the\" admin".to_string(),
    })
    .respond_to(&secret());
    assert_eq!(plan.body, "{\"user\":\"Eve \\\"the\\\" admin\"}");
}

#[test]
fn negative_identity_round_trips_through_whoami() {
    let secret = secret();
    let plan = SessionResponse::LoginSucceeded(User {
        id: -45,
        name: "n".to_string(),
    })
    .respond_to(&secret);
    let value = stored_value(&plan);
    let uid = UserId::from_request(&secret, Some(value.as_str())).unwrap();
    assert_eq!(whoami(uid), "Got user id: -45");
}

#[test]
fn cookie_name_is_fixed() {
    assert_eq!(session_cookie_name(), "user_id");
}
