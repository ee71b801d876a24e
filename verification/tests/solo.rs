use octos_one::solo::{
    solo_create_body, solo_create_step, solo_login_step, solo_owner, SoloAction, SoloReply,
};

fn fail_text(a: SoloAction) -> String {
    match a {
        SoloAction::Fail(e) => e,
        _ => panic!("expected a failure"),
    }
}

fn read_context(a: SoloAction) -> String {
    match a {
        SoloAction::ReadReply(c) => c,
        _ => panic!("expected a reply to read"),
    }
}

#[test]
fn a_solo_relogin_reads_the_token_reply() {
    assert_eq!(read_context(solo_login_step(200, "alice")), "solo response");
}

#[test]
fn a_missing_solo_owner_is_created_with_the_profile_name() {
    let expected = br#"{"email":"alice@octos.local","name":"alice","username":"alice"}"#.to_vec();
    match solo_login_step(404, "alice") {
        SoloAction::Create(body) => assert_eq!(body, expected),
        _ => panic!("expected the create request"),
    }
    assert_eq!(solo_create_body("alice"), Some(expected));
}

#[test]
fn the_create_body_escapes_the_profile_name() {
    let body = solo_create_body("a\"b\\c").unwrap();
    assert_eq!(
        String::from_utf8(body).unwrap(),
        r#"{"email":"a\"b\\c@octos.local","name":"a\"b\\c","username":"a\"b\\c"}"#
    );
}

#[test]
fn a_refused_or_failed_solo_sign_in_says_why() {
    assert_eq!(fail_text(solo_login_step(403, "alice")), "Solo sign-in is disabled on this server");
    assert_eq!(fail_text(solo_login_step(500, "alice")), "solo sign-in: HTTP 500");
    assert_eq!(fail_text(solo_login_step(7, "alice")), "solo sign-in: HTTP 7");
}

#[test]
fn the_create_answer_decides_between_reply_and_error() {
    assert_eq!(read_context(solo_create_step(200, "200 OK")), "solo create response");
    assert_eq!(read_context(solo_create_step(201, "201 Created")), "solo create response");
    assert_eq!(fail_text(solo_create_step(409, "409 Conflict")), "solo create: HTTP 409 Conflict");
    assert_eq!(fail_text(solo_create_step(300, "300 Multiple Choices")), "solo create: HTTP 300 Multiple Choices");
}

#[test]
fn the_bearer_is_stored_under_the_servers_owner() {
    let reply = |user: Option<&str>, created: Option<&str>| SoloReply {
        token: "t".to_string(),
        user_id: user.map(|s| s.to_string()),
        created_profile_id: created.map(|s| s.to_string()),
    };
    assert_eq!(solo_owner(&reply(Some("owner"), Some("made")), "local"), "owner");
    assert_eq!(solo_owner(&reply(None, Some("made")), "local"), "made");
    assert_eq!(solo_owner(&reply(None, None), "local"), "local");
}
