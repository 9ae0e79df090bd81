use video_queue::auth::{
    auth_middleware, bearer_token, user_from_claims, AuthAction, AuthEvent, AuthState, BAD_REQUEST,
    INTERNAL_SERVER_ERROR, UNAUTHORIZED,
};

fn header(text: &str) -> AuthEvent {
    AuthEvent::Header { value: Some(text.to_string()) }
}

fn claims(user_id: &str) -> AuthEvent {
    AuthEvent::Claims { user_id: Some(user_id.to_string()) }
}

#[test]
fn status_codes() {
    assert_eq!(BAD_REQUEST, 400);
    assert_eq!(UNAUTHORIZED, 401);
    assert_eq!(INTERNAL_SERVER_ERROR, 500);
}

#[test]
fn bearer_token_is_the_second_word() {
    assert_eq!(bearer_token("Bearer abc.def.ghi"), Some("abc.def.ghi".to_string()));
    assert_eq!(bearer_token("  Bearer \t abc   extra"), Some("abc".to_string()));
    assert_eq!(bearer_token("Bearer\u{a0}abc"), Some("abc".to_string()));
    assert_eq!(bearer_token("Bearer\u{3000}abc\u{2003}"), Some("abc".to_string()));
}

#[test]
fn bearer_token_needs_two_words() {
    assert_eq!(bearer_token(""), None);
    assert_eq!(bearer_token("   "), None);
    assert_eq!(bearer_token("Bearer"), None);
    assert_eq!(bearer_token("Bearer   "), None);
}

#[test]
fn bearer_token_agrees_with_split_whitespace() {
    for text in ["Bearer x", " a  b c", "one", "", "a\u{85}b", "a\u{200b}b c", "a\rb\nc"] {
        let expected = text.split_whitespace().nth(1).map(|word| word.to_string());
        assert_eq!(bearer_token(text), expected, "text {:?}", text);
    }
}

#[test]
fn request_with_a_known_user_is_let_through() {
    let (state, action) = auth_middleware(AuthState::AwaitingHeader, header("Bearer tok"));
    assert_eq!(state, AuthState::AwaitingClaims);
    assert_eq!(action, AuthAction::DecodeToken { token: "tok".to_string() });
    let (state, action) = auth_middleware(state, claims("67e55044-10b1-426f-9247-bb680e5fe0c8"));
    assert_eq!(state, AuthState::AwaitingUser);
    assert_eq!(action, AuthAction::LoadUser { user_id: 0x67e55044_10b1_426f_9247_bb680e5fe0c8 });
    let (state, action) = auth_middleware(state, AuthEvent::User { found: true });
    assert_eq!(state, AuthState::Finished);
    assert_eq!(action, AuthAction::Forward);
}

#[test]
fn user_identifier_is_read_in_every_form_the_uuid_crate_reads() {
    let id = 0x67e55044_10b1_426f_9247_bb680e5fe0c8u128;
    for text in [
        "67e5504410b1426f9247bb680e5fe0c8",
        "67E55044-10B1-426F-9247-BB680E5FE0C8",
        "{67e55044-10b1-426f-9247-bb680e5fe0c8}",
        "urn:uuid:67e55044-10b1-426f-9247-bb680e5fe0c8",
    ] {
        let (_, action) = auth_middleware(AuthState::AwaitingClaims, claims(text));
        assert_eq!(action, AuthAction::LoadUser { user_id: id }, "text {:?}", text);
    }
}

#[test]
fn missing_header_is_a_bad_request() {
    let (state, action) =
        auth_middleware(AuthState::AwaitingHeader, AuthEvent::Header { value: None });
    assert_eq!(state, AuthState::Finished);
    assert_eq!(action, AuthAction::Reject { status: 400 });
}

#[test]
fn rejected_token_is_unauthorized() {
    let (state, action) =
        auth_middleware(AuthState::AwaitingClaims, AuthEvent::Claims { user_id: None });
    assert_eq!(state, AuthState::Finished);
    assert_eq!(action, AuthAction::Reject { status: 401 });
}

#[test]
fn user_identifier_that_is_no_uuid_is_a_bad_request() {
    for text in ["not-a-uuid", "", "67e55044-10b1-426f-9247-bb680e5fe0c", "67e55044"] {
        let (state, action) = auth_middleware(AuthState::AwaitingClaims, claims(text));
        assert_eq!(state, AuthState::Finished);
        assert_eq!(action, AuthAction::Reject { status: 400 });
    }
}

#[test]
fn failed_lookup_is_an_internal_error() {
    let (state, action) = auth_middleware(AuthState::AwaitingUser, AuthEvent::User { found: false });
    assert_eq!(state, AuthState::Finished);
    assert_eq!(action, AuthAction::Reject { status: 500 });
}

#[test]
fn report_out_of_turn_is_an_internal_error() {
    let (_, action) = auth_middleware(AuthState::AwaitingHeader, AuthEvent::User { found: true });
    assert_eq!(action, AuthAction::Reject { status: 500 });
    let (_, action) = auth_middleware(AuthState::AwaitingUser, header("Bearer tok"));
    assert_eq!(action, AuthAction::Reject { status: 500 });
    let (_, action) = auth_middleware(AuthState::Finished, AuthEvent::User { found: true });
    assert_eq!(action, AuthAction::Reject { status: 500 });
}

#[test]
fn user_from_claims_decides_on_the_parsed_identifier() {
    assert_eq!(
        user_from_claims(Some(7)),
        (AuthState::AwaitingUser, AuthAction::LoadUser { user_id: 7 })
    );
    assert_eq!(user_from_claims(None), (AuthState::Finished, AuthAction::Reject { status: 400 }));
}
