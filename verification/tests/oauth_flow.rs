use mailtui::{
    challenge_s256, confirmation_page, percent_encode, redirect_uri_for_port, token_request_body,
    token_response, authorize_url, AuthError, CallbackListener, FlowStage, InboxState,
    ListenerStage, LoginFlow, StoreDisk,
};

#[test]
fn pkce_challenge_golden_vector() {
    // SHA-256("abc123"), base64url without padding.
    assert_eq!(challenge_s256("abc123"), "bKE9UspwyIPg8LsQHkJaiehiTeUdstI5JZOvaoQRgJA");
}

#[test]
fn pkce_challenge_is_deterministic() {
    let a = challenge_s256("some-verifier-string");
    let b = challenge_s256("some-verifier-string");
    assert_eq!(a, b);
    assert_ne!(challenge_s256("other"), a);
}

#[test]
fn fresh_attempt_has_consistent_pkce_material() {
    let flow = LoginFlow::begin("client-1", "", 8080);
    assert_eq!(flow.verifier.len(), 43);
    assert_eq!(flow.csrf_state.len(), 22);
    assert_eq!(challenge_s256(flow.verifier.as_str()), flow.challenge);
    assert_eq!(flow.stage, FlowStage::AwaitingCallback);
    assert!(flow.client_secret.is_none());
}

#[test]
fn two_attempts_use_fresh_material() {
    let a = LoginFlow::begin("c", "", 1);
    let b = LoginFlow::begin("c", "", 1);
    assert_ne!(a.verifier, b.verifier);
}

#[test]
fn redirect_uri_carries_the_exact_port() {
    assert_eq!(redirect_uri_for_port(8080), "http://127.0.0.1:8080/");
    assert_eq!(redirect_uri_for_port(1), "http://127.0.0.1:1/");
    assert_eq!(redirect_uri_for_port(65535), "http://127.0.0.1:65535/");
}

#[test]
fn percent_encoding_golden() {
    assert_eq!(percent_encode("https://mail.google.com/"), "https%3A%2F%2Fmail.google.com%2F");
    assert_eq!(percent_encode("abc-._~XYZ019"), "abc-._~XYZ019");
    assert_eq!(percent_encode("a b&c"), "a%20b%26c");
}

#[test]
fn authorization_url_is_exact() {
    let url = authorize_url("my-client", "http://127.0.0.1:4242/", "https://mail.google.com/", "S1", "CH");
    assert_eq!(
        url,
        "https://accounts.google.com/o/oauth2/v2/auth?client_id=my-client\
         &redirect_uri=http%3A%2F%2F127.0.0.1%3A4242%2F\
         &scope=https%3A%2F%2Fmail.google.com%2F\
         &response_type=code&state=S1&code_challenge=CH\
         &code_challenge_method=S256&access_type=offline&prompt=consent"
            .replace(" ", "")
            .replace("\n", "")
    );
}

#[test]
fn exchange_body_is_exact() {
    let body = token_request_body("4/0Code", "http://127.0.0.1:9/", "cid", "ver", Some("sec"));
    assert_eq!(
        body,
        "grant_type=authorization_code&code=4%2F0Code&redirect_uri=http%3A%2F%2F127.0.0.1%3A9%2F&client_id=cid&code_verifier=ver&client_secret=sec"
    );
    let public = token_request_body("c", "r", "i", "v", None);
    assert_eq!(public, "grant_type=authorization_code&code=c&redirect_uri=r&client_id=i&code_verifier=v");
}

fn awaiting_flow() -> LoginFlow {
    LoginFlow::begin("client-1", "secret-1", 7777)
}

#[test]
fn callback_with_code_and_matching_state_yields_the_code() {
    let mut flow = awaiting_flow();
    let target = format!("/?code=XYZ&state={}", flow.csrf_state);
    let code = flow.on_callback(target.as_str()).unwrap();
    assert_eq!(code, "XYZ");
    assert_eq!(flow.stage, FlowStage::CodeReceived);
}

#[test]
fn callback_decodes_percent_escapes_in_the_code() {
    let mut flow = awaiting_flow();
    let target = format!("/?code=4%2F0abc%20d&state={}", flow.csrf_state);
    let code = flow.on_callback(target.as_str()).unwrap();
    assert_eq!(code, "4/0abc d");
}

#[test]
fn callback_without_code_is_a_callback_failure_and_store_untouched() {
    let mut flow = awaiting_flow();
    let store = StoreDisk::new();
    match flow.on_callback("/?state=S1&error=access_denied") {
        Err(AuthError::CallbackFailure { .. }) => {}
        other => panic!("expected CallbackFailure, got {:?}", other),
    }
    assert_eq!(flow.stage, FlowStage::Failed);
    // nothing wrote a token record
    match store.load_token() {
        Err(AuthError::PersistenceFailure { .. }) => {}
        other => panic!("expected empty store, got {:?}", other),
    }
}

#[test]
fn callback_with_wrong_state_is_a_callback_failure() {
    let mut flow = awaiting_flow();
    match flow.on_callback("/?code=XYZ&state=not-the-nonce") {
        Err(AuthError::CallbackFailure { .. }) => {}
        other => panic!("expected CallbackFailure, got {:?}", other),
    }
    assert_eq!(flow.stage, FlowStage::Failed);
}

#[test]
fn second_callback_on_one_attempt_is_refused() {
    let mut flow = awaiting_flow();
    let target = format!("/?code=FIRST&state={}", flow.csrf_state);
    assert!(flow.on_callback(target.as_str()).is_ok());
    let again = format!("/?code=SECOND&state={}", flow.csrf_state);
    match flow.on_callback(again.as_str()) {
        Err(AuthError::CallbackFailure { .. }) => {}
        other => panic!("expected CallbackFailure, got {:?}", other),
    }
    assert_eq!(flow.stage, FlowStage::CodeReceived);
}

#[test]
fn listener_reports_its_port_and_serves_exactly_one_request() {
    let mut l = CallbackListener::start(51234);
    assert_eq!(l.port, 51234);
    assert_eq!(redirect_uri_for_port(l.port), "http://127.0.0.1:51234/");
    let first = l.take_request("/?code=XYZ&state=S1").expect("first request is served");
    let auth = first.unwrap();
    assert_eq!(auth.code, "XYZ");
    assert_eq!(auth.received_state, "S1");
    assert_eq!(l.stage, ListenerStage::Fulfilled);
    assert!(l.take_request("/?code=OTHER&state=S2").is_none());
    l.close();
    assert!(l.take_request("/?code=THIRD&state=S3").is_none());
}

#[test]
fn confirmation_page_is_nonempty_html() {
    assert!(confirmation_page().contains("<html"));
}

#[test]
fn token_response_success_builds_the_record() {
    let tok = token_response(
        200,
        "{\"access_token\": \"tok1\", \"expires_in\": 3600, \"refresh_token\": \"r9\", \"token_type\": \"Bearer\"}",
        1000,
    )
    .unwrap();
    assert_eq!(tok.access_token, "tok1");
    assert_eq!(tok.refresh_token, Some("r9".to_string()));
    assert_eq!(tok.expires_at_unix, Some(4600));
}

#[test]
fn token_response_without_expiry_leaves_it_absent() {
    let tok = token_response(200, "{\"access_token\":\"t\"}", 5).unwrap();
    assert_eq!(tok.expires_at_unix, None);
    assert_eq!(tok.refresh_token, None);
}

#[test]
fn token_response_non_2xx_carries_status_and_body() {
    match token_response(400, "{\"error\":\"invalid_grant\"}", 0) {
        Err(AuthError::ProtocolFailure { status, body }) => {
            assert_eq!(status, 400);
            assert_eq!(body, "{\"error\":\"invalid_grant\"}");
        }
        other => panic!("expected ProtocolFailure, got {:?}", other),
    }
}

#[test]
fn token_response_malformed_success_body_is_a_parse_failure() {
    match token_response(200, "{\"access_token\":", 0) {
        Err(AuthError::ParseFailure { .. }) => {}
        other => panic!("expected ParseFailure, got {:?}", other),
    }
    match token_response(204, "{\"token_type\":\"Bearer\"}", 0) {
        Err(AuthError::ParseFailure { .. }) => {}
        other => panic!("expected ParseFailure, got {:?}", other),
    }
}

#[test]
fn end_to_end_stubbed_login_persists_and_fills_the_inbox() {
    // The stubbed endpoints: the listener hands in the redirect, the token
    // endpoint answers 200 with a one-hour token.
    let mut flow = LoginFlow::begin("client-1", "", 4242);
    let mut listener = CallbackListener::start(4242);
    let target = format!("/?code=CODE9&state={}", flow.csrf_state);
    let auth = listener.take_request(target.as_str()).unwrap().unwrap();
    let code = flow.on_callback(format!("/?code={}&state={}", auth.code, auth.received_state).as_str()).unwrap();
    assert_eq!(code, "CODE9");
    let body = flow.exchange_body(code.as_str());
    assert!(body.contains("code=CODE9"));

    let now = 1_700_000_000i64;
    let tok = token_response(200, "{\"access_token\":\"tok1\", \"expires_in\":3600}", now).unwrap();
    assert_eq!(tok.access_token, "tok1");
    assert_eq!(tok.expires_at_unix, Some(now + 3600));

    let mut store = StoreDisk::new();
    store.save_token(&tok);
    let loaded = store.load_token().unwrap();
    assert_eq!(loaded.access_token, "tok1");
    assert_eq!(loaded.expires_at_unix, Some(now + 3600));

    // The background fetch, stubbed to two messages, fills the shared state.
    let mut inbox = InboxState::new();
    let msgs = vec![
        mailtui::SimpleMail {
            id: "m1".to_string(),
            subject: Some("s1".to_string()),
            from: None,
            date: None,
            snippet: None,
        },
        mailtui::SimpleMail {
            id: "m2".to_string(),
            subject: None,
            from: None,
            date: None,
            snippet: None,
        },
    ];
    inbox.set_messages(msgs);
    assert_eq!(inbox.message_count(), 2);
}

#[test]
fn callback_decodes_plus_as_space_in_state() {
    let mut l = CallbackListener::start(1);
    let auth = l.take_request("/?code=C&state=a+b").unwrap().unwrap();
    assert_eq!(auth.received_state, "a b");
}

#[test]
fn non_ascii_callback_target_is_rejected() {
    let mut l = CallbackListener::start(1);
    match l.take_request("/?code=\u{00e9}").unwrap() {
        Err(AuthError::CallbackFailure { .. }) => {}
        other => panic!("expected CallbackFailure, got {:?}", other),
    }
}

#[test]
fn callback_state_defaults_to_empty_when_absent() {
    let mut l = CallbackListener::start(1);
    let auth = l.take_request("/?code=C").unwrap().unwrap();
    assert_eq!(auth.received_state, "");
}

#[test]
fn connect_oauth_reports_not_implemented() {
    match mailtui::connect_oauth("a@example.com", "tok") {
        Err(e) => {
            assert!(matches!(e, AuthError::NetworkFailure { .. }));
            assert_eq!(e.message(), "not implemented: XOAUTH2 authenticate");
        }
        Ok(()) => panic!("expected an error"),
    }
}

#[test]
fn error_messages_carry_the_detail() {
    assert_eq!(
        AuthError::ConfigurationMissing.message(),
        "client credentials are not configured"
    );
    let p = AuthError::ProtocolFailure { status: 500, body: "boom".to_string() };
    assert_eq!(p.message(), "boom");
    let n = AuthError::NetworkFailure { detail: "down".to_string() };
    assert_eq!(n.message(), "down");
}
