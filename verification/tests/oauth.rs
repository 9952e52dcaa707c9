use goose::json::Json;
use goose::oauth::callback::{delivery_page, Callback, CallbackStep, Request};
use goose::oauth::discovery::{
    checked_oidc_url, get_workspace_endpoints, oidc_url, ConfigurationReply, OAuthError,
    OidcEndpoints,
};
use goose::oauth::flow::{browser_hint, port_or_default, token_lifetime, OAuthFlow, TokenReply};
use goose::oauth::login::{next_login, LoginAction, LoginEvent, LoginState};
use goose::oauth::token::{
    cache_file_name, expiry, has_expiry, hex_text, Timestamp, TokenCache, TokenData,
};

fn text(s: &str) -> Json {
    Json::Text(s.to_string())
}

fn object(fields: Vec<(&str, Json)>) -> Json {
    Json::Object(fields.into_iter().map(|(k, v)| (k.to_string(), v)).collect())
}

fn flow() -> OAuthFlow {
    OAuthFlow {
        endpoints: OidcEndpoints {
            authorization_endpoint: "https://example.com/authorize".to_string(),
            token_endpoint: "https://example.com/token".to_string(),
        },
        client_id: "my client".to_string(),
        redirect_url: "http://localhost:8020".to_string(),
        scopes: vec!["all-apis".to_string(), "offline_access".to_string()],
        state: "st_-4".to_string(),
        verifier: "dBjftJeZ4CVP-mB92K27uhbUJU1p1r_wW1gFWFOEjXk".to_string(),
    }
}

#[test]
fn test_get_workspace_endpoints() {
    let body = object(vec![
        ("authorization_endpoint", text("https://example.com/oauth2/authorize")),
        ("token_endpoint", text("https://example.com/oauth2/token")),
    ]);
    let url = oidc_url("http://127.0.0.1:8080").unwrap();
    assert_eq!(url, "http://127.0.0.1:8080/oidc/.well-known/oauth-authorization-server");

    let endpoints = get_workspace_endpoints(&url, &ConfigurationReply::Body(body)).unwrap();

    assert_eq!(endpoints.authorization_endpoint, "https://example.com/oauth2/authorize");
    assert_eq!(endpoints.token_endpoint, "https://example.com/oauth2/token");
}

#[test]
fn test_token_cache() {
    let cache = TokenCache::new("https://example.com", "test-client", &["scope1".to_string()]);
    let now = Timestamp { secs: 1_700_000_000, nanos: 0 };
    let kept = TokenData {
        access_token: "test-token".to_string(),
        expires_at: Some(expiry(now, 3600)),
    };

    let loaded_token = cache.load_token(Some(kept), now).unwrap();
    assert_eq!(loaded_token.access_token, "test-token");
}

#[test]
fn endpoints_that_are_missing_are_named() {
    let url = "https://h/oidc";
    let refused = get_workspace_endpoints(url, &ConfigurationReply::Refused).unwrap_err();
    assert_eq!(refused.message(), "Failed to get OIDC configuration from https://h/oidc");
    let none = ConfigurationReply::Body(object(vec![("token_endpoint", text("t"))]));
    assert_eq!(
        get_workspace_endpoints(url, &none).unwrap_err().message(),
        "authorization_endpoint not found in OIDC configuration"
    );
    let half = ConfigurationReply::Body(object(vec![("authorization_endpoint", text("a"))]));
    assert_eq!(
        get_workspace_endpoints(url, &half).unwrap_err().message(),
        "token_endpoint not found in OIDC configuration"
    );
}

#[test]
fn hosts_must_be_urls() {
    assert_eq!(
        oidc_url("https://h.example/base/x").unwrap(),
        "https://h.example/base/oidc/.well-known/oauth-authorization-server"
    );
    assert_eq!(oidc_url("no url").unwrap_err(), OAuthError::InvalidHost);
    assert_eq!(oidc_url("data:text").unwrap_err(), OAuthError::InvalidOidcUrl);
    assert_eq!(OAuthError::InvalidHost.message(), "Invalid host URL");
    assert_eq!(OAuthError::InvalidOidcUrl.message(), "Invalid OIDC URL");
    assert_eq!(checked_oidc_url(None, Some("u".to_string())), Err(OAuthError::InvalidHost));
    assert_eq!(checked_oidc_url(Some("h".to_string()), Some("u".to_string())), Ok("u".to_string()));
    assert_eq!(checked_oidc_url(Some("h".to_string()), None), Err(OAuthError::InvalidOidcUrl));
}

#[test]
fn tokens_are_kept_under_the_digest_of_their_key() {
    let one = TokenCache::new("https://example.com", "test-client", &["scope1".to_string()]);
    assert_eq!(
        one.file_name,
        "7be6389d926f4a9225251cbb8f04b7d9023b4f22ea711ecba67431998b9d3ebf.json"
    );
    let two = TokenCache::new("h", "c", &["s1".to_string(), "s2".to_string()]);
    assert_eq!(two.file_name, "19e6f9b853255641c7332d113206f58a38ba95bd8b8342cff537dbc954ef20b1.json");
    assert_eq!(hex_text(&[0, 10, 255]), "000aff");
    assert_eq!(cache_file_name(&[1]), "01.json");
}

#[test]
fn expired_tokens_are_not_loaded() {
    let cache = TokenCache::new("h", "c", &[]);
    let token = |expires_at| TokenData { access_token: "t".to_string(), expires_at };
    let at = |secs, nanos| Timestamp { secs, nanos };
    assert!(cache.load_token(None, at(0, 0)).is_none());
    assert!(cache.load_token(Some(token(None)), at(0, 0)).is_some());
    assert!(cache.load_token(Some(token(Some(at(10, 5)))), at(10, 4)).is_some());
    assert!(cache.load_token(Some(token(Some(at(10, 5)))), at(10, 5)).is_none());
    assert!(cache.load_token(Some(token(Some(at(10, 5)))), at(9, 999)).is_some());
    assert!(cache.load_token(Some(token(Some(at(10, 5)))), at(11, 0)).is_none());
}

#[test]
fn expiry_moves_within_the_calendar() {
    let at = |secs, nanos| Timestamp { secs, nanos };
    assert_eq!(expiry(at(100, 7), 3600), at(3700, 7));
    assert_eq!(expiry(at(100, 7), u64::MAX), at(99, 7));
    assert_eq!(expiry(at(-100, 0), 50), at(-50, 0));
    let first = chrono::DateTime::<chrono::Utc>::MIN_UTC.timestamp();
    let last = chrono::DateTime::<chrono::Utc>::MAX_UTC.timestamp();
    assert_eq!((first, last), (-8_334_601_228_800, 8_210_266_876_799));
    assert!(has_expiry(at(last - 10, 0), 10));
    assert!(!has_expiry(at(last - 10, 0), 11));
    assert!(has_expiry(at(first + 1, 0), u64::MAX));
    assert!(!has_expiry(at(first, 0), u64::MAX));
    assert!(!has_expiry(at(0, 1_000_000_000), 1));
    assert!(!has_expiry(at(last + 1, 0), 0));
    assert!(!has_expiry(at(0, 0), i64::MAX as u64));
    assert_eq!(expiry(at(last - 10, 999_999_999), 10), at(last, 999_999_999));
}

#[test]
fn authorization_urls_carry_the_challenge() {
    let f = flow();
    // The example of RFC 7636.
    assert_eq!(f.challenge(), "E9Melhoa2OwvFrEMTJguCHaoeK1t8URWbuGJSstw-cM");
    assert_eq!(
        f.get_authorization_url(),
        "https://example.com/authorize?response_type=code&client_id=my+client&redirect_uri=http%3A%2F%2Flocalhost%3A8020&scope=all-apis+offline_access&state=st_-4&code_challenge=E9Melhoa2OwvFrEMTJguCHaoeK1t8URWbuGJSstw-cM&code_challenge_method=S256"
    );
    assert!(f.url_with_challenge("ö~*.").contains("&code_challenge=%C3%B6%7E*.&"));
}

#[test]
fn logins_have_fresh_secrets() {
    let make = || {
        let f = flow();
        OAuthFlow::new(f.endpoints, f.client_id, f.redirect_url, f.scopes)
    };
    let (one, two) = (make(), make());
    for f in [&one, &two] {
        assert_eq!(f.state.len(), 16);
        assert_eq!(f.verifier.len(), 64);
        let plain = |c: char| c.is_ascii_alphanumeric() || c == '-' || c == '_';
        assert!(f.state.chars().all(plain) && f.verifier.chars().all(plain));
        assert_eq!(f.client_id, "my client");
        assert!(f.get_authorization_url().contains(&format!("&state={}&", f.state)));
    }
    assert_ne!(one.verifier, two.verifier);
}

#[test]
fn codes_are_exchanged_with_the_secret() {
    let f = flow();
    assert_eq!(
        f.token_request("the code"),
        vec![
            ("grant_type", "authorization_code"),
            ("code", "the code"),
            ("redirect_uri", "http://localhost:8020"),
            ("code_verifier", "dBjftJeZ4CVP-mB92K27uhbUJU1p1r_wW1gFWFOEjXk"),
            ("client_id", "my client"),
        ]
    );
    let now = Timestamp { secs: 50, nanos: 3 };
    let body = object(vec![("access_token", text("tok")), ("expires_in", Json::Unsigned(10))]);
    assert_eq!(token_lifetime(&body), 10);
    assert_eq!(
        f.exchange_code_for_token(&TokenReply::Body(body), now),
        Ok(TokenData {
            access_token: "tok".to_string(),
            expires_at: Some(Timestamp { secs: 60, nanos: 3 }),
        })
    );
    let body = object(vec![("access_token", text("tok")), ("expires_in", text("10"))]);
    assert_eq!(
        f.exchange_code_for_token(&TokenReply::Body(body), now).unwrap().expires_at,
        Some(Timestamp { secs: 3650, nanos: 3 })
    );
    assert_eq!(
        f.exchange_code_for_token(&TokenReply::Body(Json::Null), now).unwrap_err().message(),
        "access_token not found in token response"
    );
    assert_eq!(
        f.exchange_code_for_token(&TokenReply::Refused("bad code".to_string()), now)
            .unwrap_err()
            .message(),
        "Failed to exchange code for token: bad code"
    );
}

#[test]
fn ports_come_from_the_redirect_address() {
    let mut f = flow();
    assert_eq!(f.callback_port(), Ok(8020));
    f.redirect_url = "http://localhost".to_string();
    assert_eq!(f.callback_port(), Ok(80));
    f.redirect_url = "http://localhost:80".to_string();
    assert_eq!(f.callback_port(), Ok(80));
    f.redirect_url = "nonsense".to_string();
    assert_eq!(
        f.callback_port().unwrap_err().message(),
        "relative URL without a base"
    );
    assert_eq!(port_or_default(Ok(None)), Ok(80));
    assert_eq!(port_or_default(Ok(Some(1))), Ok(1));
}

#[test]
fn the_code_is_delivered_once() {
    let request = |code: Option<&str>, state: Option<&str>| Request {
        code: code.map(String::from),
        state: state.map(String::from),
    };
    let page = |step| match step {
        CallbackStep::Show(text) => text,
        CallbackStep::Deliver(_) => panic!("delivered"),
    };
    let mut callback = Callback::new("s".to_string());
    assert_eq!(
        page(callback.receive(request(None, Some("s")))),
        "<h2>Error</h2><p>Authentication failed.</p>"
    );
    assert_eq!(
        page(callback.receive(request(Some("c"), None))),
        "<h2>Error</h2><p>Authentication failed.</p>"
    );
    assert_eq!(
        page(callback.receive(request(Some("c"), Some("x")))),
        "<h2>Error</h2><p>State mismatch.</p>"
    );
    match callback.receive(request(Some("c"), Some("s"))) {
        CallbackStep::Deliver(code) => assert_eq!(code, "c"),
        CallbackStep::Show(_) => panic!("not delivered"),
    }
    assert_eq!(
        page(callback.receive(request(Some("d"), Some("s")))),
        "<h2>Error</h2><p>Authentication already completed.</p>"
    );
    assert_eq!(delivery_page(true), "<h2>Login Success</h2><p>You can close this window</p>");
    assert_eq!(
        delivery_page(false),
        "<h2>Error</h2><p>Authentication already completed.</p>"
    );
}

fn endpoints() -> OidcEndpoints {
    flow().endpoints
}

fn token(text: &str, expires_at: Option<Timestamp>) -> TokenData {
    TokenData { access_token: text.to_string(), expires_at }
}

#[test]
fn a_kept_token_ends_the_login() {
    let now = Timestamp { secs: 5, nanos: 0 };
    let kept = Some(token("kept", Some(Timestamp { secs: 6, nanos: 0 })));
    let (state, action) = next_login(LoginState::Looking, LoginEvent::Kept { token: kept, now });
    assert!(matches!(action, LoginAction::Finish(Ok(text)) if text == "kept"));
    let (state, action) = next_login(state, LoginEvent::LoggedIn(Ok(token("new", None))));
    assert!(matches!(action, LoginAction::Ignore));
    assert!(matches!(state, LoginState::Done));
}

#[test]
fn a_login_saves_its_token_before_handing_it_out() {
    let now = Timestamp { secs: 5, nanos: 0 };
    let expired = Some(token("old", Some(now)));
    let (state, action) = next_login(LoginState::Looking, LoginEvent::Kept { token: expired, now });
    assert!(matches!(action, LoginAction::Discover));
    let (state, action) = next_login(state, LoginEvent::Saved(Ok(())));
    assert!(matches!(action, LoginAction::Ignore));
    let (state, action) = next_login(state, LoginEvent::Discovered(Ok(endpoints())));
    assert!(matches!(action, LoginAction::LogIn(e) if e == endpoints()));
    let (state, action) = next_login(state, LoginEvent::LoggedIn(Ok(token("new", None))));
    assert!(matches!(action, LoginAction::Save(t) if t.access_token == "new"));
    let (_, action) = next_login(state, LoginEvent::Saved(Ok(())));
    assert!(matches!(action, LoginAction::Finish(Ok(text)) if text == "new"));
}

#[test]
fn failures_end_the_login() {
    for (state, event) in [
        (LoginState::Discovering, LoginEvent::Discovered(Err("no".to_string()))),
        (LoginState::LoggingIn, LoginEvent::LoggedIn(Err("no".to_string()))),
        (
            LoginState::Saving { access_token: "t".to_string() },
            LoginEvent::Saved(Err("no".to_string())),
        ),
    ] {
        let (state, action) = next_login(state, event);
        assert!(matches!(action, LoginAction::Finish(Err(e)) if e == "no"));
        let (_, action) = next_login(state, LoginEvent::LoggedIn(Ok(token("t", None))));
        assert!(matches!(action, LoginAction::Ignore));
    }
}

#[test]
fn users_are_told_what_to_do() {
    assert_eq!(browser_hint("u"), "Please open this URL in your browser:\nu");
    assert_eq!(OAuthError::TimedOut.message(), "Authentication timed out");
}
