use personal_assistant::auth::{
    build_authorization_url, generate_state, initiate_oauth_flow, parse_oauth_callback,
    AuthResponse, AuthState, UserInfo, CLIENT_ID, DEV_REDIRECT_URI, GOOGLE_AUTH_URL,
};
use personal_assistant::session::{check_exchange_status, App, AppPhase, ExchangeError};
use personal_assistant::urlencoding::encode;

fn sample_response() -> AuthResponse {
    AuthResponse {
        token: "t1".to_string(),
        user: UserInfo {
            id: 1,
            google_id: "g1".to_string(),
            email: "e@x.com".to_string(),
            name: "E".to_string(),
        },
    }
}

#[test]
fn encode_keeps_unreserved() {
    assert_eq!(encode("AZaz09-_.~"), "AZaz09-_.~");
    assert_eq!(encode(""), "");
}

#[test]
fn encode_escapes_other_bytes() {
    assert_eq!(encode("openid email profile"), "openid%20email%20profile");
    assert_eq!(encode("http://localhost:8080/"), "http%3A%2F%2Flocalhost%3A8080%2F");
    assert_eq!(encode("a&b=c+d%"), "a%26b%3Dc%2Bd%25");
    assert_eq!(encode("é"), "%C3%A9");
}

#[test]
fn authorization_url_is_exact() {
    let url = build_authorization_url("abc", DEV_REDIRECT_URI);
    let expected = format!(
        "{}?client_id={}&redirect_uri=http%3A%2F%2Flocalhost%3A8080%2F&response_type=code&scope=openid%20email%20profile&state=abc&access_type=online",
        GOOGLE_AUTH_URL,
        encode(CLIENT_ID)
    );
    assert_eq!(url, expected);
    assert!(url.starts_with("https://accounts.google.com/o/oauth2/v2/auth?client_id=126932716262-"));
}

#[test]
fn initiate_flow_embeds_fresh_state() {
    let (state, url) = initiate_oauth_flow(DEV_REDIRECT_URI);
    assert_eq!(state.len(), 36);
    assert!(uuid_v4_shape(&state));
    assert_eq!(url, build_authorization_url(&state, DEV_REDIRECT_URI));
    assert!(url.contains(&format!("&state={}&", state)));
}

#[test]
fn generated_states_differ_and_are_not_empty() {
    let a = generate_state();
    let b = generate_state();
    assert!(!a.is_empty());
    assert!(!b.is_empty());
    assert_ne!(a, b);
    assert_eq!(a.len(), 36);
    assert!(uuid_v4_shape(&a) && uuid_v4_shape(&b));
}

fn uuid_v4_shape(s: &str) -> bool {
    let c: Vec<char> = s.chars().collect();
    c.len() == 36
        && c.iter().enumerate().all(|(i, ch)| {
            if [8, 13, 18, 23].contains(&i) {
                *ch == '-'
            } else {
                ch.is_ascii_digit() || ('a'..='f').contains(ch)
            }
        })
        && c[14] == '4'
        && "89ab".contains(c[19])
}

#[test]
fn parse_callback_finds_code_and_state() {
    assert_eq!(
        parse_oauth_callback("?code=xyz&state=abc"),
        Some(("xyz".to_string(), "abc".to_string()))
    );
    assert_eq!(
        parse_oauth_callback("state=abc&scope=email&code=xyz"),
        Some(("xyz".to_string(), "abc".to_string()))
    );
    assert_eq!(
        parse_oauth_callback("?code=4%2F0A+b%zz&state=s"),
        Some(("4/0A b%zz".to_string(), "s".to_string()))
    );
}

#[test]
fn parse_callback_needs_both_params() {
    assert_eq!(parse_oauth_callback(""), None);
    assert_eq!(parse_oauth_callback("?"), None);
    assert_eq!(parse_oauth_callback("?code=xyz"), None);
    assert_eq!(parse_oauth_callback("?state=abc"), None);
    assert_eq!(parse_oauth_callback("?codex=1&state=abc"), None);
}

#[test]
fn parse_callback_reads_values_like_a_browser() {
    assert_eq!(
        parse_oauth_callback("?code=%FF&state=abc"),
        Some(("\u{FFFD}".to_string(), "abc".to_string()))
    );
    assert_eq!(
        parse_oauth_callback("?code&state=x"),
        Some(("".to_string(), "x".to_string()))
    );
    assert_eq!(
        parse_oauth_callback("?%63ode=c1&st%61te=s1"),
        Some(("c1".to_string(), "s1".to_string()))
    );
    assert_eq!(
        parse_oauth_callback("?code=a=b&state=&code=second"),
        Some(("a=b".to_string(), "".to_string()))
    );
}

#[test]
fn callback_round_trip_recovers_code_and_state() {
    let (state, _url) = initiate_oauth_flow(DEV_REDIRECT_URI);
    let code = "4/0AbC-d e&f=g é";
    let search = format!("?code={}&state={}", encode(code), encode(&state));
    assert_eq!(parse_oauth_callback(&search), Some((code.to_string(), state)));
}

#[test]
fn matching_state_proceeds_to_exchange() {
    let mut app = App::new();
    let fx = app.on_mount(Some(("c1".to_string(), "abc".to_string())), Some("abc".to_string()));
    assert!(matches!(app.phase, AppPhase::Authenticating));
    assert_eq!(fx.exchange_code, Some("c1".to_string()));
    assert!(fx.clear_saved_state);
    assert!(fx.clear_url);
}

#[test]
fn mismatched_state_resets_without_exchange() {
    let mut app = App::new();
    let fx = app.on_mount(Some(("c1".to_string(), "xyz".to_string())), Some("abc".to_string()));
    assert!(matches!(app.phase, AppPhase::Unauthenticated));
    assert_eq!(fx.exchange_code, None);
    assert!(!fx.clear_saved_state);
    assert!(fx.clear_url);
}

#[test]
fn missing_saved_state_resets_without_exchange() {
    let mut app = App::new();
    let fx = app.on_mount(Some(("any".to_string(), "thing".to_string())), None);
    assert!(matches!(app.phase, AppPhase::Unauthenticated));
    assert_eq!(fx.exchange_code, None);
    assert!(fx.clear_url);
    assert!(!app.auth.is_authenticated());
}

#[test]
fn no_callback_follows_existing_session() {
    let mut app = App::new();
    assert!(matches!(app.phase, AppPhase::CheckingAuth));
    let fx = app.on_mount(None, Some("abc".to_string()));
    assert!(matches!(app.phase, AppPhase::Unauthenticated));
    assert!(fx.exchange_code.is_none() && !fx.clear_url && !fx.clear_saved_state);

    let mut app = App::new();
    app.auth = AuthState { token: Some("t0".to_string()), user: None };
    app.on_mount(None, None);
    assert!(matches!(app.phase, AppPhase::Authenticated));
}

#[test]
fn successful_exchange_authenticates() {
    let mut app = App::new();
    app.on_mount(Some(("c1".to_string(), "abc".to_string())), Some("abc".to_string()));
    assert_eq!(check_exchange_status(200).is_ok(), true);
    app.complete_exchange(Ok(sample_response()));
    assert!(matches!(app.phase, AppPhase::Authenticated));
    assert_eq!(app.auth.token.as_deref(), Some("t1"));
    let user = app.auth.user.clone().unwrap();
    assert_eq!(user.id, 1);
    assert_eq!(user.google_id, "g1");
    assert_eq!(user.email, "e@x.com");
    assert_eq!(user.name, "E");
    assert!(app.auth.is_authenticated());
    assert_eq!(app.resource_token(), Some("t1".to_string()));
}

#[test]
fn rejected_exchange_fails_with_empty_session() {
    let mut app = App::new();
    app.on_mount(Some(("c1".to_string(), "abc".to_string())), Some("abc".to_string()));
    let status = check_exchange_status(401);
    assert!(matches!(status, Err(ExchangeError::AuthServer(401))));
    app.complete_exchange(Err(ExchangeError::AuthServer(401)));
    assert!(matches!(app.phase, AppPhase::Failed(ExchangeError::AuthServer(401))));
    assert!(app.auth.token.is_none());
    assert!(app.auth.user.is_none());
    assert_eq!(app.resource_token(), None);
}

#[test]
fn other_exchange_failures_are_kept_apart() {
    let mut app = App::new();
    app.complete_exchange(Err(ExchangeError::Network("offline".to_string())));
    assert!(matches!(app.phase, AppPhase::Failed(ExchangeError::Network(_))));
    app.complete_exchange(Err(ExchangeError::Decode("bad body".to_string())));
    assert!(matches!(app.phase, AppPhase::Failed(ExchangeError::Decode(_))));
    assert!(app.auth.token.is_none());
}

#[test]
fn status_check_bounds() {
    assert!(check_exchange_status(200).is_ok());
    assert!(check_exchange_status(204).is_ok());
    assert!(check_exchange_status(299).is_ok());
    assert!(matches!(check_exchange_status(199), Err(ExchangeError::AuthServer(199))));
    assert!(matches!(check_exchange_status(300), Err(ExchangeError::AuthServer(300))));
    assert!(matches!(check_exchange_status(500), Err(ExchangeError::AuthServer(500))));
}

#[test]
fn sign_out_clears_session_and_stops_fetches() {
    let mut app = App::new();
    app.complete_exchange(Ok(sample_response()));
    assert_eq!(app.resource_token(), Some("t1".to_string()));
    app.sign_out();
    assert!(matches!(app.phase, AppPhase::Unauthenticated));
    assert!(app.auth.token.is_none());
    assert!(app.auth.user.is_none());
    assert_eq!(app.resource_token(), None);

    app.on_mount(None, None);
    assert_eq!(app.resource_token(), None);
    app.on_mount(Some(("c".to_string(), "s".to_string())), Some("s".to_string()));
    assert_eq!(app.resource_token(), None);
    app.complete_exchange(Err(ExchangeError::AuthServer(401)));
    assert_eq!(app.resource_token(), None);
    app.complete_exchange(Ok(sample_response()));
    assert_eq!(app.resource_token(), Some("t1".to_string()));
}

#[test]
fn cleaned_address_yields_no_callback() {
    let mut app = App::new();
    let fx = app.on_mount(parse_oauth_callback("?code=c&state=s"), Some("s".to_string()));
    assert!(fx.clear_url);
    assert_eq!(parse_oauth_callback(""), None);
    assert_eq!(parse_oauth_callback(""), None);
}

#[test]
fn default_session_is_empty() {
    let s = AuthState::default();
    assert!(!s.is_authenticated());
    assert!(s.user.is_none());
}

#[test]
fn failure_messages_name_their_kind() {
    assert_eq!(ExchangeError::AuthServer(401).message(), "Authentication failed: 401");
    assert_eq!(ExchangeError::AuthServer(0).message(), "Authentication failed: 0");
    assert_eq!(ExchangeError::AuthServer(65535).message(), "Authentication failed: 65535");
    assert_eq!(
        ExchangeError::Network("Failed to send request: offline".to_string()).message(),
        "Failed to send request: offline"
    );
    assert_eq!(
        ExchangeError::Decode("Failed to parse response: eof".to_string()).message(),
        "Failed to parse response: eof"
    );
}
