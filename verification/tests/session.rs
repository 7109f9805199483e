use file_cloud::errors::AppError;
use file_cloud::session::{
    check_login, is_open_route, session_token, LoginInfo, UserInfo, SESSION_TTL_SECS,
};

#[test]
fn open_routes() {
    assert!(is_open_route("/auth/login"));
    assert!(is_open_route("/auth"));
    assert!(is_open_route("/swagger-ui/index.html"));
    assert!(is_open_route("/api-doc/openapi.json"));
    assert!(!is_open_route("/upload/1/2"));
    assert!(!is_open_route("/api-doc"));
    assert!(!is_open_route(""));
    assert!(!is_open_route("auth"));
}

#[test]
fn tokens() {
    assert_eq!(session_token("Session abc123"), Some("abc123".to_string()));
    assert_eq!(session_token("Session "), Some(String::new()));
    assert_eq!(session_token("Bearer abc123"), None);
    assert_eq!(session_token("session abc123"), None);
    assert_eq!(session_token("Session"), None);
    assert_eq!(session_token(""), None);
    assert_eq!(SESSION_TTL_SECS, 86400);
}

fn user(password_digest: &str) -> UserInfo {
    UserInfo {
        id: 1,
        is_admin: false,
        user_name: "ann".to_string(),
        password: password_digest.to_string(),
        access_key: "ak".to_string(),
        secret_key: "sk".to_string(),
        create_time: "t".to_string(),
    }
}

fn attempt(password: &str) -> LoginInfo {
    LoginInfo { user_name: "ann".to_string(), password: password.to_string() }
}

#[test]
fn login() {
    let ann = user("e10adc3949ba59abbe56e057f20f883e");
    assert!(check_login(Some(&ann), &attempt("123456")).is_ok());
    match check_login(Some(&ann), &attempt("wrong")) {
        Err(AppError::BizError(text)) => assert_eq!(text, "username.or.password.error"),
        other => panic!("unexpected {:?}", other),
    }
    match check_login(None, &attempt("123456")) {
        Err(AppError::BizError(text)) => assert_eq!(text, "username.or.password.error"),
        other => panic!("unexpected {:?}", other),
    }
}
