use qstream::web::{
    build_public_session_url, extract_bearer_token, forwarded_for_last_entry, fragment_redirect_target,
    sanitize_return_to, session_code_from_return_to,
};

#[test]
fn return_paths() {
    assert_eq!(sanitize_return_to(None), "/");
    assert_eq!(sanitize_return_to(Some("/s/abc#frag")), "/s/abc");
    assert_eq!(sanitize_return_to(Some("/s/abc?x=1")), "/s/abc?x=1");
    assert_eq!(sanitize_return_to(Some("https://evil.example/")), "/");
    assert_eq!(sanitize_return_to(Some("//evil.example/")), "/");
    assert_eq!(sanitize_return_to(Some("")), "/");
    let long = format!("/{}", "a".repeat(2048));
    assert_eq!(sanitize_return_to(Some(&long)), "/");
    let just = format!("/{}", "a".repeat(2047));
    assert_eq!(sanitize_return_to(Some(&just)), just);
}

#[test]
fn sanitize_twice_is_sanitize_once() {
    for raw in ["/a#b", "x", "//y", "/s/k?z#w", "/"] {
        let once = sanitize_return_to(Some(raw));
        assert_eq!(sanitize_return_to(Some(&once)), once);
    }
}

#[test]
fn session_codes_in_return_paths() {
    assert_eq!(session_code_from_return_to("/s/abc123"), Some("abc123".to_string()));
    assert_eq!(session_code_from_return_to("//s//abc_-9/extra?x=/s/q"), Some("abc_-9".to_string()));
    assert_eq!(session_code_from_return_to("/s/abc?next=1"), Some("abc".to_string()));
    assert_eq!(session_code_from_return_to("/s/"), None);
    assert_eq!(session_code_from_return_to("/x/abc"), None);
    assert_eq!(session_code_from_return_to("/ss/abc"), None);
    assert_eq!(session_code_from_return_to("/s/ab.c"), None);
    assert_eq!(session_code_from_return_to(""), None);
}

#[test]
fn session_code_round_trip_through_public_url() {
    let url = build_public_session_url("https://q.example//", "a1b2c3d4e5");
    assert_eq!(url, "https://q.example/s/a1b2c3d4e5");
    assert_eq!(session_code_from_return_to("/s/a1b2c3d4e5"), Some("a1b2c3d4e5".to_string()));
}

#[test]
fn public_urls() {
    assert_eq!(build_public_session_url("http://localhost:5173", "abc"), "http://localhost:5173/s/abc");
    assert_eq!(build_public_session_url("", "abc"), "/s/abc");
}

#[test]
fn redirect_targets() {
    assert_eq!(fragment_redirect_target("/s/x#old", "auth_token", Some("tok")), "/s/x#auth_token=tok");
    assert_eq!(fragment_redirect_target("/s/x", "oauth_denied", None), "/s/x#auth_error=oauth_denied");
    assert_eq!(fragment_redirect_target("evil", "da_oauth", Some("ok")), "/#da_oauth=ok");
}

#[test]
fn bearer_tokens() {
    assert_eq!(extract_bearer_token("Bearer abc"), Some("abc".to_string()));
    assert_eq!(extract_bearer_token("bearer abc"), Some("abc".to_string()));
    assert_eq!(extract_bearer_token("Bearer "), None);
    assert_eq!(extract_bearer_token("Basic abc"), None);
    assert_eq!(extract_bearer_token("BEARER abc"), None);
    assert_eq!(extract_bearer_token("Bearer  two"), Some(" two".to_string()));
}

#[test]
fn forwarded_for_entries() {
    assert_eq!(forwarded_for_last_entry("1.1.1.1, 2.2.2.2"), Some("2.2.2.2".to_string()));
    assert_eq!(forwarded_for_last_entry("1.1.1.1, 2.2.2.2, "), Some("2.2.2.2".to_string()));
    assert_eq!(forwarded_for_last_entry(" 3.3.3.3 "), Some("3.3.3.3".to_string()));
    assert_eq!(forwarded_for_last_entry(" , ,"), None);
    assert_eq!(forwarded_for_last_entry(""), None);
}
