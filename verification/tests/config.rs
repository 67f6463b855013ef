use qstream::config::{busy_retry, contains_str, database_url, default_da_redirect_uri, is_sqlite_busy_error, parse_flag};

#[test]
fn database_urls() {
    assert_eq!(database_url("sqlite://qstream.db"), "sqlite://qstream.db?mode=rwc");
    assert_eq!(database_url("sqlite://q.db?cache=shared"), "sqlite://q.db?cache=shared&mode=rwc");
    assert_eq!(database_url("sqlite://q.db?mode=ro"), "sqlite://q.db?mode=ro");
    assert_eq!(database_url("postgres://x"), "postgres://x");
}

#[test]
fn flags() {
    for v in ["1", "true", "TRUE", "Yes", "on", "ON"] {
        assert!(parse_flag(v), "{v}");
    }
    for v in ["0", "false", "", " on", "y"] {
        assert!(!parse_flag(v), "{v}");
    }
}

#[test]
fn da_redirect_default() {
    assert_eq!(default_da_redirect_uri("http://localhost:5173/"), "http://localhost:5173/api/da/oauth/callback");
    assert_eq!(default_da_redirect_uri("https://q.example"), "https://q.example/api/da/oauth/callback");
}

#[test]
fn busy_errors() {
    assert!(is_sqlite_busy_error(Some("5"), "x"));
    assert!(!is_sqlite_busy_error(Some("55"), "x"));
    assert!(is_sqlite_busy_error(None, "error: database is locked now"));
    assert!(is_sqlite_busy_error(Some("1"), "database is busy"));
    assert!(!is_sqlite_busy_error(None, "database is fine"));
    assert!(contains_str("abc", ""));
    assert!(!contains_str("", "a"));
}

#[test]
fn busy_retries() {
    assert_eq!(busy_retry(0, true), Some((1, 250)));
    assert_eq!(busy_retry(1, true), Some((2, 500)));
    assert_eq!(busy_retry(2, true), Some((3, 750)));
    assert_eq!(busy_retry(3, true), None);
    assert_eq!(busy_retry(0, false), None);
}
