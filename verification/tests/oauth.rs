use qstream::error::ErrorStatus;
use qstream::oauth::{authorize_url_result, da_authorize_url, google_authorize_url, oauth_error_code};

#[test]
fn google_url() {
    let u = google_authorize_url("cid", "http://localhost:3000/api/google_oauth2", "st").unwrap();
    assert_eq!(
        u,
        "https://accounts.google.com/o/oauth2/v2/auth?client_id=cid&redirect_uri=http%3A%2F%2Flocalhost%3A3000%2Fapi%2Fgoogle_oauth2&response_type=code&scope=openid+profile&state=st&access_type=online&prompt=select_account"
    );
}

#[test]
fn donation_service_url() {
    let u = da_authorize_url("7", "https://q.example/api/da/oauth/callback", "s").unwrap();
    assert_eq!(
        u,
        "https://www.donationalerts.com/oauth/authorize?client_id=7&redirect_uri=https%3A%2F%2Fq.example%2Fapi%2Fda%2Foauth%2Fcallback&response_type=code&scope=oauth-user-show+oauth-donation-index+oauth-donation-subscribe&state=s"
    );
}

#[test]
fn provider_error_codes() {
    assert_eq!(oauth_error_code(""), "oauth_denied");
    assert_eq!(oauth_error_code("access_denied"), "oauth_provider_error");
}

#[test]
fn authorize_url_outcomes() {
    let ok = authorize_url_result(Ok("https://x.example/?a=1".to_string()), "failed to build oauth url: ");
    assert_eq!(ok.unwrap(), "https://x.example/?a=1");
    let err = authorize_url_result(Err("relative URL without a base".to_string()), "failed to build oauth url: ")
        .unwrap_err();
    assert_eq!(err.status, ErrorStatus::Internal);
    assert_eq!(err.message, "failed to build oauth url: relative URL without a base");
}
