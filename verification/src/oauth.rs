use vstd::prelude::*;
use crate::error::{AppError, ErrorStatus};
use crate::donations::DA_SCOPES;

verus! {

broadcast use vstd::string::group_string_axioms;

/// The text of `base` parsed as a URL with the `pairs` appended to its query in
/// `application/x-www-form-urlencoded` form; or the text of the parse error.
pub uninterp spec fn url_with_query(base: Seq<char>, pairs: Seq<(Seq<char>, Seq<char>)>) -> Result<Seq<char>, Seq<char>>;

/// The views of name/value pairs.
pub open spec fn pairs_view(pairs: Seq<(&str, &str)>) -> Seq<(Seq<char>, Seq<char>)> {
    pairs.map_values(|p: (&str, &str)| (p.0@, p.1@))
}

/// `url::Url::parse(base)` followed by `query_pairs_mut().extend_pairs(pairs)`: the URL's
/// text, or the parse error's text. Its result is named by `url_with_query`.
#[verifier::external_body]
fn build_url(base: &str, pairs: &[(&str, &str)]) -> (r: Result<String, String>)
    ensures
        match r {
            Ok(u) => url_with_query(base@, pairs_view(pairs@)) == Ok::<Seq<char>, Seq<char>>(u@),
            Err(e) => url_with_query(base@, pairs_view(pairs@)) == Err::<Seq<char>, Seq<char>>(e@),
        },
{
    match url::Url::parse(base) {
        Ok(mut u) => {
            u.query_pairs_mut().extend_pairs(pairs.iter());
            Ok(u.to_string())
        },
        Err(err) => Err(err.to_string()),
    }
}

/// The message of an internal error about building an authorization URL.
pub open spec fn url_error_message(prefix: Seq<char>, err: Seq<char>) -> Seq<char> {
    prefix + err
}

/// The answer to a request for an authorization URL, from the outcome of building it:
/// the URL, or an internal error whose message is `error_prefix` and the build error.
pub fn authorize_url_result(built: Result<String, String>, error_prefix: &str) -> (r: Result<String, AppError>)
    ensures
        match built {
            Ok(u) => r matches Ok(s) && s@ == u@,
            Err(e) => r matches Err(x) && x.status == ErrorStatus::Internal
                && x.message@ == url_error_message(error_prefix@, e@),
        },
{
    match built {
        Ok(u) => Ok(u),
        Err(e) => {
            let mut m = error_prefix.to_owned();
            m.append(e.as_str());
            Err(AppError::internal(m.as_str()))
        },
    }
}

fn authorize_url(base: &str, pairs: &[(&str, &str)], error_prefix: &str) -> (r: Result<String, AppError>)
    ensures
        match url_with_query(base@, pairs_view(pairs@)) {
            Ok(u) => r matches Ok(s) && s@ == u,
            Err(e) => r matches Err(x) && x.status == ErrorStatus::Internal
                && x.message@ == url_error_message(error_prefix@, e),
        },
{
    authorize_url_result(build_url(base, pairs), error_prefix)
}

/// The query of a Google sign-in request.
pub open spec fn google_pairs(client_id: Seq<char>, redirect_uri: Seq<char>, state: Seq<char>) -> Seq<(Seq<char>, Seq<char>)> {
    seq![
        ("client_id"@, client_id),
        ("redirect_uri"@, redirect_uri),
        ("response_type"@, "code"@),
        ("scope"@, "openid profile"@),
        ("state"@, state),
        ("access_type"@, "online"@),
        ("prompt"@, "select_account"@),
    ]
}

/// The address of Google's consent page for a sign-in with the given state token.
pub fn google_authorize_url(client_id: &str, redirect_uri: &str, state: &str) -> (r: Result<String, AppError>)
    ensures
        match url_with_query("https://accounts.google.com/o/oauth2/v2/auth"@, google_pairs(client_id@, redirect_uri@, state@)) {
            Ok(u) => r matches Ok(s) && s@ == u,
            Err(e) => r matches Err(x) && x.status == ErrorStatus::Internal
                && x.message@ == url_error_message("failed to build oauth url: "@, e),
        },
{
    let pairs = [
        ("client_id", client_id),
        ("redirect_uri", redirect_uri),
        ("response_type", "code"),
        ("scope", "openid profile"),
        ("state", state),
        ("access_type", "online"),
        ("prompt", "select_account"),
    ];
    assert(pairs_view(pairs@) =~= google_pairs(client_id@, redirect_uri@, state@));
    authorize_url("https://accounts.google.com/o/oauth2/v2/auth", &pairs, "failed to build oauth url: ")
}

/// The query of a donation-service authorization request.
pub open spec fn da_pairs(client_id: Seq<char>, redirect_uri: Seq<char>, state: Seq<char>) -> Seq<(Seq<char>, Seq<char>)> {
    seq![
        ("client_id"@, client_id),
        ("redirect_uri"@, redirect_uri),
        ("response_type"@, "code"@),
        ("scope"@, DA_SCOPES@),
        ("state"@, state),
    ]
}

/// The address of the donation service's consent page for the given state token.
pub fn da_authorize_url(client_id: &str, redirect_uri: &str, state: &str) -> (r: Result<String, AppError>)
    ensures
        match url_with_query("https://www.donationalerts.com/oauth/authorize"@, da_pairs(client_id@, redirect_uri@, state@)) {
            Ok(u) => r matches Ok(s) && s@ == u,
            Err(e) => r matches Err(x) && x.status == ErrorStatus::Internal
                && x.message@ == url_error_message("failed to build da oauth url: "@, e),
        },
{
    let pairs = [
        ("client_id", client_id),
        ("redirect_uri", redirect_uri),
        ("response_type", "code"),
        ("scope", DA_SCOPES),
        ("state", state),
    ];
    assert(pairs_view(pairs@) =~= da_pairs(client_id@, redirect_uri@, state@));
    authorize_url("https://www.donationalerts.com/oauth/authorize", &pairs, "failed to build da oauth url: ")
}

/// The error code put in the fragment when an OAuth provider answers with an error:
/// a denial when the error is empty, a provider error otherwise.
pub fn oauth_error_code(error: &str) -> (c: &'static str)
    ensures
        c@ == if error@.len() == 0 { "oauth_denied"@ } else { "oauth_provider_error"@ },
{
    if error.is_empty() { "oauth_denied" } else { "oauth_provider_error" }
}

} // verus!
