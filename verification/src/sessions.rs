use vstd::prelude::*;
use vstd::utf8::encode_utf8;
use crate::error::{AppError, ErrorStatus};
use crate::feed::QuestionSort;
use crate::text::{char_vec, count_line_breaks, line_breaks, string_of, trim_chars, trimmed};
use crate::web::{has_prefix, starts_with_chars};

verus! {

broadcast use vstd::string::group_string_axioms;

/// The view of an optional string.
pub open spec fn opt_view(o: Option<String>) -> Option<Seq<char>> {
    match o {
        Some(s) => Some(s@),
        None => None,
    }
}

/// The view of an optional string slice.
pub open spec fn opt_str_view(o: Option<&str>) -> Option<Seq<char>> {
    match o {
        Some(s) => Some(s@),
        None => None,
    }
}

/// An optional text field as it is stored: trimmed, and absent when blank.
pub open spec fn optional_text(raw: Option<Seq<char>>) -> Option<Seq<char>> {
    match raw {
        Some(r) => if trimmed(r).len() == 0 { None } else { Some(trimmed(r)) },
        None => None,
    }
}

/// The descriptive fields of a stream session, as stored.
pub struct SessionFields {
    pub name: String,
    pub description: Option<String>,
    pub stream_link: Option<String>,
}

/// Why the descriptive fields of a session are refused, if they are.
pub open spec fn session_fields_refusal(
    name: Seq<char>,
    description: Option<Seq<char>>,
    stream_link: Option<Seq<char>>,
) -> Option<Seq<char>> {
    let n = trimmed(name);
    if n.len() == 0 {
        Some("name cannot be empty"@)
    } else if n.len() > 100 {
        Some("name cannot exceed 100 characters"@)
    } else if optional_text(description) matches Some(d) && d.len() > 500 {
        Some("description cannot exceed 500 characters"@)
    } else if optional_text(stream_link) matches Some(l) && !has_prefix(l, "http://"@) && !has_prefix(l, "https://"@) {
        Some("stream_link must start with http:// or https://"@)
    } else if optional_text(stream_link) matches Some(l) && (encode_utf8(l).len() as usize) > 500 {
        Some("stream_link cannot exceed 500 characters"@)
    } else {
        None
    }
}

fn optional_trimmed(raw: Option<&str>) -> (r: Option<Vec<char>>)
    ensures
        match r {
            Some(v) => optional_text(opt_str_view(raw)) == Some(v@),
            None => optional_text(opt_str_view(raw)) is None,
        },
{
    match raw {
        Some(s) => {
            let t = trim_chars(s);
            if t.len() == 0 { None } else { Some(t) }
        },
        None => None,
    }
}

fn has_web_scheme(v: &Vec<char>) -> (b: bool)
    ensures
        b == (has_prefix(v@, "http://"@) || has_prefix(v@, "https://"@)),
{
    proof {
        reveal_strlit("http://");
        reveal_strlit("https://");
    }
    let http = char_vec("http://");
    let https = char_vec("https://");
    starts_with_chars(v.as_slice(), http.as_slice()) || starts_with_chars(v.as_slice(), https.as_slice())
}

/// The checks and normalisation of a session's name, description and stream link, as
/// creating and updating a session apply them.
pub fn validate_session_fields(
    name: &str,
    description: Option<&str>,
    stream_link: Option<&str>,
) -> (r: Result<SessionFields, AppError>)
    ensures
        r is Ok <==> session_fields_refusal(name@, opt_str_view(description), opt_str_view(stream_link)) is None,
        r matches Ok(f) ==> f.name@ == trimmed(name@)
            && opt_view(f.description) == optional_text(opt_str_view(description))
            && opt_view(f.stream_link) == optional_text(opt_str_view(stream_link)),
        r matches Err(e) ==> e.status == ErrorStatus::BadRequest
            && session_fields_refusal(name@, opt_str_view(description), opt_str_view(stream_link)) == Some(e.message@),
{
    let n = trim_chars(name);
    if n.len() == 0 {
        return Err(AppError::bad_request("name cannot be empty"));
    }
    if n.len() > 100 {
        return Err(AppError::bad_request("name cannot exceed 100 characters"));
    }
    let d = optional_trimmed(description);
    if let Some(dv) = &d {
        if dv.len() > 500 {
            return Err(AppError::bad_request("description cannot exceed 500 characters"));
        }
    }
    let l = optional_trimmed(stream_link);
    let mut link: Option<String> = None;
    if let Some(lv) = &l {
        if !has_web_scheme(lv) {
            return Err(AppError::bad_request("stream_link must start with http:// or https://"));
        }
        let ls = string_of(lv.as_slice());
        if ls.as_str().len() > 500 {
            return Err(AppError::bad_request("stream_link cannot exceed 500 characters"));
        }
        link = Some(ls);
    }
    let desc = match d {
        Some(dv) => Some(string_of(dv.as_slice())),
        None => None,
    };
    Ok(SessionFields { name: string_of(n.as_slice()), description: desc, stream_link: link })
}

/// A stream link is accepted on either web scheme: a session whose trimmed name holds 1 to
/// 100 characters, whose trimmed description (if any) holds at most 500, and whose trimmed
/// stream link starts with "http://" or with "https://" and holds at most 500 bytes, is
/// accepted. A non-blank link that starts with neither is refused for that reason, and a
/// blank name is refused first of all.
pub proof fn lemma_session_fields_rules(name: Seq<char>, description: Option<Seq<char>>, link: Seq<char>)
    ensures
        ({
            let t = trimmed(link);
            let http = t.len() >= 7 && t.take(7) == seq!['h', 't', 't', 'p', ':', '/', '/'];
            let https = t.len() >= 8 && t.take(8) == seq!['h', 't', 't', 'p', 's', ':', '/', '/'];
            &&& (1 <= trimmed(name).len() <= 100
                && (description matches Some(d) ==> trimmed(d).len() <= 500)
                && (http || https) && encode_utf8(t).len() <= 500)
                ==> session_fields_refusal(name, description, Some(link)) is None
            &&& (1 <= trimmed(name).len() <= 100
                && (description matches Some(d) ==> trimmed(d).len() <= 500)
                && t.len() > 0 && !http && !https)
                ==> session_fields_refusal(name, description, Some(link))
                    == Some("stream_link must start with http:// or https://"@)
            &&& trimmed(name).len() == 0 ==> session_fields_refusal(name, description, Some(link))
                == Some("name cannot be empty"@)
        }),
{
    reveal_strlit("http://");
    reveal_strlit("https://");
    let t = trimmed(link);
    assert("http://"@ =~= seq!['h', 't', 't', 'p', ':', '/', '/']);
    assert("https://"@ =~= seq!['h', 't', 't', 'p', 's', ':', '/', '/']);
}

/// The downvote threshold of a session: the requested one clamped to 1..=1000, or
/// `current` when none is requested.
pub open spec fn spec_downvote_threshold(requested: Option<i64>, current: i64) -> i64 {
    match requested {
        Some(t) => if t < 1 { 1 } else if t > 1000 { 1000 } else { t },
        None => current,
    }
}

/// The default downvote threshold of a new session.
pub const DEFAULT_DOWNVOTE_THRESHOLD: i64 = 5;

pub fn downvote_threshold(requested: Option<i64>, current: i64) -> (t: i64)
    ensures
        t == spec_downvote_threshold(requested, current),
        requested is Some ==> 1 <= t <= 1000,
{
    match requested {
        Some(t) => if t < 1 { 1 } else if t > 1000 { 1000 } else { t },
        None => current,
    }
}

/// Whether the donation routing of a session changes, and how.
#[derive(Debug, Clone, Copy, PartialEq, Eq, Structural)]
pub enum DonationToggle {
    Keep,
    Enable,
    Disable,
}

/// What a session update asking `requested` does to the session's donation routing.
pub fn donation_toggle(requested: Option<bool>, current_enabled: i64, session_is_active: bool) -> (r: Result<DonationToggle, AppError>)
    ensures
        match requested {
            None => r == Ok::<DonationToggle, AppError>(DonationToggle::Keep),
            Some(true) => if current_enabled == 1 {
                r == Ok::<DonationToggle, AppError>(DonationToggle::Keep)
            } else if !session_is_active {
                r matches Err(e) && e.status == ErrorStatus::Forbidden
                    && e.message@ == "cannot enable donations for a stopped session"@
            } else {
                r == Ok::<DonationToggle, AppError>(DonationToggle::Enable)
            },
            Some(false) => if current_enabled == 0 {
                r == Ok::<DonationToggle, AppError>(DonationToggle::Keep)
            } else {
                r == Ok::<DonationToggle, AppError>(DonationToggle::Disable)
            },
        },
{
    match requested {
        None => Ok(DonationToggle::Keep),
        Some(enable) => {
            let next_value: i64 = if enable { 1 } else { 0 };
            if next_value == current_enabled {
                return Ok(DonationToggle::Keep);
            }
            if next_value == 1 {
                if !session_is_active {
                    return Err(AppError::forbidden("cannot enable donations for a stopped session"));
                }
                Ok(DonationToggle::Enable)
            } else {
                Ok(DonationToggle::Disable)
            }
        },
    }
}

/// The donation routing state of a session.
#[derive(Debug, Clone, Copy, PartialEq, Eq, Structural)]
pub struct DonationRouting {
    pub enabled: i64,
    pub enabled_at: Option<i64>,
    pub min_external_id: Option<i64>,
}

/// The routing of a session whose donations were just enabled at `now`, taking donations
/// newer than `baseline`.
pub open spec fn enabled_routing(now: i64, baseline: i64) -> DonationRouting {
    DonationRouting {
        enabled: 1,
        enabled_at: Some(now),
        min_external_id: Some(if baseline < 0 { 0 } else { baseline }),
    }
}

/// The routing of a session after `toggle`.
pub fn apply_donation_toggle(toggle: DonationToggle, current: DonationRouting, now: i64, baseline: i64) -> (r: DonationRouting)
    ensures
        r == match toggle {
            DonationToggle::Keep => current,
            DonationToggle::Enable => enabled_routing(now, baseline),
            DonationToggle::Disable => DonationRouting { enabled: 0, enabled_at: None, min_external_id: None },
        },
{
    match toggle {
        DonationToggle::Keep => current,
        DonationToggle::Enable => DonationRouting {
            enabled: 1,
            enabled_at: Some(now),
            min_external_id: Some(if baseline < 0 { 0 } else { baseline }),
        },
        DonationToggle::Disable => DonationRouting { enabled: 0, enabled_at: None, min_external_id: None },
    }
}

/// The routing of a new session: it takes the owner's donations only when no other
/// active session of the owner does.
pub fn new_session_routing(owner_has_donation_session: bool, now: i64, baseline: i64) -> (r: DonationRouting)
    ensures
        r == if owner_has_donation_session {
            DonationRouting { enabled: 0, enabled_at: None, min_external_id: None }
        } else {
            enabled_routing(now, baseline)
        },
{
    if owner_has_donation_session {
        DonationRouting { enabled: 0, enabled_at: None, min_external_id: None }
    } else {
        DonationRouting {
            enabled: 1,
            enabled_at: Some(now),
            min_external_id: Some(if baseline < 0 { 0 } else { baseline }),
        }
    }
}

/// At most one of an owner's active sessions takes donations.
pub open spec fn single_donation_session(enabled: Seq<bool>) -> bool {
    forall|i: int, j: int| 0 <= i < enabled.len() && 0 <= j < enabled.len() && enabled[i] && enabled[j] ==> i == j
}

/// Donations of an owner go to one session at most: a new session takes them only when
/// no active session of the owner does, and enabling them on one session turns them off
/// on every other.
pub proof fn lemma_single_donation_session(enabled: Seq<bool>, k: int, now: i64, baseline: i64)
    requires
        single_donation_session(enabled),
    ensures
        ({
            let has = exists|i: int| 0 <= i < enabled.len() && enabled[i];
            let routing = if has {
                DonationRouting { enabled: 0, enabled_at: None, min_external_id: None }
            } else {
                enabled_routing(now, baseline)
            };
            single_donation_session(enabled.push(routing.enabled == 1))
        }),
        0 <= k < enabled.len() ==> single_donation_session(Seq::new(enabled.len(), |i: int| i == k)),
{
    let has = exists|i: int| 0 <= i < enabled.len() && enabled[i];
    let n = enabled.push(!has);
    assert forall|i: int, j: int| 0 <= i < n.len() && 0 <= j < n.len() && n[i] && n[j] implies i == j by {
        if i < enabled.len() && j < enabled.len() {
            assert(n[i] == enabled[i] && n[j] == enabled[j]);
        } else if i < enabled.len() {
            assert(n[i] == enabled[i]);
        } else if j < enabled.len() {
            assert(n[j] == enabled[j]);
        }
    }
}

/// Only the owner of a session may change it.
pub fn check_session_owner(is_owner: bool, message: &str) -> (r: Result<(), AppError>)
    ensures
        r is Ok <==> is_owner,
        r matches Err(e) ==> e.status == ErrorStatus::Forbidden && e.message@ == message@,
{
    if !is_owner {
        return Err(AppError::forbidden(message));
    }
    Ok(())
}

/// The checks before stopping a session: only its owner stops it, and only once.
pub fn check_stop_session(is_owner: bool, is_active: bool) -> (r: Result<(), AppError>)
    ensures
        r is Ok <==> is_owner && is_active,
        !is_owner ==> (r matches Err(e) && e.status == ErrorStatus::Forbidden
            && e.message@ == "only session owner can stop session"@),
        is_owner && !is_active ==> (r matches Err(e) && e.status == ErrorStatus::BadRequest
            && e.message@ == "session is already stopped"@),
{
    if !is_owner {
        return Err(AppError::forbidden("only session owner can stop session"));
    }
    if !is_active {
        return Err(AppError::bad_request("session is already stopped"));
    }
    Ok(())
}

/// The checks before deleting a session: only its owner deletes it, after stopping it.
pub fn check_delete_session(is_owner: bool, is_active: bool) -> (r: Result<(), AppError>)
    ensures
        r is Ok <==> is_owner && !is_active,
        !is_owner ==> (r matches Err(e) && e.status == ErrorStatus::Forbidden
            && e.message@ == "only session owner can delete session"@),
        is_owner && is_active ==> (r matches Err(e) && e.status == ErrorStatus::BadRequest
            && e.message@ == "stop the session before deleting it"@),
{
    if !is_owner {
        return Err(AppError::forbidden("only session owner can delete session"));
    }
    if is_active {
        return Err(AppError::bad_request("stop the session before deleting it"));
    }
    Ok(())
}

/// The check before listing a tab: only the owner sees deleted items.
pub fn check_sort_access(sort: QuestionSort, viewer_is_owner: bool) -> (r: Result<(), AppError>)
    ensures
        r is Ok <==> sort != QuestionSort::Deleted || viewer_is_owner,
        r matches Err(e) ==> e.status == ErrorStatus::Forbidden
            && e.message@ == "only session owner can view deleted questions"@,
{
    if sort == QuestionSort::Deleted && !viewer_is_owner {
        return Err(AppError::forbidden("only session owner can view deleted questions"));
    }
    Ok(())
}

/// The seconds a viewer waits before asking again: a minute after their last question,
/// never below zero.
pub fn question_cooldown_remaining(last_question_at: Option<i64>, now: i64) -> (r: i64)
    requires
        last_question_at matches Some(t) ==> i64::MIN <= t + 60 - now <= i64::MAX && t + 60 <= i64::MAX,
    ensures
        r == match last_question_at {
            Some(t) => if t + 60 - now < 0 { 0 } else { t + 60 - now },
            None => 0,
        },
        0 <= r,
        last_question_at matches Some(t) && t <= now ==> r <= 60,
{
    match last_question_at {
        Some(t) => {
            let d = t + 60 - now;
            if d < 0 { 0 } else { d }
        },
        None => 0,
    }
}

/// The checks on the asker before a question is taken: the session owner does not ask,
/// and a stopped session takes no questions.
pub fn check_question_author(is_owner: bool, session_is_active: bool) -> (r: Result<(), AppError>)
    ensures
        r is Ok <==> !is_owner && session_is_active,
        is_owner ==> (r matches Err(e) && e.status == ErrorStatus::Forbidden
            && e.message@ == "session owner cannot create questions"@),
        !is_owner && !session_is_active ==> (r matches Err(e) && e.status == ErrorStatus::Forbidden
            && e.message@ == "session is stopped"@),
{
    if is_owner {
        return Err(AppError::forbidden("session owner cannot create questions"));
    }
    if !session_is_active {
        return Err(AppError::forbidden("session is stopped"));
    }
    Ok(())
}

/// Why a question's text is refused, if it is.
pub open spec fn question_text_refusal(text: Seq<char>) -> Option<Seq<char>> {
    let t = trimmed(text);
    if t.len() < 1 || t.len() > 300 {
        Some("question text must contain 1..300 characters"@)
    } else if line_breaks(t) > 5 {
        Some("question can contain at most 5 line breaks"@)
    } else {
        None
    }
}

/// The text of a new question: trimmed, 1 to 300 characters, at most 5 line breaks.
pub fn validate_question_text(text: &str) -> (r: Result<String, AppError>)
    ensures
        r is Ok <==> question_text_refusal(text@) is None,
        r matches Ok(t) ==> t@ == trimmed(text@),
        r matches Err(e) ==> e.status == ErrorStatus::BadRequest && question_text_refusal(text@) == Some(e.message@),
{
    let t = trim_chars(text);
    if t.len() < 1 || t.len() > 300 {
        return Err(AppError::bad_request("question text must contain 1..300 characters"));
    }
    let s = string_of(t.as_slice());
    if count_line_breaks(s.as_str()) > 5 {
        return Err(AppError::bad_request("question can contain at most 5 line breaks"));
    }
    Ok(s)
}

/// A question accepted by `validate_question_text` holds 1 to 300 characters and at most
/// 5 line breaks, and has no whitespace at either end.
pub proof fn lemma_accepted_question_text(text: Seq<char>)
    requires
        question_text_refusal(text) is None,
    ensures
        1 <= trimmed(text).len() <= 300,
        line_breaks(trimmed(text)) <= 5,
{
}

/// A question is taken exactly when its trimmed text holds 1 to 300 characters (counted
/// as characters, whatever their encoded size) and at most 5 line breaks; a text of the
/// wrong length is refused for its length, and a text of the right length with more line
/// breaks for those.
pub proof fn lemma_question_text_rules(text: Seq<char>)
    ensures
        question_text_refusal(text) is None <==> (1 <= trimmed(text).len() <= 300 && line_breaks(trimmed(text)) <= 5),
        !(1 <= trimmed(text).len() <= 300) ==> question_text_refusal(text)
            == Some("question text must contain 1..300 characters"@),
        (1 <= trimmed(text).len() <= 300 && line_breaks(trimmed(text)) > 5) ==> question_text_refusal(text)
            == Some("question can contain at most 5 line breaks"@),
{
}

/// The answer to an attempt to add a question, from how many rows the rate-limited insert
/// (`QUESTION_INSERT_SQL`) added: none means the author asked within the last minute.
pub fn check_question_inserted(rows_added: u64) -> (r: Result<(), AppError>)
    ensures
        r is Ok <==> rows_added > 0,
        r matches Err(e) ==> e.status == ErrorStatus::TooManyRequests
            && e.message@ == "you can post only one question per minute"@,
{
    if rows_added == 0 {
        return Err(AppError::too_many_requests("you can post only one question per minute"));
    }
    Ok(())
}

/// The most event streams one client address may hold open.
pub const SSE_CONNECTIONS_PER_IP: usize = 3;

/// The count of a client address after admitting one more event stream, or `None` when
/// it already holds the most it may.
pub open spec fn admitted(current: usize) -> Option<usize> {
    if current >= SSE_CONNECTIONS_PER_IP { None } else { Some((current + 1) as usize) }
}

/// The count of a client address after one of its event streams closes; `None` when it
/// holds no stream any more and is forgotten.
pub open spec fn released(current: usize) -> Option<usize> {
    if current <= 1 { None } else { Some((current - 1) as usize) }
}

/// Admits one more event stream of a client address that holds `current` of them.
pub fn admit_sse_connection(current: usize) -> (r: Result<usize, AppError>)
    ensures
        match admitted(current) {
            Some(n) => r == Ok::<usize, AppError>(n),
            None => r matches Err(e) && e.status == ErrorStatus::TooManyRequests
                && e.message@ == "too many SSE connections from this IP"@,
        },
{
    if current >= SSE_CONNECTIONS_PER_IP {
        return Err(AppError::too_many_requests("too many SSE connections from this IP"));
    }
    Ok(current + 1)
}

/// The count of a client address after one of its event streams closes.
pub fn release_sse_connection(current: usize) -> (r: Option<usize>)
    ensures
        r == released(current),
{
    let remaining = if current == 0 { 0 } else { current - 1 };
    if remaining == 0 { None } else { Some(remaining) }
}

/// A client address never holds more than three event streams at once, and closing a
/// stream undoes opening it (a forgotten address counts as holding none).
pub proof fn lemma_sse_admit_release(current: usize)
    requires
        current <= SSE_CONNECTIONS_PER_IP,
    ensures
        admitted(current) matches Some(n) ==> n <= SSE_CONNECTIONS_PER_IP
            && released(n) == (if current == 0 { None::<usize> } else { Some(current) }),
        current == SSE_CONNECTIONS_PER_IP ==> admitted(current) is None,
{
}

/// An auth session's last-seen time is refreshed when it is ten minutes old or more.
pub const AUTH_SESSION_TOUCH_INTERVAL_SECS: i64 = 600;

/// Whether an auth session last seen at `last_seen_at` is touched at `now`.
pub fn auth_session_needs_touch(last_seen_at: i64, now: i64) -> (b: bool)
    requires
        now >= i64::MIN + AUTH_SESSION_TOUCH_INTERVAL_SECS,
    ensures
        b == (last_seen_at <= now - AUTH_SESSION_TOUCH_INTERVAL_SECS),
{
    last_seen_at <= now - AUTH_SESSION_TOUCH_INTERVAL_SECS
}

/// How many fresh public codes a new session tries before giving up.
pub const SESSION_CODE_ATTEMPTS: usize = 8;

} // verus!
