use qstream::error::ErrorStatus;
use qstream::feed::QuestionSort;
use qstream::sessions::{
    admit_sse_connection, apply_donation_toggle, auth_session_needs_touch, check_delete_session,
    check_question_author, check_question_inserted, check_session_owner, check_sort_access, check_stop_session, donation_toggle,
    downvote_threshold, new_session_routing, question_cooldown_remaining, release_sse_connection,
    validate_question_text, validate_session_fields, DonationRouting, DonationToggle,
    DEFAULT_DOWNVOTE_THRESHOLD,
};

#[test]
fn session_fields_are_trimmed() {
    let f = validate_session_fields("  Stream  ", Some("  "), Some(" https://x.example ")).unwrap();
    assert_eq!(f.name, "Stream");
    assert_eq!(f.description, None);
    assert_eq!(f.stream_link, Some("https://x.example".to_string()));
    let f = validate_session_fields("S", Some(" d "), None).unwrap();
    assert_eq!(f.description, Some("d".to_string()));
    assert_eq!(f.stream_link, None);
}

#[test]
fn session_field_refusals() {
    let e = validate_session_fields("   ", None, None).err().unwrap();
    assert_eq!(e.status, ErrorStatus::BadRequest);
    assert_eq!(e.message, "name cannot be empty");
    let long = "n".repeat(101);
    assert_eq!(validate_session_fields(&long, None, None).err().unwrap().message, "name cannot exceed 100 characters");
    assert!(validate_session_fields(&"n".repeat(100), None, None).is_ok());
    let d = "d".repeat(501);
    assert_eq!(validate_session_fields("n", Some(&d), None).err().unwrap().message, "description cannot exceed 500 characters");
    assert_eq!(
        validate_session_fields("n", None, Some("ftp://x")).err().unwrap().message,
        "stream_link must start with http:// or https://"
    );
    let link = format!("https://{}", "a".repeat(493));
    assert_eq!(validate_session_fields("n", None, Some(&link)).err().unwrap().message, "stream_link cannot exceed 500 characters");
    let ok_link = format!("https://{}", "a".repeat(492));
    assert!(validate_session_fields("n", None, Some(&ok_link)).is_ok());
    // the link limit counts bytes
    let wide = format!("https://{}", "é".repeat(247));
    assert_eq!(validate_session_fields("n", None, Some(&wide)).err().unwrap().message, "stream_link cannot exceed 500 characters");
}

#[test]
fn downvote_thresholds() {
    assert_eq!(downvote_threshold(None, DEFAULT_DOWNVOTE_THRESHOLD), 5);
    assert_eq!(downvote_threshold(Some(0), 5), 1);
    assert_eq!(downvote_threshold(Some(5000), 5), 1000);
    assert_eq!(downvote_threshold(Some(42), 5), 42);
    assert_eq!(downvote_threshold(None, 17), 17);
}

#[test]
fn donation_toggles() {
    assert_eq!(donation_toggle(None, 1, true).unwrap(), DonationToggle::Keep);
    assert_eq!(donation_toggle(Some(true), 1, true).unwrap(), DonationToggle::Keep);
    assert_eq!(donation_toggle(Some(true), 0, true).unwrap(), DonationToggle::Enable);
    assert_eq!(donation_toggle(Some(false), 1, false).unwrap(), DonationToggle::Disable);
    let e = donation_toggle(Some(true), 0, false).unwrap_err();
    assert_eq!(e.status, ErrorStatus::Forbidden);
    assert_eq!(e.message, "cannot enable donations for a stopped session");
}

#[test]
fn donation_routing() {
    let cur = DonationRouting { enabled: 0, enabled_at: None, min_external_id: None };
    assert_eq!(apply_donation_toggle(DonationToggle::Keep, cur, 10, 5), cur);
    assert_eq!(
        apply_donation_toggle(DonationToggle::Enable, cur, 10, -3),
        DonationRouting { enabled: 1, enabled_at: Some(10), min_external_id: Some(0) }
    );
    let on = DonationRouting { enabled: 1, enabled_at: Some(3), min_external_id: Some(9) };
    assert_eq!(apply_donation_toggle(DonationToggle::Disable, on, 10, 5), cur);
    assert_eq!(new_session_routing(true, 10, 7), cur);
    assert_eq!(new_session_routing(false, 10, 7), DonationRouting { enabled: 1, enabled_at: Some(10), min_external_id: Some(7) });
}

#[test]
fn owner_checks() {
    assert_eq!(check_session_owner(false, "only session owner can update session info").unwrap_err().message, "only session owner can update session info");
    assert!(check_session_owner(true, "x").is_ok());
    assert_eq!(check_stop_session(false, true).unwrap_err().message, "only session owner can stop session");
    assert_eq!(check_stop_session(true, false).unwrap_err().message, "session is already stopped");
    assert!(check_stop_session(true, true).is_ok());
    assert_eq!(check_delete_session(false, false).unwrap_err().message, "only session owner can delete session");
    assert_eq!(check_delete_session(true, true).unwrap_err().message, "stop the session before deleting it");
    assert!(check_delete_session(true, false).is_ok());
}

#[test]
fn deleted_tab_is_for_owner() {
    let e = check_sort_access(QuestionSort::Deleted, false).unwrap_err();
    assert_eq!(e.status, ErrorStatus::Forbidden);
    assert_eq!(e.message, "only session owner can view deleted questions");
    assert!(check_sort_access(QuestionSort::Deleted, true).is_ok());
    assert!(check_sort_access(QuestionSort::Top, false).is_ok());
}

#[test]
fn cooldowns() {
    assert_eq!(question_cooldown_remaining(None, 1000), 0);
    assert_eq!(question_cooldown_remaining(Some(990), 1000), 50);
    assert_eq!(question_cooldown_remaining(Some(900), 1000), 0);
    assert_eq!(question_cooldown_remaining(Some(1000), 1000), 60);
}

#[test]
fn question_authors_and_texts() {
    assert_eq!(check_question_author(true, true).unwrap_err().message, "session owner cannot create questions");
    assert_eq!(check_question_author(false, false).unwrap_err().message, "session is stopped");
    assert!(check_question_author(false, true).is_ok());
    assert_eq!(validate_question_text("  why?  ").unwrap(), "why?");
    assert_eq!(validate_question_text("   ").unwrap_err().message, "question text must contain 1..300 characters");
    assert_eq!(validate_question_text(&"q".repeat(301)).unwrap_err().message, "question text must contain 1..300 characters");
    assert!(validate_question_text(&"q".repeat(300)).is_ok());
    assert_eq!(validate_question_text("a\nb\nc\nd\ne\nf\ng").unwrap_err().message, "question can contain at most 5 line breaks");
    assert!(validate_question_text("a\r\nb\r\nc\r\nd\r\ne\r\nf").is_ok());
}

#[test]
fn sse_connection_limit() {
    assert_eq!(admit_sse_connection(0).unwrap(), 1);
    assert_eq!(admit_sse_connection(2).unwrap(), 3);
    let e = admit_sse_connection(3).unwrap_err();
    assert_eq!(e.status.code(), 429);
    assert_eq!(e.message, "too many SSE connections from this IP");
    assert_eq!(release_sse_connection(3), Some(2));
    assert_eq!(release_sse_connection(1), None);
    assert_eq!(release_sse_connection(0), None);
    let n = admit_sse_connection(2).unwrap();
    assert_eq!(release_sse_connection(n), Some(2));
}

#[test]
fn auth_touch() {
    assert!(auth_session_needs_touch(400, 1000));
    assert!(!auth_session_needs_touch(401, 1000));
}

#[test]
fn one_question_per_minute() {
    assert!(check_question_inserted(1).is_ok());
    let e = check_question_inserted(0).unwrap_err();
    assert_eq!(e.status, ErrorStatus::TooManyRequests);
    assert_eq!(e.message, "you can post only one question per minute");
}
