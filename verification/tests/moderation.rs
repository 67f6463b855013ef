use qstream::error::ErrorStatus;
use qstream::moderation::{
    answering_conflict_message, check_ban, check_donation_moderation, check_question_moderation,
    donation_update_refusal, question_update_refusal, ModerateAction, ModerateDonationAction,
    QuestionStatus, StatusAction,
};

#[test]
fn status_names() {
    assert_eq!(QuestionStatus::New.as_str(), "new");
    assert_eq!(QuestionStatus::Answering.as_str(), "answering");
    assert_eq!(QuestionStatus::Answered.as_str(), "answered");
    assert_eq!(QuestionStatus::Rejected.as_str(), "rejected");
    assert_eq!(QuestionStatus::Deleted.as_str(), "deleted");
}

#[test]
fn answer_moves_new_or_rejected_to_answering_when_nothing_else_is() {
    assert_eq!(StatusAction::Answer.apply(QuestionStatus::New, false), Some(QuestionStatus::Answering));
    assert_eq!(StatusAction::Answer.apply(QuestionStatus::Rejected, false), Some(QuestionStatus::Answering));
    assert_eq!(StatusAction::Answer.apply(QuestionStatus::New, true), None);
    assert_eq!(StatusAction::Answer.apply(QuestionStatus::Answered, false), None);
}

#[test]
fn status_transitions_follow_the_moderation_rules() {
    assert_eq!(StatusAction::FinishAnswering.apply(QuestionStatus::Answering, true), Some(QuestionStatus::Answered));
    assert_eq!(StatusAction::FinishAnswering.apply(QuestionStatus::New, false), None);
    assert_eq!(StatusAction::Reject.apply(QuestionStatus::Answering, false), Some(QuestionStatus::Rejected));
    assert_eq!(StatusAction::Reject.apply(QuestionStatus::Answered, false), None);
    assert_eq!(StatusAction::Reopen.apply(QuestionStatus::Answered, false), Some(QuestionStatus::New));
    assert_eq!(StatusAction::Reopen.apply(QuestionStatus::Rejected, false), None);
}

#[test]
fn donations_are_deleted_softly_and_restored() {
    // a deleted donation keeps its row with the deleted status, and can be restored
    assert_eq!(StatusAction::Delete.apply(QuestionStatus::Answering, true), Some(QuestionStatus::Deleted));
    assert_eq!(StatusAction::Delete.apply(QuestionStatus::Deleted, false), Some(QuestionStatus::Deleted));
    assert_eq!(StatusAction::Restore.apply(QuestionStatus::Deleted, false), Some(QuestionStatus::New));
    assert_eq!(StatusAction::Restore.apply(QuestionStatus::New, false), None);
    assert_eq!(ModerateDonationAction::Restore.status_action(), StatusAction::Restore);
}

#[test]
fn update_sources_list_accepted_statuses() {
    assert_eq!(StatusAction::Answer.sources(), vec![QuestionStatus::New, QuestionStatus::Rejected]);
    assert_eq!(StatusAction::FinishAnswering.sources(), vec![QuestionStatus::Answering]);
    assert_eq!(StatusAction::Delete.sources().len(), 4);
    assert_eq!(StatusAction::Reopen.target(), QuestionStatus::New);
    assert!(StatusAction::Answer.needs_exclusive_answering());
    assert!(!StatusAction::Reject.needs_exclusive_answering());
}

#[test]
fn single_answering_item_scenario() {
    // two items; answering the first, then the second is refused while the first is answered
    let mut items = vec![QuestionStatus::New, QuestionStatus::New];
    items[0] = StatusAction::Answer.apply(items[0], false).unwrap();
    let other = items[0] == QuestionStatus::Answering;
    assert_eq!(StatusAction::Answer.apply(items[1], other), None);
    items[0] = StatusAction::FinishAnswering.apply(items[0], false).unwrap();
    assert_eq!(StatusAction::Answer.apply(items[1], false), Some(QuestionStatus::Answering));
}

#[test]
fn actions_map_to_status_changes() {
    assert_eq!(ModerateAction::Ban.status_action(), None);
    assert_eq!(ModerateAction::Delete.status_action(), Some(StatusAction::Delete));
    assert_eq!(ModerateDonationAction::Reopen.status_action(), StatusAction::Reopen);
}

#[test]
fn only_owner_moderates_questions() {
    let e = check_question_moderation(false, true, ModerateAction::Delete).unwrap_err();
    assert_eq!(e.status, ErrorStatus::Forbidden);
    assert_eq!(e.message, "only session owner can moderate questions");
}

#[test]
fn stopped_session_allows_delete_and_ban_only() {
    let e = check_question_moderation(true, false, ModerateAction::Answer).unwrap_err();
    assert_eq!(e.status.code(), 403);
    assert_eq!(e.message, "session is stopped: only delete and ban are allowed");
    assert!(check_question_moderation(true, false, ModerateAction::Delete).is_ok());
    assert!(check_question_moderation(true, false, ModerateAction::Ban).is_ok());
    assert!(check_question_moderation(true, true, ModerateAction::Reopen).is_ok());
}

#[test]
fn donation_moderation_checks() {
    let e = check_donation_moderation(false, true, ModerateDonationAction::Delete).unwrap_err();
    assert_eq!(e.message, "only session owner can moderate donations");
    let e = check_donation_moderation(true, false, ModerateDonationAction::Reject).unwrap_err();
    assert_eq!(e.message, "session is stopped: only delete is allowed");
    assert!(check_donation_moderation(true, false, ModerateDonationAction::Delete).is_ok());
}

#[test]
fn conflict_messages() {
    assert_eq!(
        answering_conflict_message(true, true),
        Some("another question or donation is already being answered in this session")
    );
    assert_eq!(answering_conflict_message(true, false), Some("another question is already being answered in this session"));
    assert_eq!(answering_conflict_message(false, true), Some("a donation is already being answered in this session"));
    assert_eq!(answering_conflict_message(false, false), None);
}

#[test]
fn refusals_of_unchanged_updates() {
    let e = question_update_refusal(StatusAction::Answer, None).unwrap();
    assert_eq!(e.status, ErrorStatus::BadRequest);
    assert_eq!(e.message, "cannot mark this question as in-progress");
    let e = question_update_refusal(StatusAction::Answer, Some("a donation is already being answered in this session")).unwrap();
    assert_eq!(e.message, "a donation is already being answered in this session");
    assert_eq!(question_update_refusal(StatusAction::FinishAnswering, None).unwrap().message, "question is not in progress of answering");
    assert_eq!(question_update_refusal(StatusAction::Reject, None).unwrap().message, "cannot reject: question is already answered or rejected");
    assert_eq!(question_update_refusal(StatusAction::Restore, None).unwrap().message, "question is not deleted");
    assert_eq!(question_update_refusal(StatusAction::Reopen, None).unwrap().message, "question is not in answering or answered state");
    assert!(question_update_refusal(StatusAction::Delete, None).is_none());
    assert_eq!(donation_update_refusal(StatusAction::Answer, None).unwrap().message, "cannot mark donation as in-progress");
    assert_eq!(donation_update_refusal(StatusAction::Restore, None).unwrap().message, "donation is not deleted");
    assert!(donation_update_refusal(StatusAction::Delete, None).is_none());
}

#[test]
fn ban_checks() {
    assert_eq!(check_ban(5, 5, false).unwrap_err().message, "cannot ban yourself");
    assert_eq!(check_ban(6, 5, true).unwrap_err().message, "user is already banned");
    assert!(check_ban(6, 5, false).is_ok());
}
