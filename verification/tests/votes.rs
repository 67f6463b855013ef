use qstream::error::ErrorStatus;
use qstream::moderation::QuestionStatus;
use qstream::votes::{
    check_not_banned, check_vote_rate, check_vote_target, check_vote_value, vote_change, VoteWrite,
};

#[test]
fn vote_values() {
    assert!(check_vote_value(-1).is_ok());
    assert!(check_vote_value(0).is_ok());
    assert!(check_vote_value(1).is_ok());
    let e = check_vote_value(2).unwrap_err();
    assert_eq!(e.status, ErrorStatus::BadRequest);
    assert_eq!(e.message, "vote value must be -1, 0, or 1");
}

#[test]
fn vote_targets() {
    assert_eq!(check_vote_target(true, true, QuestionStatus::New).unwrap_err().message, "session owner cannot vote for questions");
    assert_eq!(check_vote_target(false, false, QuestionStatus::New).unwrap_err().message, "session is stopped");
    assert_eq!(
        check_vote_target(false, true, QuestionStatus::Answering).unwrap_err().message,
        "cannot vote for answered or in-progress questions"
    );
    assert_eq!(
        check_vote_target(false, true, QuestionStatus::Answered).unwrap_err().message,
        "cannot vote for answered or in-progress questions"
    );
    assert_eq!(check_vote_target(false, true, QuestionStatus::Rejected).unwrap_err().message, "cannot vote for rejected questions");
    assert_eq!(check_vote_target(false, true, QuestionStatus::Deleted).unwrap_err().message, "cannot vote for deleted questions");
    assert!(check_vote_target(false, true, QuestionStatus::New).is_ok());
}

#[test]
fn banned_and_rate_limited_voters() {
    let e = check_not_banned(true).unwrap_err();
    assert_eq!(e.status, ErrorStatus::Forbidden);
    assert_eq!(e.message, "you are banned in this session");
    assert!(check_not_banned(false).is_ok());
    assert!(check_vote_rate(200).is_ok());
    let e = check_vote_rate(201).unwrap_err();
    assert_eq!(e.status.code(), 429);
    assert_eq!(e.message, "too many votes, please slow down");
}

#[test]
fn vote_changes() {
    let c = vote_change(None, 0);
    assert_eq!((c.delta, c.user_vote, c.write), (0, 0, VoteWrite::Keep));
    let c = vote_change(None, 1);
    assert_eq!((c.delta, c.user_vote, c.write), (1, 1, VoteWrite::Insert));
    let c = vote_change(Some(1), 0);
    assert_eq!((c.delta, c.user_vote, c.write), (-1, 0, VoteWrite::Remove));
    let c = vote_change(Some(1), -1);
    assert_eq!((c.delta, c.user_vote, c.write), (-2, -1, VoteWrite::Update));
    let c = vote_change(Some(-1), -1);
    assert_eq!((c.delta, c.user_vote, c.write), (0, -1, VoteWrite::Update));
}

#[test]
fn vote_then_retract_restores_score() {
    let mut score = 4;
    let first = vote_change(None, -1);
    score += first.delta;
    assert_eq!(score, 3);
    let second = vote_change(Some(first.user_vote), 0);
    score += second.delta;
    assert_eq!(score, 4);
}
