use vstd::prelude::*;
use crate::error::{AppError, ErrorStatus};
use crate::moderation::QuestionStatus;

verus! {

/// The most vote actions a user may take within a minute.
pub const VOTE_ACTIONS_PER_MINUTE: i64 = 200;

/// A vote is -1 (down), 0 (retract) or 1 (up).
pub open spec fn valid_vote_value(value: i64) -> bool {
    value == -1 || value == 0 || value == 1
}

pub fn check_vote_value(value: i64) -> (r: Result<(), AppError>)
    ensures
        r is Ok <==> valid_vote_value(value),
        r matches Err(e) ==> e.status == ErrorStatus::BadRequest && e.message@ == "vote value must be -1, 0, or 1"@,
{
    if value != -1 && value != 0 && value != 1 {
        return Err(AppError::bad_request("vote value must be -1, 0, or 1"));
    }
    Ok(())
}

/// The checks on the voter and the question before a vote: the session owner cannot vote,
/// a stopped session takes no votes, and only a question in `New` state takes votes.
pub fn check_vote_target(is_owner: bool, session_is_active: bool, status: QuestionStatus) -> (r: Result<(), AppError>)
    ensures
        r is Ok <==> !is_owner && session_is_active && status == QuestionStatus::New,
        is_owner ==> (r matches Err(e) && e.status == ErrorStatus::Forbidden
            && e.message@ == "session owner cannot vote for questions"@),
        !is_owner && !session_is_active ==> (r matches Err(e) && e.status == ErrorStatus::Forbidden
            && e.message@ == "session is stopped"@),
        !is_owner && session_is_active ==> (r matches Err(e) ==> e.status == ErrorStatus::BadRequest && e.message@ == (
            match status {
                QuestionStatus::Rejected => "cannot vote for rejected questions"@,
                QuestionStatus::Deleted => "cannot vote for deleted questions"@,
                _ => "cannot vote for answered or in-progress questions"@,
            })),
{
    if is_owner {
        return Err(AppError::forbidden("session owner cannot vote for questions"));
    }
    if !session_is_active {
        return Err(AppError::forbidden("session is stopped"));
    }
    match status {
        QuestionStatus::New => Ok(()),
        QuestionStatus::Answering | QuestionStatus::Answered => Err(
            AppError::bad_request("cannot vote for answered or in-progress questions"),
        ),
        QuestionStatus::Rejected => Err(AppError::bad_request("cannot vote for rejected questions")),
        QuestionStatus::Deleted => Err(AppError::bad_request("cannot vote for deleted questions")),
    }
}

/// The refusal of a banned user.
pub fn check_not_banned(banned: bool) -> (r: Result<(), AppError>)
    ensures
        r is Ok <==> !banned,
        r matches Err(e) ==> e.status == ErrorStatus::Forbidden && e.message@ == "you are banned in this session"@,
{
    if banned {
        return Err(AppError::forbidden("you are banned in this session"));
    }
    Ok(())
}

/// The rate limit on votes, given the number of vote actions of the user in the last
/// minute, the current one included.
pub fn check_vote_rate(actions_last_minute: i64) -> (r: Result<(), AppError>)
    ensures
        r is Ok <==> actions_last_minute <= VOTE_ACTIONS_PER_MINUTE,
        r matches Err(e) ==> e.status == ErrorStatus::TooManyRequests
            && e.message@ == "too many votes, please slow down"@,
{
    if actions_last_minute > VOTE_ACTIONS_PER_MINUTE {
        return Err(AppError::too_many_requests("too many votes, please slow down"));
    }
    Ok(())
}

/// What a vote does to the stored vote row of the voter.
#[derive(Debug, Clone, Copy, PartialEq, Eq, Structural)]
pub enum VoteWrite {
    Keep,
    Insert,
    Remove,
    Update,
}

/// The effect of one vote: the change of the question's score, the voter's vote
/// afterwards, and the write to the stored vote row.
#[derive(Debug, Clone, Copy, PartialEq, Eq, Structural)]
pub struct VoteChange {
    pub delta: i64,
    pub user_vote: i64,
    pub write: VoteWrite,
}

/// The stored vote of the voter after voting `value` (0 retracts the vote).
pub open spec fn stored_after(value: i64) -> Option<i64> {
    if value == 0 { None } else { Some(value) }
}

/// The vote's weight in the score.
pub open spec fn weight(v: Option<i64>) -> int {
    match v {
        Some(x) => x as int,
        None => 0,
    }
}

/// A stored vote whose replacement cannot overflow.
pub open spec fn storable_vote(v: Option<i64>) -> bool {
    v matches Some(p) ==> p >= i64::MIN + 2
}

/// The effect of voting `value` where the voter's stored vote is `previous`.
pub fn vote_change(previous: Option<i64>, value: i64) -> (c: VoteChange)
    requires
        valid_vote_value(value),
        storable_vote(previous),
    ensures
        c.delta == weight(stored_after(value)) - weight(previous),
        c.user_vote == value,
        c.write == (match (previous, value == 0) {
            (None, true) => VoteWrite::Keep,
            (None, false) => VoteWrite::Insert,
            (Some(_), true) => VoteWrite::Remove,
            (Some(_), false) => VoteWrite::Update,
        }),
{
    match previous {
        None => {
            if value == 0 {
                VoteChange { delta: 0, user_vote: 0, write: VoteWrite::Keep }
            } else {
                VoteChange { delta: value, user_vote: value, write: VoteWrite::Insert }
            }
        },
        Some(old_value) => {
            if value == 0 {
                VoteChange { delta: -old_value, user_vote: 0, write: VoteWrite::Remove }
            } else {
                VoteChange { delta: value - old_value, user_vote: value, write: VoteWrite::Update }
            }
        },
    }
}

/// The sum of the stored votes of a question, one entry per user (`None`: no vote).
pub open spec fn tally(votes: Seq<Option<i64>>) -> int
    decreases votes.len(),
{
    if votes.len() == 0 {
        0
    } else {
        tally(votes.drop_last()) + weight(votes.last())
    }
}

proof fn lemma_tally_update(votes: Seq<Option<i64>>, k: int, v: Option<i64>)
    requires
        0 <= k < votes.len(),
    ensures
        tally(votes.update(k, v)) == tally(votes) - weight(votes[k]) + weight(v),
    decreases votes.len(),
{
    let u = votes.update(k, v);
    if k == votes.len() - 1 {
        assert(u.drop_last() =~= votes.drop_last());
    } else {
        assert(u.drop_last() =~= votes.drop_last().update(k, v));
        lemma_tally_update(votes.drop_last(), k, v);
    }
}

/// The score of a question is the sum of its stored votes: where it is before a user's
/// vote, moving it by the vote's `delta` keeps it so after the user's stored vote is
/// replaced.
pub proof fn lemma_vote_keeps_tally(votes: Seq<Option<i64>>, k: int, value: i64, score: int)
    requires
        valid_vote_value(value),
        0 <= k < votes.len(),
        score == tally(votes),
    ensures
        score + (weight(stored_after(value)) - weight(votes[k])) == tally(votes.update(k, stored_after(value))),
{
    lemma_tally_update(votes, k, stored_after(value));
}

/// A stored vote as votes are stored: an upvote (1) or a downvote (-1).
pub open spec fn stored_vote_ok(v: Option<i64>) -> bool {
    v matches Some(x) ==> (x == 1 || x == -1)
}

/// One vote of user `k` on a question whose stored votes (one entry per user, so at most
/// one each) are upvotes and downvotes and whose score is their sum: the vote meets what
/// `vote_change` asks of the stored vote; the score moves from `score` to
/// `score - p + value`, where `p` is the user's previous vote (0 for none), and is again the
/// sum of the stored votes; the user then has a stored vote exactly when `value` is not 0,
/// holding `value`; no other user's vote changes; and every stored vote is still an upvote
/// or a downvote.
pub proof fn lemma_vote_updates_question(votes: Seq<Option<i64>>, k: int, value: i64, score: int)
    requires
        valid_vote_value(value),
        0 <= k < votes.len(),
        score == tally(votes),
        forall|i: int| 0 <= i < votes.len() ==> stored_vote_ok(#[trigger] votes[i]),
    ensures
        storable_vote(votes[k]),
        ({
            let after = votes.update(k, stored_after(value));
            let p = weight(votes[k]);
            &&& score + (weight(stored_after(value)) - p) == score - p + value
            &&& score + (weight(stored_after(value)) - p) == tally(after)
            &&& (after[k] is Some <==> value != 0)
            &&& (value != 0 ==> after[k] == Some(value))
            &&& forall|i: int| 0 <= i < votes.len() && i != k ==> after[i] == votes[i]
            &&& forall|i: int| 0 <= i < after.len() ==> stored_vote_ok(#[trigger] after[i])
        }),
{
    assert(stored_vote_ok(votes[k]));
    lemma_tally_update(votes, k, stored_after(value));
    let after = votes.update(k, stored_after(value));
    assert forall|i: int| 0 <= i < after.len() implies stored_vote_ok(#[trigger] after[i]) by {
        if i != k {
            assert(stored_vote_ok(votes[i]));
        }
    }
}

/// A vote can be retracted at any time: voting and then voting 0 leaves the score as it
/// was with no vote of this user, and voting the same value twice changes nothing.
pub proof fn lemma_vote_retract_and_repeat(previous: Option<i64>, value: i64)
    requires
        valid_vote_value(value),
    ensures
        (weight(stored_after(value)) - weight(previous)) + (weight(stored_after(0)) - weight(stored_after(value)))
            == -weight(previous),
        weight(stored_after(value)) - weight(stored_after(value)) == 0,
        stored_after(0) is None,
{
}

} // verus!
