use vstd::prelude::*;
use crate::error::{AppError, ErrorStatus};

verus! {

/// The lifecycle state of a question or a donation in a session feed.
#[derive(Debug, Clone, Copy, PartialEq, Eq, Structural)]
pub enum QuestionStatus {
    New,
    Answering,
    Answered,
    Rejected,
    Deleted,
}

/// The text under which a status is stored.
pub open spec fn status_name(s: QuestionStatus) -> Seq<char> {
    match s {
        QuestionStatus::New => "new"@,
        QuestionStatus::Answering => "answering"@,
        QuestionStatus::Answered => "answered"@,
        QuestionStatus::Rejected => "rejected"@,
        QuestionStatus::Deleted => "deleted"@,
    }
}

impl QuestionStatus {
    pub fn as_str(self) -> (s: &'static str)
        ensures
            s@ == status_name(self),
    {
        match self {
            QuestionStatus::New => "new",
            QuestionStatus::Answering => "answering",
            QuestionStatus::Answered => "answered",
            QuestionStatus::Rejected => "rejected",
            QuestionStatus::Deleted => "deleted",
        }
    }
}

/// A moderation action of a session owner on a question. Deleting a question removes it,
/// so there is nothing to restore.
#[derive(Debug, Clone, Copy, PartialEq, Eq, Structural)]
pub enum ModerateAction {
    Answer,
    FinishAnswering,
    Reject,
    Reopen,
    Delete,
    Ban,
}

/// A moderation action of a session owner on a donation.
#[derive(Debug, Clone, Copy, PartialEq, Eq, Structural)]
pub enum ModerateDonationAction {
    Answer,
    FinishAnswering,
    Reject,
    Reopen,
    Restore,
    Delete,
}

/// The status change that a moderation action makes on one feed item.
#[derive(Debug, Clone, Copy, PartialEq, Eq, Structural)]
pub enum StatusAction {
    Answer,
    FinishAnswering,
    Reject,
    Reopen,
    Restore,
    Delete,
}

impl ModerateAction {
    /// The status change of the action; a ban changes no single item.
    pub fn status_action(self) -> (r: Option<StatusAction>)
        ensures
            r == spec_question_status_action(self),
    {
        match self {
            ModerateAction::Answer => Some(StatusAction::Answer),
            ModerateAction::FinishAnswering => Some(StatusAction::FinishAnswering),
            ModerateAction::Reject => Some(StatusAction::Reject),
            ModerateAction::Reopen => Some(StatusAction::Reopen),
            ModerateAction::Delete => Some(StatusAction::Delete),
            ModerateAction::Ban => None,
        }
    }
}

pub open spec fn spec_question_status_action(a: ModerateAction) -> Option<StatusAction> {
    match a {
        ModerateAction::Answer => Some(StatusAction::Answer),
        ModerateAction::FinishAnswering => Some(StatusAction::FinishAnswering),
        ModerateAction::Reject => Some(StatusAction::Reject),
        ModerateAction::Reopen => Some(StatusAction::Reopen),
        ModerateAction::Delete => Some(StatusAction::Delete),
        ModerateAction::Ban => None,
    }
}

pub open spec fn spec_donation_status_action(a: ModerateDonationAction) -> StatusAction {
    match a {
        ModerateDonationAction::Answer => StatusAction::Answer,
        ModerateDonationAction::FinishAnswering => StatusAction::FinishAnswering,
        ModerateDonationAction::Reject => StatusAction::Reject,
        ModerateDonationAction::Reopen => StatusAction::Reopen,
        ModerateDonationAction::Restore => StatusAction::Restore,
        ModerateDonationAction::Delete => StatusAction::Delete,
    }
}

impl ModerateDonationAction {
    /// The status change of the action.
    pub fn status_action(self) -> (r: StatusAction)
        ensures
            r == spec_donation_status_action(self),
    {
        match self {
            ModerateDonationAction::Answer => StatusAction::Answer,
            ModerateDonationAction::FinishAnswering => StatusAction::FinishAnswering,
            ModerateDonationAction::Reject => StatusAction::Reject,
            ModerateDonationAction::Reopen => StatusAction::Reopen,
            ModerateDonationAction::Restore => StatusAction::Restore,
            ModerateDonationAction::Delete => StatusAction::Delete,
        }
    }
}

/// The statuses from which `a` moves an item.
pub open spec fn accepts_from(a: StatusAction, s: QuestionStatus) -> bool {
    match a {
        StatusAction::Answer => s == QuestionStatus::New || s == QuestionStatus::Rejected,
        StatusAction::FinishAnswering => s == QuestionStatus::Answering,
        StatusAction::Reject => s == QuestionStatus::New || s == QuestionStatus::Answering,
        StatusAction::Reopen => s == QuestionStatus::Answering || s == QuestionStatus::Answered,
        StatusAction::Restore => s == QuestionStatus::Deleted,
        StatusAction::Delete => s != QuestionStatus::Deleted,
    }
}

/// The status to which `a` moves an item.
pub open spec fn target_of(a: StatusAction) -> QuestionStatus {
    match a {
        StatusAction::Answer => QuestionStatus::Answering,
        StatusAction::FinishAnswering => QuestionStatus::Answered,
        StatusAction::Reject => QuestionStatus::Rejected,
        StatusAction::Reopen => QuestionStatus::New,
        StatusAction::Restore => QuestionStatus::New,
        StatusAction::Delete => QuestionStatus::Deleted,
    }
}

/// Whether `a` refuses to run while another item of the session is being answered.
pub open spec fn needs_exclusive_answering(a: StatusAction) -> bool {
    a == StatusAction::Answer
}

/// The status of an item after `a`, where `other_answering` tells whether another item of
/// the same session is being answered; `None` when the action is refused. Deleting an item
/// that is already deleted leaves it deleted and is not refused.
pub open spec fn status_step(a: StatusAction, s: QuestionStatus, other_answering: bool) -> Option<QuestionStatus> {
    if a == StatusAction::Delete {
        Some(QuestionStatus::Deleted)
    } else if accepts_from(a, s) && !(needs_exclusive_answering(a) && other_answering) {
        Some(target_of(a))
    } else {
        None
    }
}

/// The items of a session after `a` is applied to its `k`-th item, a question: a delete
/// removes the question; any other action changes its status as `status_step` says;
/// `None` when the action is refused.
pub open spec fn question_step(a: StatusAction, items: Seq<QuestionStatus>, k: int) -> Option<Seq<QuestionStatus>> {
    if a == StatusAction::Delete {
        Some(items.remove(k))
    } else {
        match status_step(a, items[k], other_answering(items, k)) {
            Some(s) => Some(items.update(k, s)),
            None => None,
        }
    }
}

impl StatusAction {
    /// The status that the action writes.
    pub fn target(self) -> (t: QuestionStatus)
        ensures
            t == target_of(self),
    {
        match self {
            StatusAction::Answer => QuestionStatus::Answering,
            StatusAction::FinishAnswering => QuestionStatus::Answered,
            StatusAction::Reject => QuestionStatus::Rejected,
            StatusAction::Reopen => QuestionStatus::New,
            StatusAction::Restore => QuestionStatus::New,
            StatusAction::Delete => QuestionStatus::Deleted,
        }
    }

    /// The statuses from which the action moves an item, in the order a conditional
    /// update lists them.
    pub fn sources(self) -> (v: Vec<QuestionStatus>)
        ensures
            forall|s: QuestionStatus| v@.contains(s) <==> accepts_from(self, s),
            v@.no_duplicates(),
    {
        let v = match self {
            StatusAction::Answer => vec![QuestionStatus::New, QuestionStatus::Rejected],
            StatusAction::FinishAnswering => vec![QuestionStatus::Answering],
            StatusAction::Reject => vec![QuestionStatus::New, QuestionStatus::Answering],
            StatusAction::Reopen => vec![QuestionStatus::Answering, QuestionStatus::Answered],
            StatusAction::Restore => vec![QuestionStatus::Deleted],
            StatusAction::Delete => vec![
                QuestionStatus::New,
                QuestionStatus::Answering,
                QuestionStatus::Answered,
                QuestionStatus::Rejected,
            ],
        };
        proof {
            assert forall|s: QuestionStatus| v@.contains(s) <==> accepts_from(self, s) by {
                if accepts_from(self, s) {
                    match s {
                        QuestionStatus::New => assert(v@[0] == s),
                        QuestionStatus::Answering => {
                            if self == StatusAction::Reject || self == StatusAction::Delete {
                                assert(v@[1] == s);
                            } else {
                                assert(v@[0] == s);
                            }
                        },
                        QuestionStatus::Answered => {
                            if self == StatusAction::Delete {
                                assert(v@[2] == s);
                            } else {
                                assert(v@[1] == s);
                            }
                        },
                        QuestionStatus::Rejected => {
                            if self == StatusAction::Delete {
                                assert(v@[3] == s);
                            } else {
                                assert(v@[1] == s);
                            }
                        },
                        QuestionStatus::Deleted => assert(v@[0] == s),
                    }
                }
            }
        }
        v
    }

    /// Whether the action refuses to run while another item of the session is being answered.
    pub fn needs_exclusive_answering(self) -> (b: bool)
        ensures
            b == needs_exclusive_answering(self),
    {
        match self {
            StatusAction::Answer => true,
            _ => false,
        }
    }

    /// The status of an item after the action; `None` when it is refused.
    pub fn apply(self, status: QuestionStatus, other_answering: bool) -> (r: Option<QuestionStatus>)
        ensures
            r == status_step(self, status, other_answering),
    {
        let accepted = match self {
            StatusAction::Answer => status == QuestionStatus::New || status == QuestionStatus::Rejected,
            StatusAction::FinishAnswering => status == QuestionStatus::Answering,
            StatusAction::Reject => status == QuestionStatus::New || status == QuestionStatus::Answering,
            StatusAction::Reopen => status == QuestionStatus::Answering || status == QuestionStatus::Answered,
            StatusAction::Restore => status == QuestionStatus::Deleted,
            StatusAction::Delete => status != QuestionStatus::Deleted,
        };
        if self == StatusAction::Delete {
            Some(QuestionStatus::Deleted)
        } else if accepted && !(self.needs_exclusive_answering() && other_answering) {
            Some(self.target())
        } else {
            None
        }
    }
}


/// Whether the action may not run on a stopped session.
pub open spec fn needs_active_session(a: StatusAction) -> bool {
    a == StatusAction::Answer || a == StatusAction::FinishAnswering || a == StatusAction::Reject
        || a == StatusAction::Reopen
}

/// The permission check that precedes a question moderation: only the session owner may
/// moderate, and a stopped session allows only delete, restore and ban.
pub fn check_question_moderation(is_owner: bool, session_is_active: bool, action: ModerateAction) -> (r: Result<(), AppError>)
    ensures
        !is_owner ==> (r matches Err(e) && e.status == ErrorStatus::Forbidden
            && e.message@ == "only session owner can moderate questions"@),
        is_owner && !session_is_active && (spec_question_status_action(action) matches Some(sa) && needs_active_session(sa))
            ==> (r matches Err(e) && e.status == ErrorStatus::Forbidden
                && e.message@ == "session is stopped: only delete and ban are allowed"@),
        r is Ok <==> is_owner && (session_is_active || !(spec_question_status_action(action) matches Some(sa)
            && needs_active_session(sa))),
{
    if !is_owner {
        return Err(AppError::forbidden("only session owner can moderate questions"));
    }
    let blocked = match action {
        ModerateAction::Answer | ModerateAction::FinishAnswering | ModerateAction::Reject | ModerateAction::Reopen => true,
        _ => false,
    };
    if !session_is_active && blocked {
        return Err(AppError::forbidden("session is stopped: only delete and ban are allowed"));
    }
    Ok(())
}

/// The permission check that precedes a donation moderation: only the session owner may
/// moderate, and a stopped session allows only delete and restore.
pub fn check_donation_moderation(is_owner: bool, session_is_active: bool, action: ModerateDonationAction) -> (r: Result<(), AppError>)
    ensures
        !is_owner ==> (r matches Err(e) && e.status == ErrorStatus::Forbidden
            && e.message@ == "only session owner can moderate donations"@),
        is_owner && !session_is_active && needs_active_session(spec_donation_status_action(action))
            ==> (r matches Err(e) && e.status == ErrorStatus::Forbidden
                && e.message@ == "session is stopped: only delete is allowed"@),
        r is Ok <==> is_owner && (session_is_active || !needs_active_session(spec_donation_status_action(action))),
{
    if !is_owner {
        return Err(AppError::forbidden("only session owner can moderate donations"));
    }
    let blocked = match action {
        ModerateDonationAction::Answer | ModerateDonationAction::FinishAnswering
        | ModerateDonationAction::Reject | ModerateDonationAction::Reopen => true,
        _ => false,
    };
    if !session_is_active && blocked {
        return Err(AppError::forbidden("session is stopped: only delete is allowed"));
    }
    Ok(())
}

/// The message explaining why an item cannot start being answered, given whether another
/// question and whether a donation of the session is being answered.
pub open spec fn spec_conflict_message(has_question: bool, has_donation: bool) -> Option<Seq<char>> {
    if has_question && has_donation {
        Some("another question or donation is already being answered in this session"@)
    } else if has_question {
        Some("another question is already being answered in this session"@)
    } else if has_donation {
        Some("a donation is already being answered in this session"@)
    } else {
        None
    }
}

/// The message of `current_answering_conflict_message`, from the two existence checks.
pub fn answering_conflict_message(has_question: bool, has_donation: bool) -> (r: Option<&'static str>)
    ensures
        r is Some <==> (has_question || has_donation),
        r matches Some(m) ==> spec_conflict_message(has_question, has_donation) == Some(m@),
{
    match (has_question, has_donation) {
        (true, true) => Some("another question or donation is already being answered in this session"),
        (true, false) => Some("another question is already being answered in this session"),
        (false, true) => Some("a donation is already being answered in this session"),
        (false, false) => None,
    }
}

/// The refusal of a question moderation whose update changed no row; `conflict` is the
/// answering conflict message found for an `Answer`. A delete is never refused.
pub fn question_update_refusal(action: StatusAction, conflict: Option<&str>) -> (r: Option<AppError>)
    ensures
        action == StatusAction::Delete <==> r is None,
        r matches Some(e) ==> e.status == ErrorStatus::BadRequest,
        r matches Some(e) ==> e.message@ == (match action {
            StatusAction::Answer => match conflict {
                Some(m) => m@,
                None => "cannot mark this question as in-progress"@,
            },
            StatusAction::FinishAnswering => "question is not in progress of answering"@,
            StatusAction::Reject => "cannot reject: question is already answered or rejected"@,
            StatusAction::Restore => "question is not deleted"@,
            StatusAction::Reopen => "question is not in answering or answered state"@,
            StatusAction::Delete => Seq::<char>::empty(),
        }),
{
    match action {
        StatusAction::Answer => match conflict {
            Some(m) => Some(AppError::bad_request(m)),
            None => Some(AppError::bad_request("cannot mark this question as in-progress")),
        },
        StatusAction::FinishAnswering => Some(AppError::bad_request("question is not in progress of answering")),
        StatusAction::Reject => Some(AppError::bad_request("cannot reject: question is already answered or rejected")),
        StatusAction::Restore => Some(AppError::bad_request("question is not deleted")),
        StatusAction::Reopen => Some(AppError::bad_request("question is not in answering or answered state")),
        StatusAction::Delete => None,
    }
}

/// The refusal of a donation moderation whose update changed no row; `conflict` is the
/// answering conflict message found for an `Answer`. A delete is never refused.
pub fn donation_update_refusal(action: StatusAction, conflict: Option<&str>) -> (r: Option<AppError>)
    ensures
        action == StatusAction::Delete <==> r is None,
        r matches Some(e) ==> e.status == ErrorStatus::BadRequest,
        r matches Some(e) ==> e.message@ == (match action {
            StatusAction::Answer => match conflict {
                Some(m) => m@,
                None => "cannot mark donation as in-progress"@,
            },
            StatusAction::FinishAnswering => "donation is not in progress of answering"@,
            StatusAction::Reject => "cannot reject: donation is already answered or rejected"@,
            StatusAction::Restore => "donation is not deleted"@,
            StatusAction::Reopen => "donation is not in answering or answered state"@,
            StatusAction::Delete => Seq::<char>::empty(),
        }),
{
    match action {
        StatusAction::Answer => match conflict {
            Some(m) => Some(AppError::bad_request(m)),
            None => Some(AppError::bad_request("cannot mark donation as in-progress")),
        },
        StatusAction::FinishAnswering => Some(AppError::bad_request("donation is not in progress of answering")),
        StatusAction::Reject => Some(AppError::bad_request("cannot reject: donation is already answered or rejected")),
        StatusAction::Restore => Some(AppError::bad_request("donation is not deleted")),
        StatusAction::Reopen => Some(AppError::bad_request("donation is not in answering or answered state")),
        StatusAction::Delete => None,
    }
}

/// The checks before a ban: an owner cannot ban themself, nor ban a user twice.
pub fn check_ban(author_user_id: i64, owner_user_id: i64, already_banned: bool) -> (r: Result<(), AppError>)
    ensures
        author_user_id == owner_user_id ==> (r matches Err(e) && e.status == ErrorStatus::BadRequest
            && e.message@ == "cannot ban yourself"@),
        author_user_id != owner_user_id && already_banned ==> (r matches Err(e)
            && e.status == ErrorStatus::BadRequest && e.message@ == "user is already banned"@),
        r is Ok <==> author_user_id != owner_user_id && !already_banned,
{
    if author_user_id == owner_user_id {
        return Err(AppError::bad_request("cannot ban yourself"));
    }
    if already_banned {
        return Err(AppError::bad_request("user is already banned"));
    }
    Ok(())
}

/// At most one item of the session is being answered.
pub open spec fn at_most_one_answering(items: Seq<QuestionStatus>) -> bool {
    forall|i: int, j: int|
        0 <= i < items.len() && 0 <= j < items.len() && items[i] == QuestionStatus::Answering
            && items[j] == QuestionStatus::Answering ==> i == j
}

/// Some item of the session other than the `k`-th is being answered.
pub open spec fn other_answering(items: Seq<QuestionStatus>, k: int) -> bool {
    exists|j: int| 0 <= j < items.len() && j != k && items[j] == QuestionStatus::Answering
}

/// Only one question or donation of a session is in answering state at a time: every
/// moderation step of one item keeps that true of the session's items.
pub proof fn lemma_moderation_keeps_single_answering(
    items: Seq<QuestionStatus>,
    k: int,
    a: StatusAction,
)
    requires
        at_most_one_answering(items),
        0 <= k < items.len(),
    ensures
        status_step(a, items[k], other_answering(items, k)) matches Some(s)
            ==> at_most_one_answering(items.update(k, s)),
        question_step(a, items, k) matches Some(n) ==> at_most_one_answering(n),
{
    let r = items.remove(k);
    assert forall|i: int, j: int|
        0 <= i < r.len() && 0 <= j < r.len() && r[i] == QuestionStatus::Answering
            && r[j] == QuestionStatus::Answering implies i == j by {
        let oi = if i < k { i } else { i + 1 };
        let oj = if j < k { j } else { j + 1 };
        assert(items[oi] == r[i] && items[oj] == r[j]);
    }
    if let Some(s) = status_step(a, items[k], other_answering(items, k)) {
        let n = items.update(k, s);
        assert forall|i: int, j: int|
            0 <= i < n.len() && 0 <= j < n.len() && n[i] == QuestionStatus::Answering
                && n[j] == QuestionStatus::Answering implies i == j by {
            if i != j && (i == k || j == k) {
                let o = if i == k { j } else { i };
                assert(items[o] == QuestionStatus::Answering);
                assert(other_answering(items, k));
            }
        }
    }
}

/// An item that starts being answered is afterwards the only one of its session in that state.
pub proof fn lemma_answer_is_exclusive(items: Seq<QuestionStatus>, k: int)
    requires
        0 <= k < items.len(),
        status_step(StatusAction::Answer, items[k], other_answering(items, k)) is Some,
    ensures
        forall|j: int| 0 <= j < items.len() ==>
            (#[trigger] items.update(k, QuestionStatus::Answering)[j] == QuestionStatus::Answering <==> j == k),
{
}

/// A ban deletes every question of the banned author in the session: the items that
/// stay (those at `kept`, in order, which are exactly the ones not by the author) still
/// hold at most one item being answered.
pub proof fn lemma_ban_keeps_single_answering(items: Seq<QuestionStatus>, by_author: Seq<bool>, kept: Seq<int>)
    requires
        at_most_one_answering(items),
        by_author.len() == items.len(),
        forall|i: int, j: int| 0 <= i < j < kept.len() ==> kept[i] < kept[j],
        forall|i: int| 0 <= i < kept.len() ==> 0 <= #[trigger] kept[i] < items.len() && !by_author[kept[i]],
        forall|j: int| 0 <= j < items.len() && !by_author[j] ==> kept.contains(j),
    ensures
        at_most_one_answering(kept.map_values(|i: int| items[i])),
{
    let r = kept.map_values(|i: int| items[i]);
    assert forall|i: int, j: int|
        0 <= i < r.len() && 0 <= j < r.len() && r[i] == QuestionStatus::Answering
            && r[j] == QuestionStatus::Answering implies i == j by {
        assert(r[i] == items[kept[i]] && r[j] == items[kept[j]]);
        if i < j {
            assert(kept[i] < kept[j]);
        } else if j < i {
            assert(kept[j] < kept[i]);
        }
    }
}

/// The moderation rules of one item, action by action: answering takes a new or rejected
/// item, and only while no other item of the session is being answered; finishing takes an
/// item being answered; rejecting takes a new item or one being answered; reopening takes
/// an item being answered or answered back to new; restoring takes a deleted item back to
/// new; deleting always succeeds. Every action is refused on any other status, and the
/// statuses each action changes from are exactly those it accepts.
pub proof fn lemma_moderation_rules(s: QuestionStatus, other: bool)
    ensures
        status_step(StatusAction::Answer, s, other) == (if (s == QuestionStatus::New || s == QuestionStatus::Rejected)
            && !other { Some(QuestionStatus::Answering) } else { None::<QuestionStatus> }),
        status_step(StatusAction::FinishAnswering, s, other) == (if s == QuestionStatus::Answering {
            Some(QuestionStatus::Answered)
        } else {
            None::<QuestionStatus>
        }),
        status_step(StatusAction::Reject, s, other) == (if s == QuestionStatus::New || s == QuestionStatus::Answering {
            Some(QuestionStatus::Rejected)
        } else {
            None::<QuestionStatus>
        }),
        status_step(StatusAction::Reopen, s, other) == (if s == QuestionStatus::Answering || s
            == QuestionStatus::Answered { Some(QuestionStatus::New) } else { None::<QuestionStatus> }),
        status_step(StatusAction::Restore, s, other) == (if s == QuestionStatus::Deleted {
            Some(QuestionStatus::New)
        } else {
            None::<QuestionStatus>
        }),
        status_step(StatusAction::Delete, s, other) == Some(QuestionStatus::Deleted),
        accepts_from(StatusAction::Answer, s) <==> (s == QuestionStatus::New || s == QuestionStatus::Rejected),
        accepts_from(StatusAction::FinishAnswering, s) <==> s == QuestionStatus::Answering,
        accepts_from(StatusAction::Reject, s) <==> (s == QuestionStatus::New || s == QuestionStatus::Answering),
        accepts_from(StatusAction::Reopen, s) <==> (s == QuestionStatus::Answering || s == QuestionStatus::Answered),
        accepts_from(StatusAction::Restore, s) <==> s == QuestionStatus::Deleted,
        accepts_from(StatusAction::Delete, s) <==> s != QuestionStatus::Deleted,
{
}

} // verus!
