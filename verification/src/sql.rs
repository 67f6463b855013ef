use vstd::prelude::*;
use crate::feed::QuestionSort;
use crate::moderation::StatusAction;
use crate::votes::VoteWrite;
use crate::text::push_char;

verus! {

/// How long a session stays active at most: 48 hours, in seconds.
pub const SESSION_MAX_AGE_SECS: i64 = 172800;

/// The SQL condition that a session row under `alias` is active: marked active and
/// created less than 48 hours (172800 seconds) ago.
pub open spec fn active_condition(alias: Seq<char>) -> Seq<char> {
    alias + ".is_active = 1 AND "@ + alias + ".created_at > unixepoch() - 172800"@
}

pub fn active_session_condition_sql(alias: &str) -> (r: String)
    ensures
        r@ == active_condition(alias@),
{
    let mut r = String::new();
    r.append(alias);
    r.append(".is_active = 1 AND ");
    r.append(alias);
    r.append(".created_at > unixepoch() - 172800");
    assert(r@ =~= active_condition(alias@));
    r
}

/// The SQL expression of whether a session is active: 1 or 0.
pub open spec fn effective_is_active(alias: Seq<char>) -> Seq<char> {
    "CASE WHEN "@ + active_condition(alias) + " THEN 1 ELSE 0 END"@
}

pub fn effective_session_is_active_sql(alias: &str) -> (r: String)
    ensures
        r@ == effective_is_active(alias@),
{
    let mut r = String::new();
    r.append("CASE WHEN ");
    let c = active_session_condition_sql(alias);
    r.append(c.as_str());
    r.append(" THEN 1 ELSE 0 END");
    assert(r@ =~= effective_is_active(alias@));
    r
}

/// The SQL expression of when a session stopped: a session still marked active past its
/// 48 hours stopped when they ended (unless a stop time is recorded).
pub open spec fn effective_stopped_at(alias: Seq<char>) -> Seq<char> {
    "CASE WHEN "@ + alias + ".is_active = 1 AND "@ + alias + ".created_at <= unixepoch() - 172800 THEN COALESCE("@
        + alias + ".stopped_at, "@ + alias + ".created_at + 172800) ELSE "@ + alias + ".stopped_at END"@
}

pub fn effective_session_stopped_at_sql(alias: &str) -> (r: String)
    ensures
        r@ == effective_stopped_at(alias@),
{
    let mut r = String::new();
    r.append("CASE WHEN ");
    r.append(alias);
    r.append(".is_active = 1 AND ");
    r.append(alias);
    r.append(".created_at <= unixepoch() - 172800 THEN COALESCE(");
    r.append(alias);
    r.append(".stopped_at, ");
    r.append(alias);
    r.append(".created_at + 172800) ELSE ");
    r.append(alias);
    r.append(".stopped_at END");
    assert(r@ =~= effective_stopped_at(alias@));
    r
}

/// The SQL expression of a column of an active session, `otherwise` for a session that
/// is not active.
pub open spec fn when_active(alias: Seq<char>, column: Seq<char>, otherwise: Seq<char>) -> Seq<char> {
    "CASE WHEN "@ + active_condition(alias) + " THEN "@ + alias + seq!['.'] + column + " ELSE "@ + otherwise + " END"@
}

fn when_active_sql(alias: &str, column: &str, otherwise: &str) -> (r: String)
    ensures
        r@ == when_active(alias@, column@, otherwise@),
{
    proof {
        reveal_strlit(".");
    }
    let mut r = String::new();
    r.append("CASE WHEN ");
    let c = active_session_condition_sql(alias);
    r.append(c.as_str());
    r.append(" THEN ");
    r.append(alias);
    r.append(".");
    r.append(column);
    r.append(" ELSE ");
    r.append(otherwise);
    r.append(" END");
    assert(r@ =~= when_active(alias@, column@, otherwise@));
    r
}

pub fn effective_session_donations_enabled_sql(alias: &str) -> (r: String)
    ensures
        r@ == when_active(alias@, "donations_enabled"@, "0"@),
{
    when_active_sql(alias, "donations_enabled", "0")
}

pub fn effective_session_donations_enabled_at_sql(alias: &str) -> (r: String)
    ensures
        r@ == when_active(alias@, "donations_enabled_at"@, "NULL"@),
{
    when_active_sql(alias, "donations_enabled_at", "NULL")
}

pub fn effective_session_donations_min_external_id_sql(alias: &str) -> (r: String)
    ensures
        r@ == when_active(alias@, "donations_min_external_id"@, "NULL"@),
{
    when_active_sql(alias, "donations_min_external_id", "NULL")
}

/// The select list of a stream session row under `alias`, with its effective state.
pub open spec fn session_select_list(alias: Seq<char>) -> Seq<char> {
    "\n            "@ + alias + ".id,\n            "@ + alias + ".owner_user_id,\n            "@ + alias
        + ".public_code,\n            "@ + alias + ".created_at,\n            "@ + effective_is_active(alias)
        + " AS is_active,\n            "@ + alias + ".name,\n            "@ + alias
        + ".description,\n            "@ + alias + ".stream_link,\n            "@ + effective_stopped_at(alias)
        + " AS stopped_at,\n            "@ + alias + ".downvote_threshold,\n            "@
        + when_active(alias, "donations_enabled"@, "0"@) + " AS donations_enabled,\n            "@
        + when_active(alias, "donations_enabled_at"@, "NULL"@) + " AS donations_enabled_at,\n            "@
        + when_active(alias, "donations_min_external_id"@, "NULL"@) + " AS donations_min_external_id\n        "@
}

pub fn stream_session_select_sql(alias: &str) -> (r: String)
    ensures
        r@ == session_select_list(alias@),
{
    let mut r = String::new();
    r.append("\n            ");
    r.append(alias);
    r.append(".id,\n            ");
    r.append(alias);
    r.append(".owner_user_id,\n            ");
    r.append(alias);
    r.append(".public_code,\n            ");
    r.append(alias);
    r.append(".created_at,\n            ");
    let is_active = effective_session_is_active_sql(alias);
    r.append(is_active.as_str());
    r.append(" AS is_active,\n            ");
    r.append(alias);
    r.append(".name,\n            ");
    r.append(alias);
    r.append(".description,\n            ");
    r.append(alias);
    r.append(".stream_link,\n            ");
    let stopped_at = effective_session_stopped_at_sql(alias);
    r.append(stopped_at.as_str());
    r.append(" AS stopped_at,\n            ");
    r.append(alias);
    r.append(".downvote_threshold,\n            ");
    let enabled = effective_session_donations_enabled_sql(alias);
    r.append(enabled.as_str());
    r.append(" AS donations_enabled,\n            ");
    let enabled_at = effective_session_donations_enabled_at_sql(alias);
    r.append(enabled_at.as_str());
    r.append(" AS donations_enabled_at,\n            ");
    let min_id = effective_session_donations_min_external_id_sql(alias);
    r.append(min_id.as_str());
    r.append(" AS donations_min_external_id\n        ");
    assert(r@ =~= session_select_list(alias@));
    r
}


/// The decimal digits of `n`.
pub open spec fn decimal(n: nat) -> Seq<char>
    decreases n,
{
    if n < 10 {
        seq![(48 + n) as char]
    } else {
        decimal(n / 10) + seq![(48 + n % 10) as char]
    }
}

/// Appends the decimal digits of `n`.
fn push_decimal(out: &mut String, n: u64)
    ensures
        final(out)@ == old(out)@ + decimal(n as nat),
    decreases n,
{
    if n >= 10 {
        push_decimal(out, n / 10);
    }
    let d = (n % 10) as u8;
    push_char(out, (48 + d) as char);
    proof {
        if n >= 10 {
            assert(final(out)@ =~= old(out)@ + decimal(n as nat)) by {
                assert(decimal(n as nat) == decimal((n / 10) as nat) + seq![(48 + (n as nat) % 10) as char]);
            }
        }
    }
}

/// The threshold of the downvoted tab of a feed: at least 1.
pub open spec fn feed_threshold(downvote_threshold: i64) -> i64 {
    if downvote_threshold < 1 { 1 } else { downvote_threshold }
}

/// The WHERE and ORDER BY clauses that select and order the questions of a tab, where a
/// question at or below minus the threshold counts as downvoted. The answered tab holds
/// the answered questions, latest answer first; the deleted tab holds no questions, since
/// a deleted question is gone.
pub open spec fn question_clauses(sort: QuestionSort, threshold: Seq<char>) -> Option<(Seq<char>, Seq<char>)> {
    match sort {
        QuestionSort::Answered => Some((
            "WHERE q.session_id = ?1 AND q.status = 'answered'"@,
            "ORDER BY q.answered_at DESC"@,
        )),
        QuestionSort::New => Some((
            "WHERE q.session_id = ?1 AND q.status IN ('new', 'answering') AND (q.score > -"@ + threshold
                + " OR q.status = 'answering')"@,
            "ORDER BY (q.status = 'answering') DESC, q.created_at DESC"@,
        )),
        QuestionSort::Top => Some((
            "WHERE q.session_id = ?1 AND q.status IN ('new', 'answering') AND (q.score > -"@ + threshold
                + " OR q.status = 'answering')"@,
            "ORDER BY (q.status = 'answering') DESC, q.score DESC, q.created_at DESC"@,
        )),
        QuestionSort::Downvoted => Some((
            "WHERE q.session_id = ?1 AND q.status = 'new' AND q.score <= -"@ + threshold,
            "ORDER BY q.score ASC, q.created_at DESC"@,
        )),
        QuestionSort::Deleted => None,
    }
}

/// The clauses of the question query of a tab of a session whose downvote threshold is
/// `downvote_threshold`.
pub fn question_feed_clauses(sort: QuestionSort, downvote_threshold: i64) -> (r: Option<(String, String)>)
    ensures
        match r {
            Some(c) => question_clauses(sort, decimal(feed_threshold(downvote_threshold) as nat)) == Some((c.0@, c.1@)),
            None => question_clauses(sort, decimal(feed_threshold(downvote_threshold) as nat)) is None,
        },
{
    let t: i64 = if downvote_threshold < 1 { 1 } else { downvote_threshold };
    let mut digits = String::new();
    push_decimal(&mut digits, t as u64);
    assert(digits@ =~= decimal(feed_threshold(downvote_threshold) as nat));
    match sort {
        QuestionSort::Answered => Some((
            "WHERE q.session_id = ?1 AND q.status = 'answered'".to_owned(),
            "ORDER BY q.answered_at DESC".to_owned(),
        )),
        QuestionSort::New => {
            let mut w = "WHERE q.session_id = ?1 AND q.status IN ('new', 'answering') AND (q.score > -".to_owned();
            w.append(digits.as_str());
            w.append(" OR q.status = 'answering')");
            Some((w, "ORDER BY (q.status = 'answering') DESC, q.created_at DESC".to_owned()))
        },
        QuestionSort::Top => {
            let mut w = "WHERE q.session_id = ?1 AND q.status IN ('new', 'answering') AND (q.score > -".to_owned();
            w.append(digits.as_str());
            w.append(" OR q.status = 'answering')");
            Some((w, "ORDER BY (q.status = 'answering') DESC, q.score DESC, q.created_at DESC".to_owned()))
        },
        QuestionSort::Downvoted => {
            let mut w = "WHERE q.session_id = ?1 AND q.status = 'new' AND q.score <= -".to_owned();
            w.append(digits.as_str());
            Some((w, "ORDER BY q.score ASC, q.created_at DESC".to_owned()))
        },
        QuestionSort::Deleted => None,
    }
}

/// The WHERE and ORDER BY clauses that select and order the donations of a tab; the
/// downvoted tab holds no donations, the answered tab the answered and the rejected ones,
/// latest answer (or, without one, creation) first.
pub open spec fn donation_clauses(sort: QuestionSort) -> Option<(Seq<char>, Seq<char>)> {
    match sort {
        QuestionSort::Top => Some((
            "WHERE d.session_id = ?1 AND d.status IN ('new', 'answering')"@,
            "ORDER BY d.usd_cents DESC, d.created_at DESC"@,
        )),
        QuestionSort::New => Some((
            "WHERE d.session_id = ?1 AND d.status IN ('new', 'answering')"@,
            "ORDER BY d.created_at DESC"@,
        )),
        QuestionSort::Answered => Some((
            "WHERE d.session_id = ?1 AND d.status IN ('answered', 'rejected')"@,
            "ORDER BY COALESCE(d.answered_at, d.created_at) DESC"@,
        )),
        QuestionSort::Downvoted => None,
        QuestionSort::Deleted => Some((
            "WHERE d.session_id = ?1 AND d.status = 'deleted'"@,
            "ORDER BY d.created_at DESC"@,
        )),
    }
}

pub fn donation_feed_clauses(sort: QuestionSort) -> (r: Option<(String, String)>)
    ensures
        match r {
            Some(c) => donation_clauses(sort) == Some((c.0@, c.1@)),
            None => donation_clauses(sort) is None,
        },
{
    match sort {
        QuestionSort::Top => Some((
            "WHERE d.session_id = ?1 AND d.status IN ('new', 'answering')".to_owned(),
            "ORDER BY d.usd_cents DESC, d.created_at DESC".to_owned(),
        )),
        QuestionSort::New => Some((
            "WHERE d.session_id = ?1 AND d.status IN ('new', 'answering')".to_owned(),
            "ORDER BY d.created_at DESC".to_owned(),
        )),
        QuestionSort::Answered => Some((
            "WHERE d.session_id = ?1 AND d.status IN ('answered', 'rejected')".to_owned(),
            "ORDER BY COALESCE(d.answered_at, d.created_at) DESC".to_owned(),
        )),
        QuestionSort::Downvoted => None,
        QuestionSort::Deleted => Some((
            "WHERE d.session_id = ?1 AND d.status = 'deleted'".to_owned(),
            "ORDER BY d.created_at DESC".to_owned(),
        )),
    }
}

/// The timestamp columns that a status change sets besides the status: answering starts
/// the answering clock, finishing records the answer time, a reject, reopen or restore
/// clears both, and a delete leaves them.
pub open spec fn status_timestamps(a: StatusAction) -> Seq<char> {
    match a {
        StatusAction::Answer => ", answering_started_at = unixepoch(), answered_at = NULL"@,
        StatusAction::FinishAnswering => ", answered_at = unixepoch()"@,
        StatusAction::Reject => ", answering_started_at = NULL, answered_at = NULL"@,
        StatusAction::Reopen => ", answering_started_at = NULL, answered_at = NULL"@,
        StatusAction::Restore => ", answering_started_at = NULL, answered_at = NULL"@,
        StatusAction::Delete => Seq::<char>::empty(),
    }
}

/// The parameters that hold the statuses an action changes from, one per entry of
/// `StatusAction::sources`, numbered from 3.
pub open spec fn source_placeholders(a: StatusAction) -> Seq<char> {
    match a {
        StatusAction::Answer => "(?3, ?4)"@,
        StatusAction::FinishAnswering => "(?3)"@,
        StatusAction::Reject => "(?3, ?4)"@,
        StatusAction::Reopen => "(?3, ?4)"@,
        StatusAction::Restore => "(?3)"@,
        StatusAction::Delete => "(?3, ?4, ?5, ?6)"@,
    }
}

/// The condition that no other item of the session (parameter 5) is being answered: no
/// other row of `table` and no row of `other` has the target status (parameter 2).
pub open spec fn no_other_answering(table: Seq<char>, other: Seq<char>) -> Seq<char> {
    " AND NOT EXISTS (SELECT 1 FROM "@ + table
        + " other WHERE other.session_id = ?5 AND other.status = ?2 AND other.id != ?1)"@
        + " AND NOT EXISTS (SELECT 1 FROM "@ + other
        + " other WHERE other.session_id = ?5 AND other.status = ?2)"@
}

/// The statement that applies a status change to one row of `table` (questions or
/// donations; `other` is the other of the two), where the row's status allows it. Its
/// parameters: 1 the row's id, 2 the target status, from 3 the source statuses, and for
/// an answer 5 the session's id.
pub open spec fn status_update_statement(table: Seq<char>, other: Seq<char>, a: StatusAction) -> Seq<char> {
    "UPDATE "@ + table + " SET status = ?2"@ + status_timestamps(a) + " WHERE id = ?1 AND status IN "@
        + source_placeholders(a) + (if a == StatusAction::Answer { no_other_answering(table, other) } else {
        Seq::<char>::empty()
    }) + ";"@
}

fn status_timestamps_sql(a: StatusAction) -> (s: &'static str)
    ensures
        s@ == status_timestamps(a),
{
    proof {
        reveal_strlit("");
    }
    match a {
        StatusAction::Answer => ", answering_started_at = unixepoch(), answered_at = NULL",
        StatusAction::FinishAnswering => ", answered_at = unixepoch()",
        StatusAction::Reject => ", answering_started_at = NULL, answered_at = NULL",
        StatusAction::Reopen => ", answering_started_at = NULL, answered_at = NULL",
        StatusAction::Restore => ", answering_started_at = NULL, answered_at = NULL",
        StatusAction::Delete => "",
    }
}

fn source_placeholders_sql(a: StatusAction) -> (s: &'static str)
    ensures
        s@ == source_placeholders(a),
{
    match a {
        StatusAction::Answer => "(?3, ?4)",
        StatusAction::FinishAnswering => "(?3)",
        StatusAction::Reject => "(?3, ?4)",
        StatusAction::Reopen => "(?3, ?4)",
        StatusAction::Restore => "(?3)",
        StatusAction::Delete => "(?3, ?4, ?5, ?6)",
    }
}

/// The statement that applies `action` to one row of `table`; see
/// `status_update_statement` for its parameters.
pub fn status_update_sql(table: &str, other_table: &str, action: StatusAction) -> (r: String)
    ensures
        r@ == status_update_statement(table@, other_table@, action),
{
    let mut r = "UPDATE ".to_owned();
    r.append(table);
    r.append(" SET status = ?2");
    r.append(status_timestamps_sql(action));
    r.append(" WHERE id = ?1 AND status IN ");
    r.append(source_placeholders_sql(action));
    let ghost head = r@;
    if action == StatusAction::Answer {
        r.append(" AND NOT EXISTS (SELECT 1 FROM ");
        r.append(table);
        r.append(" other WHERE other.session_id = ?5 AND other.status = ?2 AND other.id != ?1)");
        r.append(" AND NOT EXISTS (SELECT 1 FROM ");
        r.append(other_table);
        r.append(" other WHERE other.session_id = ?5 AND other.status = ?2)");
        assert(r@ =~= head + no_other_answering(table@, other_table@));
    } else {
        assert(r@ =~= head + Seq::<char>::empty());
    }
    r.append(";");
    r
}

/// The statement that removes a question (parameter 1 its id).
pub const QUESTION_DELETE_SQL: &'static str = "DELETE FROM questions WHERE id = ?1;";

/// The statement that removes the questions of a banned author (parameter 2) in a session
/// (parameter 1).
pub const BAN_QUESTIONS_DELETE_SQL: &'static str = "DELETE FROM questions WHERE session_id = ?1 AND author_user_id = ?2;";

/// The statement that applies a moderation action to a question: a delete removes the
/// question's row (its id the one parameter); any other action is the status change of
/// `status_update_statement`.
pub open spec fn question_moderation_statement(a: StatusAction) -> Seq<char> {
    if a == StatusAction::Delete {
        QUESTION_DELETE_SQL@
    } else {
        status_update_statement("questions"@, "donations"@, a)
    }
}

/// The statement that applies `action` to a question; see `question_moderation_statement`.
pub fn question_moderation_sql(action: StatusAction) -> (r: String)
    ensures
        r@ == question_moderation_statement(action),
{
    if action == StatusAction::Delete {
        QUESTION_DELETE_SQL.to_owned()
    } else {
        status_update_sql("questions", "donations", action)
    }
}

/// The statement that routes an owner's donations to one target session after the owner
/// connects the donation service: among the owner's active sessions (parameter 1 the
/// owner), the target (parameter 3) alone takes donations, enabled from its earlier time
/// or now, taking donations above the larger of its earlier minimum and the baseline
/// (parameter 2); every other active session stops taking them.
pub open spec fn target_routing_statement() -> Seq<char> {
    "UPDATE stream_sessions SET donations_enabled = CASE WHEN id = ?3 THEN 1 ELSE 0 END, "@
        + "donations_enabled_at = CASE WHEN id = ?3 THEN COALESCE(donations_enabled_at, unixepoch()) ELSE NULL END, "@
        + "donations_min_external_id = CASE WHEN id = ?3 THEN CASE WHEN donations_min_external_id IS NULL THEN ?2 "@
        + "WHEN donations_min_external_id < ?2 THEN ?2 ELSE donations_min_external_id END ELSE NULL END "@
        + "WHERE owner_user_id = ?1 AND "@ + active_condition("stream_sessions"@) + ";"@
}

/// The statement that keeps an owner's donation routing after the owner connects the
/// donation service without naming a session: the owner's active sessions (parameter 1
/// the owner) that take donations keep taking them, enabled from their earlier time or
/// now, above the larger of their earlier minimum and the baseline (parameter 2).
pub open spec fn aligned_routing_statement() -> Seq<char> {
    "UPDATE stream_sessions SET donations_enabled_at = COALESCE(donations_enabled_at, unixepoch()), "@
        + "donations_min_external_id = CASE WHEN donations_min_external_id IS NULL THEN ?2 "@
        + "WHEN donations_min_external_id < ?2 THEN ?2 ELSE donations_min_external_id END "@
        + "WHERE owner_user_id = ?1 AND "@ + active_condition("stream_sessions"@) + " AND donations_enabled = 1;"@
}

/// The routing statement after the donation service is connected: the target form where
/// the login named an active session, the aligned form otherwise.
pub fn donation_routing_sql(has_target: bool) -> (r: String)
    ensures
        r@ == if has_target { target_routing_statement() } else { aligned_routing_statement() },
{
    let mut r = if has_target {
        let mut t = "UPDATE stream_sessions SET donations_enabled = CASE WHEN id = ?3 THEN 1 ELSE 0 END, ".to_owned();
        t.append("donations_enabled_at = CASE WHEN id = ?3 THEN COALESCE(donations_enabled_at, unixepoch()) ELSE NULL END, ");
        t.append("donations_min_external_id = CASE WHEN id = ?3 THEN CASE WHEN donations_min_external_id IS NULL THEN ?2 ");
        t.append("WHEN donations_min_external_id < ?2 THEN ?2 ELSE donations_min_external_id END ELSE NULL END ");
        t.append("WHERE owner_user_id = ?1 AND ");
        t
    } else {
        let mut t = "UPDATE stream_sessions SET donations_enabled_at = COALESCE(donations_enabled_at, unixepoch()), ".to_owned();
        t.append("donations_min_external_id = CASE WHEN donations_min_external_id IS NULL THEN ?2 ");
        t.append("WHEN donations_min_external_id < ?2 THEN ?2 ELSE donations_min_external_id END ");
        t.append("WHERE owner_user_id = ?1 AND ");
        t
    };
    let cond = active_session_condition_sql("stream_sessions");
    r.append(cond.as_str());
    if has_target {
        r.append(";");
    } else {
        r.append(" AND donations_enabled = 1;");
    }
    r
}

/// Stops a session (parameter 1 its id) now: it is no longer active and takes no
/// donations.
pub const STOP_SESSION_SQL: &'static str = "UPDATE stream_sessions SET is_active = 0, stopped_at = unixepoch(), donations_enabled = 0, donations_enabled_at = NULL, donations_min_external_id = NULL WHERE id = ?1;";

/// The active sessions that are at least the maximum age (parameter 1, in seconds) old:
/// id, owner and public code.
pub const EXPIRED_SESSIONS_SELECT_SQL: &'static str = "SELECT id, owner_user_id, public_code FROM stream_sessions WHERE is_active = 1 AND created_at <= unixepoch() - ?1;";

/// Stops every active session at least the maximum age (parameter 1) old, as stopped when
/// it reached that age (unless it has a stop time already), taking no donations.
pub const EXPIRE_SESSIONS_SQL: &'static str = "UPDATE stream_sessions SET is_active = 0, stopped_at = COALESCE(stopped_at, created_at + ?1), donations_enabled = 0, donations_enabled_at = NULL, donations_min_external_id = NULL WHERE is_active = 1 AND created_at <= unixepoch() - ?1;";

/// Removes a session (parameter 1 its id).
pub const DELETE_SESSION_SQL: &'static str = "DELETE FROM stream_sessions WHERE id = ?1;";

/// Turns donations off on every session of an owner (parameter 1) but one (parameter 2),
/// so that the one is the only session that takes them.
pub const DISABLE_OTHER_DONATION_SESSIONS_SQL: &'static str = "UPDATE stream_sessions SET donations_enabled = 0, donations_enabled_at = NULL, donations_min_external_id = NULL WHERE owner_user_id = ?1 AND id != ?2;";

/// Turns donations off on every session of an owner (parameter 1).
pub const DISABLE_OWNER_DONATION_SESSIONS_SQL: &'static str = "UPDATE stream_sessions SET donations_enabled = 0, donations_enabled_at = NULL, donations_min_external_id = NULL WHERE owner_user_id = ?1;";

/// Adds a question (parameters: 1 the session, 2 the author, 3 the text) unless the author
/// asked one in that session within the last minute; then nothing is added.
pub const QUESTION_INSERT_SQL: &'static str = "INSERT INTO questions (session_id, author_user_id, body, created_at) SELECT ?1, ?2, ?3, unixepoch() WHERE NOT EXISTS (SELECT 1 FROM questions WHERE session_id = ?1 AND author_user_id = ?2 AND created_at > unixepoch() - 60);";

/// Records a vote action (parameters: 1 the user, 2 the question, 3 the value) for the
/// vote rate limit.
pub const VOTE_ACTION_INSERT_SQL: &'static str = "INSERT INTO vote_actions (user_id, question_id, value, created_at) VALUES (?1, ?2, ?3, unixepoch());";

/// The number of vote actions of a user (parameter 1) in the last minute.
pub const VOTE_ACTIONS_LAST_MINUTE_SQL: &'static str = "SELECT COUNT(*) FROM vote_actions WHERE user_id = ?1 AND created_at > unixepoch() - 60;";

/// Forgets the vote actions older than a day.
pub const VOTE_ACTIONS_CLEANUP_SQL: &'static str = "DELETE FROM vote_actions WHERE created_at <= unixepoch() - 86400;";

/// Moves a question's score (parameter 2 the question) by a vote's change (parameter 1).
pub const SCORE_UPDATE_SQL: &'static str = "UPDATE questions SET score = score + ?1 WHERE id = ?2;";

/// The statement that makes a vote's write to the voter's stored vote row (parameters: 1
/// the question, 2 the user, 3 the new value): an insert, a removal or an update; `None`
/// where the vote writes nothing.
pub open spec fn vote_write_statement(w: VoteWrite) -> Option<Seq<char>> {
    match w {
        VoteWrite::Keep => None,
        VoteWrite::Insert => Some("INSERT INTO votes (question_id, user_id, value, created_at, updated_at) VALUES (?1, ?2, ?3, unixepoch(), unixepoch());"@),
        VoteWrite::Remove => Some("DELETE FROM votes WHERE question_id = ?1 AND user_id = ?2;"@),
        VoteWrite::Update => Some("UPDATE votes SET value = ?3, updated_at = unixepoch() WHERE question_id = ?1 AND user_id = ?2;"@),
    }
}

/// The statement of a vote's write; see `vote_write_statement`.
pub fn vote_write_sql(w: VoteWrite) -> (r: Option<&'static str>)
    ensures
        match r {
            Some(s) => vote_write_statement(w) == Some(s@),
            None => vote_write_statement(w) is None,
        },
{
    match w {
        VoteWrite::Keep => None,
        VoteWrite::Insert => Some("INSERT INTO votes (question_id, user_id, value, created_at, updated_at) VALUES (?1, ?2, ?3, unixepoch(), unixepoch());"),
        VoteWrite::Remove => Some("DELETE FROM votes WHERE question_id = ?1 AND user_id = ?2;"),
        VoteWrite::Update => Some("UPDATE votes SET value = ?3, updated_at = unixepoch() WHERE question_id = ?1 AND user_id = ?2;"),
    }
}

} // verus!
