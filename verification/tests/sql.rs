use qstream::feed::QuestionSort;
use qstream::moderation::StatusAction;
use qstream::sql::{
    active_session_condition_sql, donation_feed_clauses, effective_session_donations_enabled_at_sql,
    effective_session_donations_enabled_sql, effective_session_donations_min_external_id_sql,
    effective_session_is_active_sql, effective_session_stopped_at_sql, question_feed_clauses,
    donation_routing_sql, question_moderation_sql, status_update_sql, stream_session_select_sql,
    vote_write_sql, BAN_QUESTIONS_DELETE_SQL, QUESTION_INSERT_SQL, VOTE_ACTIONS_LAST_MINUTE_SQL,
};
use qstream::votes::VoteWrite;

#[test]
fn active_condition() {
    assert_eq!(active_session_condition_sql("s"), "s.is_active = 1 AND s.created_at > unixepoch() - 172800");
}

#[test]
fn effective_columns() {
    let cond = "s.is_active = 1 AND s.created_at > unixepoch() - 172800";
    assert_eq!(effective_session_is_active_sql("s"), format!("CASE WHEN {cond} THEN 1 ELSE 0 END"));
    assert_eq!(
        effective_session_stopped_at_sql("s"),
        "CASE WHEN s.is_active = 1 AND s.created_at <= unixepoch() - 172800 THEN COALESCE(s.stopped_at, s.created_at + 172800) ELSE s.stopped_at END"
    );
    assert_eq!(effective_session_donations_enabled_sql("s"), format!("CASE WHEN {cond} THEN s.donations_enabled ELSE 0 END"));
    assert_eq!(effective_session_donations_enabled_at_sql("s"), format!("CASE WHEN {cond} THEN s.donations_enabled_at ELSE NULL END"));
    assert_eq!(
        effective_session_donations_min_external_id_sql("s"),
        format!("CASE WHEN {cond} THEN s.donations_min_external_id ELSE NULL END")
    );
}

#[test]
fn select_list() {
    let alias = "s";
    let expected = format!(
        r#"
            {alias}.id,
            {alias}.owner_user_id,
            {alias}.public_code,
            {alias}.created_at,
            {is_active} AS is_active,
            {alias}.name,
            {alias}.description,
            {alias}.stream_link,
            {stopped_at} AS stopped_at,
            {alias}.downvote_threshold,
            {donations_enabled} AS donations_enabled,
            {donations_enabled_at} AS donations_enabled_at,
            {donations_min_external_id} AS donations_min_external_id
        "#,
        alias = alias,
        is_active = effective_session_is_active_sql(alias),
        stopped_at = effective_session_stopped_at_sql(alias),
        donations_enabled = effective_session_donations_enabled_sql(alias),
        donations_enabled_at = effective_session_donations_enabled_at_sql(alias),
        donations_min_external_id = effective_session_donations_min_external_id_sql(alias),
    );
    assert_eq!(stream_session_select_sql(alias), expected);
}

#[test]
fn question_clauses_by_tab() {
    let (w, o) = question_feed_clauses(QuestionSort::Top, 5).unwrap();
    assert_eq!(w, "WHERE q.session_id = ?1 AND q.status IN ('new', 'answering') AND (q.score > -5 OR q.status = 'answering')");
    assert_eq!(o, "ORDER BY (q.status = 'answering') DESC, q.score DESC, q.created_at DESC");
    let (w, o) = question_feed_clauses(QuestionSort::New, 120).unwrap();
    assert_eq!(w, "WHERE q.session_id = ?1 AND q.status IN ('new', 'answering') AND (q.score > -120 OR q.status = 'answering')");
    assert_eq!(o, "ORDER BY (q.status = 'answering') DESC, q.created_at DESC");
    let (w, o) = question_feed_clauses(QuestionSort::Downvoted, 0).unwrap();
    assert_eq!(w, "WHERE q.session_id = ?1 AND q.status = 'new' AND q.score <= -1");
    assert_eq!(o, "ORDER BY q.score ASC, q.created_at DESC");
    let (w, o) = question_feed_clauses(QuestionSort::Answered, 5).unwrap();
    assert_eq!(w, "WHERE q.session_id = ?1 AND q.status = 'answered'");
    assert_eq!(o, "ORDER BY q.answered_at DESC");
    assert_eq!(question_feed_clauses(QuestionSort::Deleted, 5), None);
    let (w, _) = question_feed_clauses(QuestionSort::Top, 1000).unwrap();
    assert!(w.contains("-1000 "));
}

#[test]
fn donation_clauses_by_tab() {
    assert_eq!(donation_feed_clauses(QuestionSort::Downvoted), None);
    let (w, o) = donation_feed_clauses(QuestionSort::Top).unwrap();
    assert_eq!(w, "WHERE d.session_id = ?1 AND d.status IN ('new', 'answering')");
    assert_eq!(o, "ORDER BY d.usd_cents DESC, d.created_at DESC");
    let (_, o) = donation_feed_clauses(QuestionSort::New).unwrap();
    assert_eq!(o, "ORDER BY d.created_at DESC");
    let (w, _) = donation_feed_clauses(QuestionSort::Deleted).unwrap();
    assert_eq!(w, "WHERE d.session_id = ?1 AND d.status = 'deleted'");
    let (w, o) = donation_feed_clauses(QuestionSort::Answered).unwrap();
    assert_eq!(w, "WHERE d.session_id = ?1 AND d.status IN ('answered', 'rejected')");
    assert_eq!(o, "ORDER BY COALESCE(d.answered_at, d.created_at) DESC");
}

#[test]
fn status_update_statements() {
    assert_eq!(
        status_update_sql("questions", "donations", StatusAction::Answer),
        "UPDATE questions SET status = ?2, answering_started_at = unixepoch(), answered_at = NULL \
         WHERE id = ?1 AND status IN (?3, ?4) \
         AND NOT EXISTS (SELECT 1 FROM questions other WHERE other.session_id = ?5 AND other.status = ?2 AND other.id != ?1) \
         AND NOT EXISTS (SELECT 1 FROM donations other WHERE other.session_id = ?5 AND other.status = ?2);"
    );
    assert_eq!(
        status_update_sql("donations", "questions", StatusAction::FinishAnswering),
        "UPDATE donations SET status = ?2, answered_at = unixepoch() WHERE id = ?1 AND status IN (?3);"
    );
    assert_eq!(
        status_update_sql("questions", "donations", StatusAction::Reopen),
        "UPDATE questions SET status = ?2, answering_started_at = NULL, answered_at = NULL WHERE id = ?1 AND status IN (?3, ?4);"
    );
    assert_eq!(
        status_update_sql("donations", "questions", StatusAction::Delete),
        "UPDATE donations SET status = ?2 WHERE id = ?1 AND status IN (?3, ?4, ?5, ?6);"
    );
    for a in [
        StatusAction::Answer,
        StatusAction::FinishAnswering,
        StatusAction::Reject,
        StatusAction::Reopen,
        StatusAction::Restore,
        StatusAction::Delete,
    ] {
        let sql = status_update_sql("questions", "donations", a);
        let last_source = format!("?{}", a.sources().len() + 2);
        let next = format!("?{}", a.sources().len() + 3);
        assert!(sql.contains(&last_source));
        assert_eq!(sql.contains(&next), a.needs_exclusive_answering());
    }
}

#[test]
fn question_moderation_statements() {
    assert_eq!(question_moderation_sql(StatusAction::Delete), "DELETE FROM questions WHERE id = ?1;");
    assert_eq!(
        question_moderation_sql(StatusAction::Reject),
        status_update_sql("questions", "donations", StatusAction::Reject)
    );
    assert_eq!(
        BAN_QUESTIONS_DELETE_SQL,
        "DELETE FROM questions WHERE session_id = ?1 AND author_user_id = ?2;"
    );
}

#[test]
fn donation_routing_statements() {
    let cond = active_session_condition_sql("stream_sessions");
    assert_eq!(
        donation_routing_sql(true),
        format!(
            "UPDATE stream_sessions SET donations_enabled = CASE WHEN id = ?3 THEN 1 ELSE 0 END, \
             donations_enabled_at = CASE WHEN id = ?3 THEN COALESCE(donations_enabled_at, unixepoch()) ELSE NULL END, \
             donations_min_external_id = CASE WHEN id = ?3 THEN CASE WHEN donations_min_external_id IS NULL THEN ?2 \
             WHEN donations_min_external_id < ?2 THEN ?2 ELSE donations_min_external_id END ELSE NULL END \
             WHERE owner_user_id = ?1 AND {cond};"
        )
    );
    assert_eq!(
        donation_routing_sql(false),
        format!(
            "UPDATE stream_sessions SET donations_enabled_at = COALESCE(donations_enabled_at, unixepoch()), \
             donations_min_external_id = CASE WHEN donations_min_external_id IS NULL THEN ?2 \
             WHEN donations_min_external_id < ?2 THEN ?2 ELSE donations_min_external_id END \
             WHERE owner_user_id = ?1 AND {cond} AND donations_enabled = 1;"
        )
    );
}

#[test]
fn vote_and_question_statements() {
    assert_eq!(vote_write_sql(VoteWrite::Keep), None);
    assert_eq!(
        vote_write_sql(VoteWrite::Remove),
        Some("DELETE FROM votes WHERE question_id = ?1 AND user_id = ?2;")
    );
    assert!(vote_write_sql(VoteWrite::Insert).unwrap().starts_with("INSERT INTO votes "));
    assert!(vote_write_sql(VoteWrite::Update).unwrap().starts_with("UPDATE votes SET value = ?3"));
    assert!(QUESTION_INSERT_SQL.contains("created_at > unixepoch() - 60"));
    assert!(VOTE_ACTIONS_LAST_MINUTE_SQL.contains("created_at > unixepoch() - 60"));
}
