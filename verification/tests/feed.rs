use qstream::feed::{pin_answering_item_first, FeedItemView};

fn feed_item(id: i64, kind: &str, is_answering: i64, donation_usd_cents: Option<i64>) -> FeedItemView {
    FeedItemView {
        id,
        kind: kind.to_string(),
        question_id: if kind == "question" { Some(id) } else { None },
        donation_id: if kind == "donation" { Some(id.abs()) } else { None },
        session_id: 1,
        author_user_id: Some(1),
        author_nickname: "tester".to_string(),
        author_is_banned: 0,
        body: format!("{kind} {id}"),
        is_answering,
        is_answered: 0,
        is_rejected: 0,
        is_deleted: 0,
        created_at: id,
        score: 0,
        votes_count: 0,
        user_vote: 0,
        answering_started_at: None,
        answered_at: None,
        donation_amount_minor: None,
        donation_currency: None,
        donation_usd_cents,
        donation_external_id: None,
    }
}

#[test]
fn pin_answering_item_first_moves_active_question_to_top() {
    let mut items = vec![
        feed_item(-10, "donation", 0, Some(1_000)),
        feed_item(20, "question", 1, None),
        feed_item(30, "question", 0, None),
    ];

    pin_answering_item_first(&mut items);

    assert_eq!(items[0].kind, "question");
    assert_eq!(items[0].id, 20);
}

#[test]
fn pin_answering_item_first_moves_active_donation_to_top() {
    let mut items = vec![
        feed_item(-10, "donation", 0, Some(5_000)),
        feed_item(-20, "donation", 1, Some(100)),
        feed_item(30, "question", 0, None),
    ];

    pin_answering_item_first(&mut items);

    assert_eq!(items[0].kind, "donation");
    assert_eq!(items[0].id, -20);
}

use qstream::feed::{combine_feed_items, sort_feed, FeedOrder, QuestionSort};

fn ids(items: &[FeedItemView]) -> Vec<i64> {
    items.iter().map(|i| i.id).collect()
}

#[test]
fn pin_leaves_feed_without_answering_item() {
    let mut items = vec![feed_item(1, "question", 0, None), feed_item(2, "question", 0, None)];
    pin_answering_item_first(&mut items);
    assert_eq!(ids(&items), vec![1, 2]);
}

#[test]
fn pin_moves_only_first_answering_item_and_keeps_order() {
    let mut items = vec![
        feed_item(1, "question", 0, None),
        feed_item(2, "question", 0, None),
        feed_item(3, "question", 1, None),
        feed_item(4, "question", 1, None),
    ];
    pin_answering_item_first(&mut items);
    assert_eq!(ids(&items), vec![3, 1, 2, 4]);
}

#[test]
fn top_feed_puts_largest_donations_first_then_questions() {
    let questions = vec![feed_item(7, "question", 0, None), feed_item(8, "question", 0, None)];
    let donations = vec![
        feed_item(-1, "donation", 0, Some(100)),
        feed_item(-2, "donation", 0, Some(500)),
        feed_item(-3, "donation", 0, Some(100)),
    ];
    let out = combine_feed_items(QuestionSort::Top, questions, donations);
    // same value: the later creation time (created_at == id here: -1 > -3) first
    assert_eq!(ids(&out), vec![-2, -1, -3, 7, 8]);
}

#[test]
fn top_feed_pins_answering_question_above_donations() {
    let questions = vec![feed_item(7, "question", 0, None), feed_item(8, "question", 1, None)];
    let donations = vec![feed_item(-2, "donation", 0, Some(500))];
    let out = combine_feed_items(QuestionSort::Top, questions, donations);
    assert_eq!(ids(&out), vec![8, -2, 7]);
}

#[test]
fn new_feed_is_newest_first_with_answering_pinned() {
    let mut q1 = feed_item(1, "question", 0, None);
    q1.created_at = 100;
    let mut q2 = feed_item(2, "question", 1, None);
    q2.created_at = 50;
    let mut d1 = feed_item(-5, "donation", 0, Some(10));
    d1.created_at = 200;
    let out = combine_feed_items(QuestionSort::New, vec![q1, q2], vec![d1]);
    assert_eq!(ids(&out), vec![2, -5, 1]);
}

#[test]
fn new_feed_breaks_time_ties_by_larger_id() {
    let mut q1 = feed_item(1, "question", 0, None);
    q1.created_at = 100;
    let mut q2 = feed_item(2, "question", 0, None);
    q2.created_at = 100;
    let out = combine_feed_items(QuestionSort::New, vec![q1, q2], vec![]);
    assert_eq!(ids(&out), vec![2, 1]);
}

#[test]
fn answered_feed_orders_by_answer_time() {
    let mut q1 = feed_item(1, "question", 0, None);
    q1.answered_at = Some(300);
    let mut q2 = feed_item(2, "question", 0, None);
    q2.created_at = 400;
    q2.answered_at = Some(320);
    let mut d1 = feed_item(-3, "donation", 0, Some(1));
    d1.answered_at = Some(350);
    let out = combine_feed_items(QuestionSort::Answered, vec![q1, q2], vec![d1]);
    assert_eq!(ids(&out), vec![-3, 2, 1]);
}

#[test]
fn answered_feed_places_rejected_donation_by_creation_time() {
    let mut q1 = feed_item(1, "question", 0, None);
    q1.answered_at = Some(300);
    let mut d1 = feed_item(-3, "donation", 0, Some(1));
    d1.is_rejected = 1;
    d1.created_at = 310;
    d1.answered_at = None;
    let out = combine_feed_items(QuestionSort::Answered, vec![q1], vec![d1]);
    assert_eq!(ids(&out), vec![-3, 1]);
}

#[test]
fn deleted_feed_holds_deleted_donations_newest_first() {
    let mut d1 = feed_item(-1, "donation", 1, Some(5));
    d1.created_at = 10;
    let mut d2 = feed_item(-2, "donation", 0, Some(5));
    d2.created_at = 20;
    let out = combine_feed_items(QuestionSort::Deleted, vec![feed_item(7, "question", 0, None)], vec![d1, d2]);
    assert_eq!(ids(&out), vec![-2, -1]);
}

#[test]
fn downvoted_feed_holds_questions_only() {
    let out = combine_feed_items(
        QuestionSort::Downvoted,
        vec![feed_item(4, "question", 0, None), feed_item(3, "question", 0, None)],
        vec![feed_item(-1, "donation", 0, Some(9))],
    );
    assert_eq!(ids(&out), vec![4, 3]);
}

#[test]
fn sort_feed_is_stable_for_equal_keys() {
    let mut a = feed_item(-1, "donation", 0, Some(100));
    a.created_at = 5;
    a.body = "first".to_string();
    let mut b = feed_item(-2, "donation", 0, Some(100));
    b.created_at = 5;
    b.body = "second".to_string();
    let out = sort_feed(vec![a, b], FeedOrder::DonationValue);
    assert_eq!(out[0].body, "first");
    assert_eq!(out[1].body, "second");
}

#[test]
fn sort_feed_keeps_every_item() {
    let items: Vec<FeedItemView> = (0..10).map(|i| feed_item((i * 7) % 10, "question", 0, None)).collect();
    let out = sort_feed(items, FeedOrder::Created);
    let mut got = ids(&out);
    assert_eq!(got, vec![9, 8, 7, 6, 5, 4, 3, 2, 1, 0]);
    got.sort();
    assert_eq!(got, (0..10).collect::<Vec<i64>>());
}
