use vstd::prelude::*;

verus! {

broadcast use vstd::seq_lib::group_seq_properties;

/// One entry of a session feed: a question, or a donation (whose `id` is the negated
/// donation id).
#[derive(Debug)]
pub struct FeedItemView {
    pub id: i64,
    pub kind: String,
    pub question_id: Option<i64>,
    pub donation_id: Option<i64>,
    pub session_id: i64,
    pub author_user_id: Option<i64>,
    pub author_nickname: String,
    pub author_is_banned: i64,
    pub body: String,
    pub is_answering: i64,
    pub is_answered: i64,
    pub is_rejected: i64,
    pub is_deleted: i64,
    pub created_at: i64,
    pub score: i64,
    pub votes_count: i64,
    pub user_vote: i64,
    pub answering_started_at: Option<i64>,
    pub answered_at: Option<i64>,
    pub donation_amount_minor: Option<i64>,
    pub donation_currency: Option<String>,
    pub donation_usd_cents: Option<i64>,
    pub donation_external_id: Option<i64>,
}

/// Whether the item is being answered right now.
pub open spec fn is_answering_item(x: FeedItemView) -> bool {
    x.is_answering != 0
}

/// The index of the first item being answered, if any.
pub open spec fn answering_index(s: Seq<FeedItemView>) -> Option<int>
    decreases s.len(),
{
    if s.len() == 0 {
        None
    } else if is_answering_item(s[0]) {
        Some(0)
    } else {
        match answering_index(s.drop_first()) {
            Some(i) => Some(i + 1),
            None => None,
        }
    }
}

/// `s` with its first item that is being answered moved to the front, the others in
/// their order.
pub open spec fn pinned(s: Seq<FeedItemView>) -> Seq<FeedItemView> {
    match answering_index(s) {
        Some(i) => seq![s[i]] + s.remove(i),
        None => s,
    }
}

proof fn lemma_answering_index_at(s: Seq<FeedItemView>, i: int)
    requires
        0 <= i <= s.len(),
        forall|j: int| 0 <= j < i ==> !is_answering_item(#[trigger] s[j]),
        i < s.len() ==> is_answering_item(s[i]),
    ensures
        answering_index(s) == (if i < s.len() { Some(i) } else { None::<int> }),
    decreases i,
{
    if i > 0 {
        let t = s.drop_first();
        assert(!is_answering_item(s[0]));
        assert forall|j: int| 0 <= j < i - 1 implies !is_answering_item(#[trigger] t[j]) by {
            assert(t[j] == s[j + 1]);
        }
        if i < s.len() {
            assert(t[i - 1] == s[i]);
        }
        lemma_answering_index_at(t, i - 1);
    }
}

/// Moves the first item that is being answered to the top of the feed.
pub fn pin_answering_item_first(items: &mut Vec<FeedItemView>)
    ensures
        final(items)@ == pinned(old(items)@),
{
    let n = items.len();
    let mut i: usize = 0;
    while i < n && items[i].is_answering == 0
        invariant
            n == items@.len(),
            i <= n,
            forall|j: int| 0 <= j < i ==> !is_answering_item(#[trigger] items@[j]),
        decreases n - i,
    {
        i = i + 1;
    }
    proof {
        lemma_answering_index_at(items@, i as int);
    }
    if i < n && i != 0 {
        let ghost s = items@;
        let item = items.remove(i);
        items.insert(0, item);
        assert(items@ =~= seq![s[i as int]] + s.remove(i as int));
    } else if i < n {
        assert(seq![items@[0]] + items@.remove(0) =~= items@);
    }
}


/// The orders in which feed lists are sorted, each from largest key to smallest.
#[derive(Debug, Clone, Copy, PartialEq, Eq, Structural)]
pub enum FeedOrder {
    /// By donated value in USD cents, then by creation time.
    DonationValue,
    /// By creation time, then by id.
    Created,
    /// By answer time (creation time when there is none), then by id.
    Answered,
}

/// The sort key of an item in an order.
pub open spec fn feed_key(x: FeedItemView, o: FeedOrder) -> (i64, i64) {
    match o {
        FeedOrder::DonationValue => (
            match x.donation_usd_cents {
                Some(c) => c,
                None => 0,
            },
            x.created_at,
        ),
        FeedOrder::Created => (x.created_at, x.id),
        FeedOrder::Answered => (
            match x.answered_at {
                Some(t) => t,
                None => x.created_at,
            },
            x.id,
        ),
    }
}

/// Key `a` is strictly larger than key `b` (lexicographically), so `a` sorts first.
pub open spec fn key_before(a: (i64, i64), b: (i64, i64)) -> bool {
    a.0 > b.0 || (a.0 == b.0 && a.1 > b.1)
}

/// `s` is sorted from the largest key to the smallest.
pub open spec fn sorted_desc(s: Seq<FeedItemView>, o: FeedOrder) -> bool {
    forall|i: int, j: int|
        #![trigger s[i], s[j]]
        0 <= i < j < s.len() ==> !key_before(feed_key(s[j], o), feed_key(s[i], o))
}

/// The items whose key is `k`.
pub open spec fn key_is(o: FeedOrder, k: (i64, i64)) -> spec_fn(FeedItemView) -> bool {
    |x: FeedItemView| feed_key(x, o) == k
}

/// `out` is `inp` sorted by a stable sort: sorted, and the items of every key keep
/// their order (so `out` is a permutation of `inp`).
pub open spec fn stable_sort_of(out: Seq<FeedItemView>, inp: Seq<FeedItemView>, o: FeedOrder) -> bool {
    &&& sorted_desc(out, o)
    &&& forall|k: (i64, i64)| #[trigger] out.filter(key_is(o, k)) == inp.filter(key_is(o, k))
}

fn key_of(x: &FeedItemView, o: FeedOrder) -> (k: (i64, i64))
    ensures
        k == feed_key(*x, o),
{
    match o {
        FeedOrder::DonationValue => (
            match x.donation_usd_cents {
                Some(c) => c,
                None => 0,
            },
            x.created_at,
        ),
        FeedOrder::Created => (x.created_at, x.id),
        FeedOrder::Answered => (
            match x.answered_at {
                Some(t) => t,
                None => x.created_at,
            },
            x.id,
        ),
    }
}

fn is_key_before(a: (i64, i64), b: (i64, i64)) -> (r: bool)
    ensures
        r == key_before(a, b),
{
    a.0 > b.0 || (a.0 == b.0 && a.1 > b.1)
}

proof fn lemma_filter_none(s: Seq<FeedItemView>, p: spec_fn(FeedItemView) -> bool)
    requires
        forall|i: int| 0 <= i < s.len() ==> !p(#[trigger] s[i]),
    ensures
        s.filter(p) == Seq::<FeedItemView>::empty(),
    decreases s.len(),
{
    reveal(Seq::filter);
    if s.len() > 0 {
        let t = s.drop_last();
        assert forall|i: int| 0 <= i < t.len() implies !p(#[trigger] t[i]) by {
            assert(t[i] == s[i]);
        }
        lemma_filter_none(t, p);
        assert(!p(s.last()));
    }
}

proof fn lemma_filter_single(x: FeedItemView, p: spec_fn(FeedItemView) -> bool)
    ensures
        seq![x].filter(p) == (if p(x) { seq![x] } else { Seq::<FeedItemView>::empty() }),
{
    reveal_with_fuel(Seq::filter, 2);
    assert(seq![x].drop_last() =~= Seq::<FeedItemView>::empty());
    assert(Seq::<FeedItemView>::empty().push(x) =~= seq![x]);
}

/// One step of a stable insertion: `x` goes after every item whose key is not smaller.
proof fn lemma_insert_step(
    out: Seq<FeedItemView>,
    done: Seq<FeedItemView>,
    x: FeedItemView,
    p: int,
    o: FeedOrder,
)
    requires
        stable_sort_of(out, done, o),
        0 <= p <= out.len(),
        forall|q: int| 0 <= q < p ==> !key_before(feed_key(x, o), feed_key(#[trigger] out[q], o)),
        p < out.len() ==> key_before(feed_key(x, o), feed_key(out[p], o)),
    ensures
        stable_sort_of(out.insert(p, x), done.push(x), o),
{
    let n = out.insert(p, x);
    let kx = feed_key(x, o);
    // every item from `p` on sorts strictly after `x`
    assert forall|q: int| p <= q < out.len() implies key_before(kx, feed_key(#[trigger] out[q], o)) by {
        if q > p {
            assert(!key_before(feed_key(out[q], o), feed_key(out[p], o)));
        }
    }
    assert forall|i: int, j: int| 0 <= i < j < n.len() implies !key_before(
        feed_key(#[trigger] n[j], o),
        feed_key(#[trigger] n[i], o),
    ) by {
        if j < p {
            assert(n[i] == out[i] && n[j] == out[j]);
        } else if j == p {
            assert(n[i] == out[i]);
        } else if i < p {
            assert(n[i] == out[i] && n[j] == out[j - 1]);
            assert(key_before(kx, feed_key(out[j - 1], o)));
        } else if i == p {
            assert(n[j] == out[j - 1]);
        } else {
            assert(n[i] == out[i - 1] && n[j] == out[j - 1]);
        }
    }
    assert(n =~= out.take(p) + seq![x] + out.skip(p));
    assert(out =~= out.take(p) + out.skip(p));
    assert forall|k: (i64, i64)| #[trigger] n.filter(key_is(o, k)) == done.push(x).filter(key_is(o, k)) by {
        let f = key_is(o, k);
        let a = out.take(p);
        let b = out.skip(p);
        Seq::filter_distributes_over_add(a + seq![x], b, f);
        Seq::filter_distributes_over_add(a, seq![x], f);
        Seq::filter_distributes_over_add(a, b, f);
        lemma_filter_single(x, f);
        crate::text::lemma_filter_push(done, x, f);
        assert(out.filter(f) == done.filter(f));
        if f(x) {
            assert forall|i: int| 0 <= i < b.len() implies !f(#[trigger] b[i]) by {
                assert(b[i] == out[p + i]);
                assert(key_before(kx, feed_key(out[p + i], o)));
            }
            lemma_filter_none(b, f);
            assert(b.filter(f) + Seq::<FeedItemView>::empty() =~= b.filter(f));
            assert(a.filter(f) + seq![x] =~= (a.filter(f) + b.filter(f)).push(x));
        } else {
            assert(a.filter(f) + Seq::<FeedItemView>::empty() =~= a.filter(f));
        }
    }
}

/// A stable sort of `items` from the largest key to the smallest, as `sort_by` with a
/// descending comparator gives it.
pub fn sort_feed(items: Vec<FeedItemView>, o: FeedOrder) -> (out: Vec<FeedItemView>)
    ensures
        stable_sort_of(out@, items@, o),
{
    let ghost inp = items@;
    let mut rest = items;
    let mut out: Vec<FeedItemView> = Vec::new();
    let ghost mut done: Seq<FeedItemView> = Seq::empty();
    proof {
        assert forall|k: (i64, i64)| #[trigger] out@.filter(key_is(o, k)) == done.filter(key_is(o, k)) by {
            reveal(Seq::filter);
        }
    }
    while rest.len() > 0
        invariant
            inp == done + rest@,
            stable_sort_of(out@, done, o),
        decreases rest@.len(),
    {
        let x = rest.remove(0);
        let kx = key_of(&x, o);
        let mut p: usize = 0;
        while p < out.len() && !is_key_before(kx, key_of(&out[p], o))
            invariant
                p <= out@.len(),
                kx == feed_key(x, o),
                forall|q: int| 0 <= q < p ==> !key_before(kx, feed_key(#[trigger] out@[q], o)),
            decreases out@.len() - p,
        {
            p = p + 1;
        }
        proof {
            lemma_insert_step(out@, done, x, p as int, o);
            assert(inp == done.push(x) + rest@);
            done = done.push(x);
        }
        out.insert(p, x);
    }
    proof {
        assert(done =~= inp);
    }
    out
}


/// The tabs of a session feed.
#[derive(Debug, Clone, Copy, PartialEq, Eq, Structural)]
pub enum QuestionSort {
    Top,
    New,
    Answered,
    Downvoted,
    Deleted,
}

/// How the feed of a tab is put together from the session's question items and donation
/// items, each list as the database gives it for that tab.
pub open spec fn combined_feed(
    sort: QuestionSort,
    questions: Seq<FeedItemView>,
    donations: Seq<FeedItemView>,
    out: Seq<FeedItemView>,
) -> bool {
    match sort {
        // donations first, largest first; then the questions; the item being answered on top
        QuestionSort::Top => exists|d: Seq<FeedItemView>|
            stable_sort_of(d, donations, FeedOrder::DonationValue) && #[trigger] pinned(d + questions) == out,
        // newest first; the item being answered on top
        QuestionSort::New => exists|m: Seq<FeedItemView>|
            stable_sort_of(m, questions + donations, FeedOrder::Created) && #[trigger] pinned(m) == out,
        // most recently answered first
        QuestionSort::Answered => stable_sort_of(out, questions + donations, FeedOrder::Answered),
        // deleted donations only (a deleted question is gone), newest first
        QuestionSort::Deleted => stable_sort_of(out, donations, FeedOrder::Created),
        // questions only
        QuestionSort::Downvoted => out == questions,
    }
}

/// The feed of a tab, from the session's question items and donation items.
pub fn combine_feed_items(
    sort: QuestionSort,
    question_items: Vec<FeedItemView>,
    donation_items: Vec<FeedItemView>,
) -> (out: Vec<FeedItemView>)
    ensures
        combined_feed(sort, question_items@, donation_items@, out@),
{
    let ghost q = question_items@;
    let ghost d = donation_items@;
    let mut question_items = question_items;
    let mut donation_items = donation_items;
    match sort {
        QuestionSort::Top => {
            let mut sorted = sort_feed(donation_items, FeedOrder::DonationValue);
            let ghost sd = sorted@;
            sorted.append(&mut question_items);
            pin_answering_item_first(&mut sorted);
            assert(pinned(sd + q) == sorted@);
            sorted
        },
        QuestionSort::New => {
            question_items.append(&mut donation_items);
            let mut sorted = sort_feed(question_items, FeedOrder::Created);
            let ghost m = sorted@;
            pin_answering_item_first(&mut sorted);
            assert(pinned(m) == sorted@);
            sorted
        },
        QuestionSort::Answered => {
            question_items.append(&mut donation_items);
            sort_feed(question_items, FeedOrder::Answered)
        },
        QuestionSort::Deleted => sort_feed(donation_items, FeedOrder::Created),
        QuestionSort::Downvoted => question_items,
    }
}

/// A pinned feed keeps all of its items: pinning only moves the first item that is being
/// answered to the front and keeps the order of the others.
pub proof fn lemma_pinned_keeps_items(s: Seq<FeedItemView>)
    ensures
        pinned(s).to_multiset() == s.to_multiset(),
        pinned(s).len() == s.len(),
        answering_index(s) matches Some(i) ==> pinned(s)[0] == s[i] && is_answering_item(pinned(s)[0])
            && pinned(s).drop_first() == s.remove(i),
        answering_index(s) is None ==> pinned(s) == s,
{
    lemma_answering_index_bounds(s);
    if let Some(i) = answering_index(s) {
        let r = s.remove(i);
        assert(pinned(s) == seq![s[i]] + r);
        assert((seq![s[i]] + r).drop_first() =~= r);
        vstd::seq_lib::lemma_multiset_commutative(seq![s[i]], r);
        assert(seq![s[i]].to_multiset() =~= vstd::multiset::Multiset::<FeedItemView>::singleton(s[i])) by {
            assert(seq![s[i]] =~= Seq::<FeedItemView>::empty().push(s[i]));
        }
        assert(s.remove(i).to_multiset() =~= s.to_multiset().remove(s[i]));
        assert(s.to_multiset().count(s[i]) > 0) by {
            assert(s.contains(s[i]));
        }
        assert(pinned(s).to_multiset() =~= s.to_multiset());
    }
}

proof fn lemma_answering_index_bounds(s: Seq<FeedItemView>)
    ensures
        answering_index(s) matches Some(i) ==> 0 <= i < s.len() && is_answering_item(s[i])
            && forall|j: int| 0 <= j < i ==> !is_answering_item(#[trigger] s[j]),
        answering_index(s) is None ==> forall|j: int| 0 <= j < s.len() ==> !is_answering_item(#[trigger] s[j]),
    decreases s.len(),
{
    if s.len() > 0 && !is_answering_item(s[0]) {
        let t = s.drop_first();
        lemma_answering_index_bounds(t);
        assert forall|j: int| 0 < j < s.len() implies s[j] == t[j - 1] by {}
    }
}


proof fn lemma_count_in_filter(s: Seq<FeedItemView>, p: spec_fn(FeedItemView) -> bool, x: FeedItemView)
    requires
        p(x),
    ensures
        s.filter(p).to_multiset().count(x) == s.to_multiset().count(x),
    decreases s.len(),
{
    reveal(Seq::filter);
    if s.len() == 0 {
        assert(s.filter(p) =~= s);
    } else {
        let t = s.drop_last();
        lemma_count_in_filter(t, p, x);
        assert(s =~= t.push(s.last()));
        t.to_multiset_ensures();
        t.filter(p).to_multiset_ensures();
        if p(s.last()) {
            assert(s.filter(p) == t.filter(p).push(s.last()));
        } else {
            assert(s.filter(p) == t.filter(p));
            assert(s.last() != x);
        }
    }
}

/// A stable sort only reorders: the sorted list holds the same items, each as many times.
pub proof fn lemma_stable_sort_is_permutation(out: Seq<FeedItemView>, inp: Seq<FeedItemView>, o: FeedOrder)
    requires
        stable_sort_of(out, inp, o),
    ensures
        out.to_multiset() == inp.to_multiset(),
{
    assert forall|x: FeedItemView| out.to_multiset().count(x) == inp.to_multiset().count(x) by {
        let k = feed_key(x, o);
        let f = key_is(o, k);
        lemma_count_in_filter(out, f, x);
        lemma_count_in_filter(inp, f, x);
        assert(out.filter(key_is(o, k)) == inp.filter(key_is(o, k)));
    }
    assert(out.to_multiset() =~= inp.to_multiset());
}

/// Some item of the list is being answered.
pub open spec fn has_answering_item(s: Seq<FeedItemView>) -> bool {
    exists|j: int| 0 <= j < s.len() && is_answering_item(#[trigger] s[j])
}

proof fn lemma_answering_item_leads(s: Seq<FeedItemView>, t: Seq<FeedItemView>)
    requires
        s.to_multiset() == t.to_multiset(),
        has_answering_item(t),
    ensures
        pinned(s).len() > 0 && is_answering_item(pinned(s)[0]),
{
    let j = choose|j: int| 0 <= j < t.len() && is_answering_item(#[trigger] t[j]);
    let x = t[j];
    s.to_multiset_ensures();
    t.to_multiset_ensures();
    assert(t.contains(x));
    assert(t.to_multiset().count(x) > 0);
    assert(s.to_multiset().count(x) > 0);
    assert(s.contains(x));
    let k = choose|k: int| 0 <= k < s.len() && s[k] == x;
    lemma_answering_index_bounds(s);
    assert(is_answering_item(s[k]));
    lemma_pinned_keeps_items(s);
}

/// The feed of a tab holds the session's items: every question and donation item once
/// (the downvoted tab: the questions alone, as the database ordered them; the deleted tab:
/// the donations alone); and in the top and new tabs, an item being answered comes first
/// whatever its score or age.
pub proof fn lemma_feed_holds_items(
    sort: QuestionSort,
    questions: Seq<FeedItemView>,
    donations: Seq<FeedItemView>,
    out: Seq<FeedItemView>,
)
    requires
        combined_feed(sort, questions, donations, out),
    ensures
        sort != QuestionSort::Downvoted && sort != QuestionSort::Deleted
            ==> out.to_multiset() == (questions + donations).to_multiset(),
        sort == QuestionSort::Downvoted ==> out == questions,
        sort == QuestionSort::Deleted ==> out.to_multiset() == donations.to_multiset(),
        (sort == QuestionSort::Top || sort == QuestionSort::New) && has_answering_item(questions + donations)
            ==> out.len() > 0 && is_answering_item(out[0]),
{
    vstd::seq_lib::lemma_multiset_commutative(questions, donations);
    match sort {
        QuestionSort::Top => {
            let d = choose|d: Seq<FeedItemView>|
                stable_sort_of(d, donations, FeedOrder::DonationValue) && #[trigger] pinned(d + questions) == out;
            lemma_stable_sort_is_permutation(d, donations, FeedOrder::DonationValue);
            lemma_pinned_keeps_items(d + questions);
            vstd::seq_lib::lemma_multiset_commutative(d, questions);
            assert((d + questions).to_multiset() =~= (questions + donations).to_multiset());
            if has_answering_item(questions + donations) {
                lemma_answering_item_leads(d + questions, questions + donations);
            }
        },
        QuestionSort::New => {
            let m = choose|m: Seq<FeedItemView>|
                stable_sort_of(m, questions + donations, FeedOrder::Created) && #[trigger] pinned(m) == out;
            lemma_stable_sort_is_permutation(m, questions + donations, FeedOrder::Created);
            lemma_pinned_keeps_items(m);
            if has_answering_item(questions + donations) {
                lemma_answering_item_leads(m, questions + donations);
            }
        },
        QuestionSort::Answered => {
            lemma_stable_sort_is_permutation(out, questions + donations, FeedOrder::Answered);
        },
        QuestionSort::Deleted => {
            lemma_stable_sort_is_permutation(out, donations, FeedOrder::Created);
        },
        QuestionSort::Downvoted => {},
    }
}

/// The donated value of an item in USD cents, 0 where it holds none.
pub open spec fn usd_cents_or_zero(x: FeedItemView) -> i64 {
    match x.donation_usd_cents {
        Some(c) => c,
        None => 0,
    }
}

/// The answer time of an item, its creation time where it has none.
pub open spec fn answered_or_created(x: FeedItemView) -> i64 {
    match x.answered_at {
        Some(t) => t,
        None => x.created_at,
    }
}

/// What each feed order means for two items one before the other: by donated value in
/// USD cents, whatever the amount in the donation's own currency, then the newer first;
/// by creation time, then the larger id first; by answer time (creation time where there is
/// none), then the larger id first.
pub proof fn lemma_feed_orders(s: Seq<FeedItemView>, o: FeedOrder, i: int, j: int)
    requires
        sorted_desc(s, o),
        0 <= i < j < s.len(),
    ensures
        o == FeedOrder::DonationValue ==> usd_cents_or_zero(s[i]) > usd_cents_or_zero(s[j])
            || (usd_cents_or_zero(s[i]) == usd_cents_or_zero(s[j]) && s[i].created_at >= s[j].created_at),
        o == FeedOrder::Created ==> s[i].created_at > s[j].created_at
            || (s[i].created_at == s[j].created_at && s[i].id >= s[j].id),
        o == FeedOrder::Answered ==> answered_or_created(s[i]) > answered_or_created(s[j])
            || (answered_or_created(s[i]) == answered_or_created(s[j]) && s[i].id >= s[j].id),
{
    assert(!key_before(feed_key(s[j], o), feed_key(s[i], o)));
}

/// The top tab lists the donations first, from the largest value in USD cents down (the
/// newer first at equal value), then the questions; where nothing is being answered no item
/// is moved to the front.
pub proof fn lemma_top_feed_donations_by_value(
    questions: Seq<FeedItemView>,
    donations: Seq<FeedItemView>,
    out: Seq<FeedItemView>,
    i: int,
    j: int,
)
    requires
        combined_feed(QuestionSort::Top, questions, donations, out),
        !has_answering_item(questions + donations),
        0 <= i < j < donations.len(),
    ensures
        out.len() == donations.len() + questions.len(),
        usd_cents_or_zero(out[i]) > usd_cents_or_zero(out[j])
            || (usd_cents_or_zero(out[i]) == usd_cents_or_zero(out[j]) && out[i].created_at >= out[j].created_at),
        out.subrange(donations.len() as int, out.len() as int) == questions,
{
    let d = choose|d: Seq<FeedItemView>|
        stable_sort_of(d, donations, FeedOrder::DonationValue) && #[trigger] pinned(d + questions) == out;
    lemma_stable_sort_is_permutation(d, donations, FeedOrder::DonationValue);
    d.to_multiset_ensures();
    donations.to_multiset_ensures();
    lemma_answering_index_bounds(d + questions);
    if let Some(k) = answering_index(d + questions) {
        let x = (d + questions)[k];
        if k < d.len() {
            assert(d.contains(x));
            assert(d.to_multiset().count(x) > 0);
            assert(donations.contains(x));
            let m = choose|m: int| 0 <= m < donations.len() && donations[m] == x;
            assert((questions + donations)[questions.len() + m] == x);
        } else {
            assert((questions + donations)[k - d.len()] == x);
        }
    }
    assert(out == d + questions);
    lemma_feed_orders(d, FeedOrder::DonationValue, i, j);
    assert(out.subrange(donations.len() as int, out.len() as int) =~= questions);
}

} // verus!
