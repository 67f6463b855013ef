use vstd::prelude::*;
use crate::text::{ascii_upper_char, char_vec, to_ascii_uppercase, trim_string, trimmed};

verus! {

broadcast use vstd::string::group_string_axioms;

/// The currencies whose USD rate is known; the rates themselves are decimal fractions
/// that the application applies.
#[derive(Debug, Clone, Copy, PartialEq, Eq, Structural)]
pub enum UsdRate {
    Usd,
    Eur,
    Rub,
    Byn,
    Kzt,
    Uah,
    Brl,
    Try,
}

/// The code under which a currency is looked up: trimmed and in ASCII uppercase.
pub open spec fn currency_key(c: Seq<char>) -> Seq<char> {
    trimmed(c).map_values(|x: char| ascii_upper_char(x))
}

/// The known rate of a currency code, if any.
pub open spec fn spec_usd_rate(c: Seq<char>) -> Option<UsdRate> {
    let k = currency_key(c);
    if k == "USD"@ {
        Some(UsdRate::Usd)
    } else if k == "EUR"@ {
        Some(UsdRate::Eur)
    } else if k == "RUB"@ {
        Some(UsdRate::Rub)
    } else if k == "BYN"@ {
        Some(UsdRate::Byn)
    } else if k == "KZT"@ {
        Some(UsdRate::Kzt)
    } else if k == "UAH"@ {
        Some(UsdRate::Uah)
    } else if k == "BRL"@ {
        Some(UsdRate::Brl)
    } else if k == "TRY"@ {
        Some(UsdRate::Try)
    } else {
        None
    }
}

fn same_chars(a: &Vec<char>, b: &str) -> (r: bool)
    ensures
        r == (a@ == b@),
{
    let bv = char_vec(b);
    if a.len() != bv.len() {
        return false;
    }
    let mut i: usize = 0;
    while i < a.len()
        invariant
            a@.len() == bv@.len(),
            bv@ == b@,
            i <= a@.len(),
            forall|k: int| 0 <= k < i ==> a@[k] == bv@[k],
        decreases a@.len() - i,
    {
        if a[i] != bv[i] {
            assert(a@[i as int] != bv@[i as int]);
            return false;
        }
        i = i + 1;
    }
    assert(a@ =~= bv@);
    true
}

/// The rate under which an amount in `currency` is converted to USD cents.
pub fn usd_rate_for_currency(currency: &str) -> (r: Option<UsdRate>)
    ensures
        r == spec_usd_rate(currency@),
{
    let t = trim_string(currency);
    let u = to_ascii_uppercase(t.as_str());
    let k = char_vec(u.as_str());
    if same_chars(&k, "USD") {
        Some(UsdRate::Usd)
    } else if same_chars(&k, "EUR") {
        Some(UsdRate::Eur)
    } else if same_chars(&k, "RUB") {
        Some(UsdRate::Rub)
    } else if same_chars(&k, "BYN") {
        Some(UsdRate::Byn)
    } else if same_chars(&k, "KZT") {
        Some(UsdRate::Kzt)
    } else if same_chars(&k, "UAH") {
        Some(UsdRate::Uah)
    } else if same_chars(&k, "BRL") {
        Some(UsdRate::Brl)
    } else if same_chars(&k, "TRY") {
        Some(UsdRate::Try)
    } else {
        None
    }
}

/// The larger of two values.
pub open spec fn max_i64(a: i64, b: i64) -> i64 {
    if a >= b { a } else { b }
}

/// The external id after which a sync takes donations: the larger of the session's
/// minimum and the last id seen (each 0 when unknown).
pub fn donation_sync_baseline(session_min_external_id: Option<i64>, last_seen_external_id: Option<i64>) -> (b: i64)
    ensures
        b == max_i64(
            match session_min_external_id { Some(x) => x, None => 0 },
            match last_seen_external_id { Some(x) => x, None => 0 },
        ),
{
    let a = match session_min_external_id { Some(x) => x, None => 0 };
    let c = match last_seen_external_id { Some(x) => x, None => 0 };
    if a >= c { a } else { c }
}

/// The largest of `start` and the ids.
pub open spec fn max_of(start: i64, ids: Seq<i64>) -> i64
    decreases ids.len(),
{
    if ids.len() == 0 {
        start
    } else {
        max_i64(max_of(start, ids.drop_last()), ids.last())
    }
}

/// The largest external id seen by a sync that started after `baseline`.
pub fn max_external_id(baseline: i64, ids: &Vec<i64>) -> (m: i64)
    ensures
        m == max_of(baseline, ids@),
        m >= baseline,
        forall|i: int| 0 <= i < ids@.len() ==> ids@[i] <= m,
{
    let mut m = baseline;
    let mut i: usize = 0;
    while i < ids.len()
        invariant
            i <= ids@.len(),
            m == max_of(baseline, ids@.take(i as int)),
            m >= baseline,
            forall|k: int| 0 <= k < i ==> ids@[k] <= m,
        decreases ids@.len() - i,
    {
        assert(ids@.take(i + 1).drop_last() =~= ids@.take(i as int));
        if ids[i] > m {
            m = ids[i];
        }
        i = i + 1;
    }
    assert(ids@.take(i as int) =~= ids@);
    m
}

proof fn lemma_max_of_bounds(start: i64, ids: Seq<i64>)
    ensures
        max_of(start, ids) >= start,
        forall|i: int| 0 <= i < ids.len() ==> ids[i] <= max_of(start, ids),
    decreases ids.len(),
{
    if ids.len() > 0 {
        lemma_max_of_bounds(start, ids.drop_last());
        assert forall|i: int| 0 <= i < ids.len() implies ids[i] <= max_of(start, ids) by {
            if i < ids.len() - 1 {
                assert(ids[i] == ids.drop_last()[i]);
            }
        }
    }
}

/// A sync round never moves the last seen donation id back, and never takes a donation
/// twice: with the largest id it saw stored as the last seen one, the next round's
/// baseline (whatever its session's minimum) is at least every id this round took, so the
/// next round, which takes only ids above its baseline, skips them.
pub proof fn lemma_sync_moves_forward(
    session_min_external_id: Option<i64>,
    last_seen_external_id: Option<i64>,
    taken: Seq<i64>,
    next_session_min_external_id: Option<i64>,
)
    ensures
        ({
            let last = match last_seen_external_id { Some(x) => x, None => 0 };
            let base = max_i64(match session_min_external_id { Some(x) => x, None => 0 }, last);
            let seen = max_of(base, taken);
            let next_base = max_i64(match next_session_min_external_id { Some(x) => x, None => 0 }, seen);
            &&& seen >= last
            &&& forall|i: int| 0 <= i < taken.len() ==> !(#[trigger] taken[i] > next_base)
        }),
{
    let last = match last_seen_external_id { Some(x) => x, None => 0 };
    let base = max_i64(match session_min_external_id { Some(x) => x, None => 0 }, last);
    lemma_max_of_bounds(base, taken);
}

/// How often the sync state of an integration is refreshed when nothing changes.
pub const SYNC_STATE_TOUCH_INTERVAL_SECS: i64 = 900;

/// Whether a sync writes its state back: when the last id seen moved, when an error is
/// to be cleared, or when the state was last written 15 minutes ago or more.
pub fn should_update_sync_state(
    max_seen: i64,
    last_seen_external_id: Option<i64>,
    has_last_error: bool,
    last_sync_at: Option<i64>,
    now: i64,
) -> (b: bool)
    requires
        now >= i64::MIN + SYNC_STATE_TOUCH_INTERVAL_SECS,
    ensures
        b == (max_seen != (match last_seen_external_id { Some(x) => x, None => 0 }) || has_last_error
            || (match last_sync_at { Some(x) => x, None => 0 }) <= now - SYNC_STATE_TOUCH_INTERVAL_SECS),
{
    let last = match last_seen_external_id { Some(x) => x, None => 0 };
    let synced = match last_sync_at { Some(x) => x, None => 0 };
    max_seen != last || has_last_error || synced <= now - SYNC_STATE_TOUCH_INTERVAL_SECS
}

/// The newest external id on a page of donations: the largest, or 0 for an empty page.
pub fn latest_external_id(ids: &Vec<i64>) -> (m: i64)
    ensures
        ids@.len() == 0 ==> m == 0,
        ids@.len() > 0 ==> m == max_of(ids@[0], ids@.drop_first()),
        ids@.len() > 0 ==> (ids@.contains(m) && forall|i: int| 0 <= i < ids@.len() ==> ids@[i] <= m),
{
    if ids.len() == 0 {
        return 0;
    }
    let mut m = ids[0];
    let mut i: usize = 1;
    assert(ids@.subrange(0, 1)[0] == m);
    while i < ids.len()
        invariant
            1 <= i <= ids@.len(),
            m == max_of(ids@[0], ids@.subrange(1, i as int)),
            ids@.subrange(0, i as int).contains(m),
            forall|k: int| 0 <= k < i ==> ids@[k] <= m,
        decreases ids@.len() - i,
    {
        assert(ids@.subrange(1, i + 1).drop_last() =~= ids@.subrange(1, i as int));
        if ids[i] > m {
            m = ids[i];
            assert(ids@.subrange(0, i + 1)[i as int] == m);
        } else {
            let ghost w = choose|w: int| 0 <= w < i && ids@.subrange(0, i as int)[w] == m;
            assert(ids@.subrange(0, i + 1)[w] == m);
        }
        i = i + 1;
    }
    assert(ids@.subrange(1, i as int) =~= ids@.drop_first());
    assert(ids@.subrange(0, i as int) =~= ids@);
    m
}

/// The external id after which a newly routed session takes donations: the newest id
/// reported by the service (when it answered) and the integration's fallback, whichever
/// is larger.
pub fn donation_baseline(latest: Option<i64>, fallback: i64) -> (b: i64)
    ensures
        b == match latest {
            Some(l) => max_i64(l, fallback),
            None => fallback,
        },
{
    match latest {
        Some(l) => if l >= fallback { l } else { fallback },
        None => fallback,
    }
}

/// The fallback baseline of an integration: its last seen id, never below 0.
pub fn baseline_fallback(last_seen_external_id: Option<i64>) -> (b: i64)
    ensures
        b == max_i64(match last_seen_external_id { Some(x) => x, None => 0 }, 0),
{
    let x = match last_seen_external_id { Some(x) => x, None => 0 };
    if x >= 0 { x } else { 0 }
}

/// When an access token of the donation service is taken to expire: its lifetime (an hour
/// when unknown, at least a minute) from `now`, less 30 seconds of margin.
pub fn token_expires_at(now: i64, expires_in: Option<i64>) -> (t: i64)
    requires
        i64::MIN + 30 <= now + max_i64(match expires_in { Some(e) => e, None => 3600 }, 60) <= i64::MAX,
    ensures
        t == now + max_i64(match expires_in { Some(e) => e, None => 3600 }, 60) - 30,
{
    let e = match expires_in { Some(e) => e, None => 3600 };
    let e = if e >= 60 { e } else { 60 };
    now + e - 30
}

/// An access token is used as it is while it stays valid for more than a minute.
pub fn token_still_valid(token_expires_at: i64, now: i64) -> (b: bool)
    requires
        now <= i64::MAX - 60,
    ensures
        b == (token_expires_at > now + 60),
{
    token_expires_at > now + 60
}

/// The OAuth scopes requested from the donation service.
pub const DA_SCOPES: &'static str = "oauth-user-show oauth-donation-index oauth-donation-subscribe";

/// The scope granted to an integration: the one the service reports, else the requested one.
pub fn granted_scope(reported: Option<String>) -> (s: String)
    ensures
        s@ == match reported {
            Some(r) => r@,
            None => DA_SCOPES@,
        },
{
    match reported {
        Some(r) => r,
        None => DA_SCOPES.to_owned(),
    }
}


/// Donations are fetched from the service in pages of this many.
pub const DONATION_PAGE_SIZE: i64 = 100;

/// A sync fetches at most this many pages.
pub const MAX_DONATION_PAGES: i64 = 20;

/// Whether a sync fetches page number `page` (counted from 1): up to the page limit, until
/// a page reaches a donation it already knows.
pub fn fetch_next_page(page: i64, reached_known_id: bool) -> (b: bool)
    ensures
        b == (page <= MAX_DONATION_PAGES && !reached_known_id),
{
    page <= MAX_DONATION_PAGES && !reached_known_id
}

/// The positions, in page order, of the donations newer than `baseline` on a page whose
/// external ids are `ids`; and whether the page also holds an older one.
pub fn scan_donation_page(ids: &Vec<i64>, baseline: i64) -> (r: (Vec<usize>, bool))
    ensures
        forall|k: int| 0 <= k < r.0@.len() ==> #[trigger] r.0@[k] < ids@.len() && ids@[r.0@[k] as int] > baseline,
        forall|a: int, b: int| 0 <= a < b < r.0@.len() ==> r.0@[a] < r.0@[b],
        forall|i: int| 0 <= i < ids@.len() && ids@[i] > baseline ==> r.0@.contains(i as usize),
        r.1 == exists|i: int| 0 <= i < ids@.len() && ids@[i] <= baseline,
{
    let mut keep: Vec<usize> = Vec::new();
    let mut has_old = false;
    let mut i: usize = 0;
    while i < ids.len()
        invariant
            i <= ids@.len(),
            forall|k: int| 0 <= k < keep@.len() ==> #[trigger] keep@[k] < i && ids@[keep@[k] as int] > baseline,
            forall|a: int, b: int| 0 <= a < b < keep@.len() ==> keep@[a] < keep@[b],
            forall|j: int| 0 <= j < i && ids@[j] > baseline ==> keep@.contains(j as usize),
            has_old == exists|j: int| 0 <= j < i && ids@[j] <= baseline,
        decreases ids@.len() - i,
    {
        if ids[i] <= baseline {
            has_old = true;
        } else {
            let ghost before = keep@;
            keep.push(i);
            assert forall|j: int| 0 <= j < i + 1 && ids@[j] > baseline implies keep@.contains(j as usize) by {
                if j < i {
                    assert(before.contains(j as usize));
                    let w = choose|w: int| 0 <= w < before.len() && before[w] == j as usize;
                    assert(keep@[w] == j as usize);
                } else {
                    assert(keep@[keep@.len() - 1] == i);
                }
            }
        }
        i = i + 1;
    }
    (keep, has_old)
}

/// The positions of `ids` in the order of a stable sort by external id: increasing id,
/// and for equal ids the earlier position first.
pub fn order_by_external_id(ids: &Vec<i64>) -> (order: Vec<usize>)
    ensures
        order@.len() == ids@.len(),
        order@.no_duplicates(),
        forall|k: int| 0 <= k < order@.len() ==> #[trigger] order@[k] < ids@.len(),
        forall|a: int, b: int|
            #![trigger order@[a], order@[b]]
            0 <= a < b < order@.len() ==> (ids@[order@[a] as int] < ids@[order@[b] as int]
                || (ids@[order@[a] as int] == ids@[order@[b] as int] && order@[a] < order@[b])),
{
    let mut out: Vec<usize> = Vec::new();
    let mut i: usize = 0;
    while i < ids.len()
        invariant
            i <= ids@.len(),
            out@.len() == i,
            out@.no_duplicates(),
            forall|k: int| 0 <= k < out@.len() ==> #[trigger] out@[k] < i,
            forall|a: int, b: int|
                #![trigger out@[a], out@[b]]
                0 <= a < b < out@.len() ==> (ids@[out@[a] as int] < ids@[out@[b] as int]
                    || (ids@[out@[a] as int] == ids@[out@[b] as int] && out@[a] < out@[b])),
        decreases ids@.len() - i,
    {
        let key = ids[i];
        let mut p: usize = 0;
        while p < out.len() && ids[out[p]] <= key
            invariant
                p <= out@.len(),
                i < ids@.len(),
                key == ids@[i as int],
                forall|k: int| 0 <= k < out@.len() ==> #[trigger] out@[k] < i,
                forall|q: int| 0 <= q < p ==> ids@[#[trigger] out@[q] as int] <= key,
            decreases out@.len() - p,
        {
            p = p + 1;
        }
        let ghost old_out = out@;
        out.insert(p, i);
        proof {
            assert forall|q: int| p <= q < old_out.len() implies ids@[#[trigger] old_out[q] as int] > key by {
                if q > p {
                    assert(!(ids@[old_out[q] as int] < ids@[old_out[p as int] as int]));
                }
            }
            assert forall|k: int| 0 <= k < out@.len() implies #[trigger] out@[k] < i + 1 by {
                if k < p {
                    assert(out@[k] == old_out[k]);
                } else if k > p {
                    assert(out@[k] == old_out[k - 1]);
                }
            }
            assert forall|a: int, b: int| 0 <= a < b < out@.len() implies out@[a] != out@[b] by {
                if a != p && b != p {
                    let oa = if a < p { a } else { a - 1 };
                    let ob = if b < p { b } else { b - 1 };
                    assert(out@[a] == old_out[oa] && out@[b] == old_out[ob]);
                } else if a == p {
                    assert(out@[b] == old_out[b - 1]);
                } else {
                    assert(out@[a] == old_out[a]);
                }
            }
            assert forall|a: int, b: int|
                #![trigger out@[a], out@[b]]
                0 <= a < b < out@.len() implies (ids@[out@[a] as int] < ids@[out@[b] as int]
                    || (ids@[out@[a] as int] == ids@[out@[b] as int] && out@[a] < out@[b])) by {
                if a != p && b != p {
                    let oa = if a < p { a } else { a - 1 };
                    let ob = if b < p { b } else { b - 1 };
                    assert(out@[a] == old_out[oa] && out@[b] == old_out[ob]);
                } else if a == p {
                    assert(out@[b] == old_out[b - 1]);
                } else {
                    assert(out@[a] == old_out[a]);
                }
            }
        }
        i = i + 1;
    }
    out
}


/// The credentials of a donation-service integration.
pub struct DaTokens {
    pub access_token: String,
    pub refresh_token: String,
    pub token_expires_at: i64,
    pub scope: String,
}

/// The credentials after a refresh at `now`: the new access token; the new refresh token
/// and scope where the service sent them, else the old ones; and the new expiry.
pub fn refreshed_tokens(
    access_token: String,
    reported_refresh_token: Option<String>,
    expires_in: Option<i64>,
    reported_scope: Option<String>,
    old_refresh_token: String,
    old_scope: String,
    now: i64,
) -> (t: DaTokens)
    requires
        i64::MIN + 30 <= now + max_i64(match expires_in { Some(e) => e, None => 3600 }, 60) <= i64::MAX,
    ensures
        t.access_token@ == access_token@,
        t.refresh_token@ == (match reported_refresh_token { Some(r) => r@, None => old_refresh_token@ }),
        t.scope@ == (match reported_scope { Some(s) => s@, None => old_scope@ }),
        t.token_expires_at == now + max_i64(match expires_in { Some(e) => e, None => 3600 }, 60) - 30,
{
    let refresh_token = match reported_refresh_token {
        Some(r) => r,
        None => old_refresh_token,
    };
    let scope = match reported_scope {
        Some(s) => s,
        None => old_scope,
    };
    DaTokens { access_token, refresh_token, token_expires_at: token_expires_at(now, expires_in), scope }
}

} // verus!
