use qstream::donations::{
    baseline_fallback, donation_baseline, donation_sync_baseline, fetch_next_page, granted_scope,
    latest_external_id, max_external_id, order_by_external_id, refreshed_tokens, scan_donation_page,
    should_update_sync_state, token_expires_at, token_still_valid, usd_rate_for_currency, UsdRate,
};

#[test]
fn currency_rates() {
    assert_eq!(usd_rate_for_currency("USD"), Some(UsdRate::Usd));
    assert_eq!(usd_rate_for_currency(" eur "), Some(UsdRate::Eur));
    assert_eq!(usd_rate_for_currency("rub"), Some(UsdRate::Rub));
    assert_eq!(usd_rate_for_currency("Byn"), Some(UsdRate::Byn));
    assert_eq!(usd_rate_for_currency("KZT"), Some(UsdRate::Kzt));
    assert_eq!(usd_rate_for_currency("uah"), Some(UsdRate::Uah));
    assert_eq!(usd_rate_for_currency("BRL"), Some(UsdRate::Brl));
    assert_eq!(usd_rate_for_currency("try"), Some(UsdRate::Try));
    assert_eq!(usd_rate_for_currency("GBP"), None);
    assert_eq!(usd_rate_for_currency("US D"), None);
}

#[test]
fn sync_baselines() {
    assert_eq!(donation_sync_baseline(None, None), 0);
    assert_eq!(donation_sync_baseline(Some(10), Some(7)), 10);
    assert_eq!(donation_sync_baseline(Some(3), Some(7)), 7);
    assert_eq!(donation_sync_baseline(Some(-5), None), 0);
    assert_eq!(max_external_id(5, &vec![3, 9, 7]), 9);
    assert_eq!(max_external_id(5, &vec![]), 5);
    assert_eq!(latest_external_id(&vec![]), 0);
    assert_eq!(latest_external_id(&vec![-4, -2]), -2);
    assert_eq!(latest_external_id(&vec![4, 12, 8]), 12);
    assert_eq!(donation_baseline(Some(20), 5), 20);
    assert_eq!(donation_baseline(Some(2), 5), 5);
    assert_eq!(donation_baseline(None, 5), 5);
    assert_eq!(baseline_fallback(None), 0);
    assert_eq!(baseline_fallback(Some(-3)), 0);
    assert_eq!(baseline_fallback(Some(3)), 3);
}

#[test]
fn sync_state_writes() {
    assert!(should_update_sync_state(5, Some(4), false, Some(10_000), 10_000));
    assert!(should_update_sync_state(5, Some(5), true, Some(10_000), 10_000));
    assert!(!should_update_sync_state(5, Some(5), false, Some(9_200), 10_000));
    assert!(should_update_sync_state(5, Some(5), false, Some(9_100), 10_000));
    assert!(should_update_sync_state(0, None, false, None, 10_000));
}

#[test]
fn tokens_and_scopes() {
    assert_eq!(token_expires_at(1000, None), 1000 + 3600 - 30);
    assert_eq!(token_expires_at(1000, Some(10)), 1000 + 60 - 30);
    assert_eq!(token_expires_at(1000, Some(7200)), 1000 + 7200 - 30);
    assert!(token_still_valid(1061, 1000));
    assert!(!token_still_valid(1060, 1000));
    assert_eq!(granted_scope(None), "oauth-user-show oauth-donation-index oauth-donation-subscribe");
    assert_eq!(granted_scope(Some("x".to_string())), "x");
    let t = refreshed_tokens("a".to_string(), None, Some(100), Some("s2".to_string()), "r1".to_string(), "s1".to_string(), 50);
    assert_eq!(t.access_token, "a");
    assert_eq!(t.refresh_token, "r1");
    assert_eq!(t.scope, "s2");
    assert_eq!(t.token_expires_at, 120);
}

#[test]
fn donation_pages() {
    assert!(fetch_next_page(1, false));
    assert!(fetch_next_page(20, false));
    assert!(!fetch_next_page(21, false));
    assert!(!fetch_next_page(2, true));
    let (keep, old) = scan_donation_page(&vec![12, 11, 9, 13], 10);
    assert_eq!(keep, vec![0, 1, 3]);
    assert!(old);
    let (keep, old) = scan_donation_page(&vec![12, 11], 10);
    assert_eq!(keep, vec![0, 1]);
    assert!(!old);
}

#[test]
fn donations_sorted_by_id_stably() {
    assert_eq!(order_by_external_id(&vec![30, 10, 20, 10]), vec![1, 3, 2, 0]);
    assert_eq!(order_by_external_id(&vec![]), Vec::<usize>::new());
}

#[test]
fn next_sync_round_skips_taken_donations() {
    let baseline = donation_sync_baseline(Some(5), Some(10));
    assert_eq!(baseline, 10);
    let (keep, _) = scan_donation_page(&vec![15, 11, 9], baseline);
    assert_eq!(keep, vec![0, 1]);
    let seen = max_external_id(baseline, &vec![15, 11]);
    assert_eq!(seen, 15);
    let next = donation_sync_baseline(Some(0), Some(seen));
    let (keep, old) = scan_donation_page(&vec![15, 11, 9], next);
    assert!(keep.is_empty());
    assert!(old);
}
