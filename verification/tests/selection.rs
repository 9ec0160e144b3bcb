use auto_switch::account::{Account, Instant, Quota};
use auto_switch::identity::{find_account, first_equal};
use auto_switch::selection::{candidates_to_refresh, is_enough, pick_next_account};
use std::collections::HashSet;

fn account(id: u128, daily: i32) -> Account {
    Account {
        id,
        email: format!("user{}@example.com", id),
        token: Some("token".to_string()),
        refresh_token: None,
        is_disabled: None,
        is_devin: false,
        quota: Quota {
            daily_quota_remaining_percent: Some(daily),
            weekly_quota_remaining_percent: None,
            used_quota: None,
            total_quota: None,
        },
        last_login_at: None,
    }
}

fn at(secs: i64, nanos: u32) -> Option<Instant> {
    Some(Instant { secs, nanos })
}

fn pick(all: &[Account], same: bool, strategy: &str, floor: i32, excluded: &[u128]) -> Option<u128> {
    let excluded: HashSet<u128> = excluded.iter().copied().collect();
    pick_next_account(all, &account(0, 0), same, strategy, floor, &excluded).map(|a| a.id)
}

#[test]
fn richest_account_is_taken() {
    let all = vec![account(1, 40), account(2, 90), account(3, 60)];
    assert_eq!(pick(&all, false, "most_remaining", 5, &[]), Some(2));
}

#[test]
fn unknown_strategy_takes_the_richest() {
    let all = vec![account(1, 40), account(2, 90)];
    assert_eq!(pick(&all, false, "", 5, &[]), Some(2));
    assert_eq!(pick(&all, false, "ROUND_ROBIN", 5, &[]), Some(2));
}

#[test]
fn first_of_equals_is_taken() {
    let all = vec![account(1, 40), account(2, 90), account(3, 90)];
    assert_eq!(pick(&all, false, "most_remaining", 5, &[]), Some(2));
    assert_eq!(pick(&all, false, "round_robin", 5, &[]), Some(1));
}

#[test]
fn round_robin_takes_the_oldest_login() {
    let mut all = vec![account(1, 40), account(2, 90), account(3, 60), account(4, 50)];
    all[0].last_login_at = at(100, 7);
    all[1].last_login_at = at(100, 6);
    all[2].last_login_at = at(101, 0);
    all[3].last_login_at = at(100, 6);
    assert_eq!(pick(&all, false, "round_robin", 5, &[]), Some(2));
    all[2].last_login_at = None;
    assert_eq!(pick(&all, false, "round_robin", 5, &[]), Some(3));
}

#[test]
fn current_account_is_never_taken() {
    assert_eq!(pick(&[account(0, 100)], false, "most_remaining", 5, &[]), None);
}

#[test]
fn barred_accounts_are_never_taken() {
    let mut all = vec![account(1, 40), account(2, 90)];
    all[1].is_disabled = Some(true);
    assert_eq!(pick(&all, false, "most_remaining", 5, &[]), Some(1));
    all[1].is_disabled = Some(false);
    assert_eq!(pick(&all, false, "most_remaining", 5, &[]), Some(2));
}

#[test]
fn either_token_will_do() {
    let mut all = vec![account(1, 40)];
    all[0].token = None;
    assert_eq!(pick(&all, false, "most_remaining", 5, &[]), None);
    all[0].token = Some(String::new());
    all[0].refresh_token = Some(String::new());
    assert_eq!(pick(&all, false, "most_remaining", 5, &[]), None);
    all[0].refresh_token = Some("r".to_string());
    assert_eq!(pick(&all, false, "most_remaining", 5, &[]), Some(1));
}

#[test]
fn excluded_accounts_are_never_taken() {
    let all = vec![account(1, 40), account(2, 90), account(3, 60)];
    assert_eq!(pick(&all, false, "most_remaining", 5, &[2]), Some(3));
    assert_eq!(pick(&all, false, "most_remaining", 5, &[2, 3]), Some(1));
    assert_eq!(pick(&all, false, "most_remaining", 5, &[1, 2, 3]), None);
}

#[test]
fn floor_must_be_exceeded() {
    assert_eq!(pick(&[account(1, 5)], false, "most_remaining", 5, &[]), None);
    assert_eq!(pick(&[account(1, 6)], false, "most_remaining", 5, &[]), Some(1));
    assert_eq!(pick(&[account(1, 0)], false, "most_remaining", 0, &[]), None);
    assert_eq!(pick(&[account(1, 1)], false, "most_remaining", 0, &[]), Some(1));
    assert_eq!(pick(&[account(1, 0)], false, "most_remaining", -9, &[]), None);
    assert!(is_enough(1, -9));
    assert!(!is_enough(0, -9));
}

#[test]
fn account_without_quota_data_is_never_taken() {
    let mut all = vec![account(1, 40)];
    all[0].quota.daily_quota_remaining_percent = None;
    assert_eq!(pick(&all, false, "most_remaining", 0, &[]), None);
}

#[test]
fn same_provider_is_preferred() {
    let mut all = vec![account(1, 40), account(2, 90)];
    all[1].is_devin = true;
    assert_eq!(pick(&all, true, "most_remaining", 5, &[]), Some(1));
    assert_eq!(pick(&all, false, "most_remaining", 5, &[]), Some(2));
}

#[test]
fn other_provider_serves_where_the_same_has_none() {
    let mut all = vec![account(1, 3), account(2, 90), account(3, 95)];
    all[1].is_devin = true;
    all[2].is_devin = true;
    assert_eq!(pick(&all, true, "most_remaining", 5, &[]), Some(3));
    assert_eq!(pick(&all, true, "most_remaining", 95, &[]), None);
}

#[test]
fn usable_accounts_are_refreshed_in_order() {
    let mut all: Vec<Account> = (0..6).map(|id| account(id, 0)).collect();
    all[2].is_disabled = Some(true);
    all[3].token = None;
    all[4].quota.daily_quota_remaining_percent = None;
    let ids: Vec<u128> = candidates_to_refresh(&all, &account(0, 0)).iter().map(|a| a.id).collect();
    assert_eq!(ids, vec![1, 4, 5]);
}

#[test]
fn what_is_taken_was_refreshed() {
    let all = vec![account(1, 40), account(2, 90), account(3, 60)];
    let taken = pick(&all, false, "most_remaining", 5, &[]).unwrap();
    assert!(candidates_to_refresh(&all, &account(0, 0)).iter().any(|a| a.id == taken));
}

#[test]
fn addresses_are_found_in_any_case() {
    let mut all = vec![account(1, 0), account(2, 0), account(3, 0)];
    all[1].email = "Ärger@Example.COM".to_string();
    all[2].email = "ärger@example.com".to_string();
    assert_eq!(find_account(&all, "äRGER@EXAMPLE.com"), Some(1));
    assert_eq!(find_account(&all, "USER1@example.com"), Some(0));
    assert_eq!(find_account(&all, "nobody@example.com"), None);
}

#[test]
fn first_equal_key_is_found() {
    let keys = vec!["a".to_string(), "b".to_string(), "b".to_string()];
    assert_eq!(first_equal(&keys, "b"), Some(1));
    assert_eq!(first_equal(&keys, "B"), None);
}
