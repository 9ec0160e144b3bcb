use auto_switch::account::{Account, Quota};
use auto_switch::flow::{Action, Event, Policy, Settings, Stage};
use auto_switch::report::{AutoSwitchResult, Ending, Form};
use auto_switch::step::{begin, is_authorized, step};
use serde_json::Value;

fn daily(percent: i32) -> Quota {
    Quota {
        daily_quota_remaining_percent: Some(percent),
        weekly_quota_remaining_percent: None,
        used_quota: None,
        total_quota: None,
    }
}

fn account(id: u128, email: &str, percent: i32) -> Account {
    Account {
        id,
        email: email.to_string(),
        token: Some("token".to_string()),
        refresh_token: None,
        is_disabled: None,
        is_devin: false,
        quota: daily(percent),
        last_login_at: None,
    }
}

fn settings() -> Settings {
    Settings {
        auto_switch_enabled: true,
        auto_switch_threshold_percent: 95,
        auto_switch_remaining_threshold: 5,
        auto_switch_strategy: "most_remaining".to_string(),
        auto_switch_prefer_same_provider: false,
    }
}

fn json(text: &str) -> Value {
    serde_json::from_str(text).unwrap()
}

fn feed(stage: Stage, event: Event) -> (Stage, Action) {
    assert!(stage.is_expected(&event));
    step(stage, event)
}

fn ending(action: Action) -> Ending {
    match action {
        Action::Finish(ending) => ending,
        other => panic!("{:?}", other),
    }
}

fn assert_skipped(end: (Stage, Action), reason: &str) {
    assert!(matches!(end.0, Stage::Done));
    let e = ending(end.1);
    assert!(e.log.is_none());
    assert!(!e.announce);
    assert_eq!(e.form, Form::Full);
    assert!(!e.outcome.triggered);
    assert_eq!(e.outcome.current_email, None);
    assert_eq!(e.outcome.current_usage_percent, None);
    assert_eq!(e.outcome.current_remaining, None);
    assert_eq!(e.outcome.switched_to_email, None);
    assert_eq!(e.outcome.switched_to_remaining, None);
    assert_eq!(e.outcome.reason.as_deref(), Some(reason));
}

fn ready_for_email() -> Stage {
    feed(begin().0, Event::Settings(Ok(settings()))).0
}

fn ready_for_accounts() -> Stage {
    feed(ready_for_email(), Event::Email(Ok(Some("ME@example.com".to_string())))).0
}

fn three() -> Vec<Account> {
    vec![
        account(1, "me@example.com", 2),
        account(0xa1a2a3a4b1b2c1c2d1d2d3d4d5d6d7d8, "rich@example.com", 90),
        account(3, "poor@example.com", 20),
    ]
}

fn ready_for_token() -> Stage {
    feed(ready_for_accounts(), Event::Accounts(Ok(three()))).0
}

fn ready_for_quota() -> Stage {
    feed(ready_for_token(), Event::Token(Ok("t".to_string()))).0
}

fn ready_for_refresh() -> Stage {
    feed(ready_for_quota(), Event::Quota(Ok((98, 2)))).0
}

fn ready_for_reload() -> Stage {
    feed(ready_for_refresh(), Event::Refreshed).0
}

fn ready_for_candidate_quota() -> Stage {
    let stage = feed(ready_for_reload(), Event::Accounts(Ok(three()))).0;
    feed(stage, Event::Token(Ok(String::new()))).0
}

fn ready_for_switch() -> Stage {
    feed(ready_for_candidate_quota(), Event::CandidateQuota(Ok((daily(77), 77)))).0
}

#[test]
fn check_begins_with_the_settings() {
    let (stage, action) = begin();
    assert!(matches!(stage, Stage::AwaitSettings));
    assert!(matches!(action, Action::ReadSettings));
}

#[test]
fn skipped_outcome_holds_only_its_reason() {
    let r = AutoSwitchResult::skipped("why".to_string());
    assert!(!r.triggered);
    assert_eq!(r.reason.as_deref(), Some("why"));
    assert_eq!(r.current_email, None);
    assert_eq!(r.switched_to_email, None);
}

#[test]
fn disabled_check_ends_at_once() {
    let mut s = settings();
    s.auto_switch_enabled = false;
    assert_skipped(feed(begin().0, Event::Settings(Ok(s))), "自动切换功能未启用");
}

#[test]
fn settings_are_brought_within_bounds() {
    let mut s = settings();
    s.auto_switch_threshold_percent = 0;
    s.auto_switch_remaining_threshold = -4;
    let p = Policy::from_settings(s);
    assert_eq!((p.threshold_percent, p.remaining_threshold), (1, 0));
    assert!(p.is_exhausted(1, 99));
    assert!(!p.is_exhausted(0, 0));
    let mut s = settings();
    s.auto_switch_threshold_percent = 101;
    s.auto_switch_remaining_threshold = 300;
    let p = Policy::from_settings(s);
    assert_eq!((p.threshold_percent, p.remaining_threshold), (100, 300));
}

#[test]
fn exhaustion_takes_both_conditions() {
    let p = Policy::from_settings(settings());
    assert!(p.is_exhausted(95, 5));
    assert!(!p.is_exhausted(94, 5));
    assert!(!p.is_exhausted(95, 6));
}

#[test]
fn errors_of_the_store_are_passed_on() {
    let e = || "boom".to_string();
    for (stage, event) in [
        (begin().0, Event::Settings(Err(e()))),
        (ready_for_accounts(), Event::Accounts(Err(e()))),
        (ready_for_reload(), Event::Accounts(Err(e()))),
    ] {
        let (stage, action) = feed(stage, event);
        assert!(matches!(stage, Stage::Done));
        match action {
            Action::Fail(error) => assert_eq!(error, "boom"),
            other => panic!("{:?}", other),
        }
    }
}

#[test]
fn nobody_signed_in_ends_the_check() {
    let reason = "未检测到当前活跃的 Windsurf 账号";
    assert_skipped(feed(ready_for_email(), Event::Email(Ok(None))), reason);
    assert_skipped(feed(ready_for_email(), Event::Email(Ok(Some(String::new())))), reason);
}

#[test]
fn unreadable_address_ends_the_check_without_an_error() {
    assert_skipped(
        feed(ready_for_email(), Event::Email(Err("boom".to_string()))),
        "未检测到当前活跃的 Windsurf 账号: boom",
    );
}

#[test]
fn unknown_address_ends_the_check() {
    let accounts = vec![account(7, "else@example.com", 50)];
    assert_skipped(
        feed(ready_for_accounts(), Event::Accounts(Ok(accounts))),
        "当前账号 ME@example.com 未在账号库中（请先导入）",
    );
}

#[test]
fn address_is_matched_in_any_case() {
    let (stage, action) = feed(ready_for_accounts(), Event::Accounts(Ok(three())));
    assert!(matches!(stage, Stage::AwaitToken(_)));
    match action {
        Action::Authorize(account) => assert_eq!(account.id, 1),
        other => panic!("{:?}", other),
    }
}

#[test]
fn missing_token_ends_the_check() {
    let reason = "当前账号 ME@example.com 缺少有效 Token，无法查询配额";
    assert_skipped(feed(ready_for_token(), Event::Token(Ok(String::new()))), reason);
    assert_skipped(feed(ready_for_token(), Event::Token(Err("no".to_string()))), reason);
    assert!(is_authorized(&Ok("t".to_string())));
    assert!(!is_authorized(&Ok(String::new())));
    assert!(!is_authorized(&Err("t".to_string())));
}

#[test]
fn unanswered_quota_ends_the_check() {
    assert_skipped(
        feed(ready_for_quota(), Event::Quota(Err("timeout".to_string()))),
        "查询配额失败: timeout",
    );
}

#[test]
fn account_that_serves_is_kept() {
    let (stage, action) = feed(ready_for_quota(), Event::Quota(Ok((40, -60))));
    assert!(matches!(stage, Stage::Done));
    let e = ending(action);
    assert!(e.log.is_none());
    assert!(!e.announce);
    assert_eq!(e.form, Form::WithoutTarget);
    assert!(!e.outcome.triggered);
    assert_eq!(e.outcome.current_email.as_deref(), Some("ME@example.com"));
    assert_eq!(e.outcome.current_usage_percent, Some(40));
    assert_eq!(e.outcome.current_remaining, Some(-60));
    assert_eq!(
        e.outcome.reason.as_deref(),
        Some("未达切换条件（使用率 40% < 95% 或剩余 -60% > 5%）")
    );
}

#[test]
fn candidates_are_refreshed() {
    let (stage, action) = feed(ready_for_quota(), Event::Quota(Ok((98, 2))));
    assert!(matches!(stage, Stage::AwaitRefresh(_)));
    match action {
        Action::Refresh(accounts) => {
            let emails: Vec<&str> = accounts.iter().map(|a| a.email.as_str()).collect();
            assert_eq!(emails, vec!["rich@example.com", "poor@example.com"]);
        }
        other => panic!("{:?}", other),
    }
}

#[test]
fn refresh_is_left_out_without_candidates() {
    let accounts = vec![account(1, "me@example.com", 2)];
    let stage = feed(ready_for_accounts(), Event::Accounts(Ok(accounts))).0;
    let stage = feed(stage, Event::Token(Ok("t".to_string()))).0;
    let (stage, action) = feed(stage, Event::Quota(Ok((100, 0))));
    assert!(matches!(stage, Stage::AwaitReload(_)));
    assert!(matches!(action, Action::LoadAccounts));
}

#[test]
fn search_without_candidates_gives_up() {
    let accounts = vec![account(1, "me@example.com", 2), account(2, "spent@example.com", 5)];
    let (stage, action) = feed(ready_for_reload(), Event::Accounts(Ok(accounts)));
    assert!(matches!(stage, Stage::Done));
    let e = ending(action);
    assert!(e.log.is_none());
    assert!(e.announce);
    assert_eq!(e.form, Form::Full);
    assert_eq!(e.outcome.current_usage_percent, Some(98));
    assert_eq!(e.outcome.reason.as_deref(), Some("当前账号已耗尽，但没有其他可用账号"));
}

#[test]
fn search_goes_through_the_accounts_as_they_are_after_the_refresh() {
    let mut second = three();
    second[1].quota = daily(10);
    second.push(account(4, "new@example.com", 60));
    let (stage, action) = feed(ready_for_reload(), Event::Accounts(Ok(second)));
    match action {
        Action::Authorize(candidate) => assert_eq!(candidate.email, "new@example.com"),
        other => panic!("{:?}", other),
    }
    match feed(stage, Event::Token(Ok("t".to_string()))).1 {
        Action::QueryCandidate(candidate) => assert_eq!(candidate.email, "new@example.com"),
        other => panic!("{:?}", other),
    }
}

#[test]
fn no_more_than_five_candidates_are_tried_and_none_twice() {
    let accounts: Vec<Account> =
        (2..12).map(|id| account(id, &format!("user{}@example.com", id), 50)).collect();
    let (mut stage, mut action) = feed(ready_for_reload(), Event::Accounts(Ok(accounts)));
    let mut tried: Vec<u128> = Vec::new();
    loop {
        let event = match action {
            Action::Authorize(candidate) => {
                tried.push(candidate.id);
                if tried.len() % 2 == 0 {
                    Event::Token(Err("expired".to_string()))
                } else {
                    Event::Token(Ok("t".to_string()))
                }
            }
            Action::QueryCandidate(_) => {
                if tried.len() == 3 {
                    Event::CandidateQuota(Err("timeout".to_string()))
                } else {
                    Event::CandidateQuota(Ok((daily(5), 5)))
                }
            }
            Action::Finish(e) => {
                assert_eq!(
                    e.outcome.reason.as_deref(),
                    Some("当前账号已耗尽，验证了 5 个候选账号实时配额均不达标")
                );
                assert!(e.announce);
                break;
            }
            other => panic!("{:?}", other),
        };
        (stage, action) = feed(stage, event);
    }
    assert_eq!(tried, vec![2, 3, 4, 5, 6]);
}

#[test]
fn refused_candidates_make_way_for_the_next() {
    let (stage, action) =
        feed(ready_for_candidate_quota(), Event::CandidateQuota(Ok((daily(5), 5))));
    match action {
        Action::Authorize(candidate) => assert_eq!(candidate.email, "poor@example.com"),
        other => panic!("{:?}", other),
    }
    let (stage, action) = feed(stage, Event::Token(Err("expired".to_string())));
    assert!(matches!(stage, Stage::Done));
    assert_eq!(
        ending(action).outcome.reason.as_deref(),
        Some("当前账号已耗尽，验证了 2 个候选账号实时配额均不达标")
    );
}

#[test]
fn switch_names_the_target_by_its_uuid() {
    let (stage, action) =
        feed(ready_for_candidate_quota(), Event::CandidateQuota(Ok((daily(77), 77))));
    assert!(matches!(stage, Stage::AwaitSwitch(_, _)));
    match action {
        Action::Switch(id) => assert_eq!(id, "a1a2a3a4-b1b2-c1c2-d1d2-d3d4d5d6d7d8"),
        other => panic!("{:?}", other),
    }
}

#[test]
fn live_quota_decides_over_the_stored_one() {
    let (stage, _) = feed(ready_for_candidate_quota(), Event::CandidateQuota(Ok((daily(77), 6))));
    assert!(matches!(stage, Stage::AwaitSwitch(_, _)));
    let (stage, _) = feed(ready_for_candidate_quota(), Event::CandidateQuota(Ok((daily(77), 5))));
    assert!(matches!(stage, Stage::AwaitCandidateToken(_, _)));
}

#[test]
fn successful_switch_is_reported() {
    let (stage, action) =
        feed(ready_for_switch(), Event::Switched(Ok(json("{\"success\": true, \"error\": \"x\"}"))));
    assert!(matches!(stage, Stage::Done));
    let e = ending(action);
    let log = e.log.unwrap();
    assert!(log.succeeded);
    assert_eq!(
        log.message,
        "自动切换成功（额度耗尽）: ME@example.com → rich@example.com [当前使用率 98%, 剩余 2%]"
    );
    assert_eq!(log.account_id, 0xa1a2a3a4b1b2c1c2d1d2d3d4d5d6d7d8);
    assert_eq!(log.account_email, "rich@example.com");
    assert!(e.announce);
    assert_eq!(e.form, Form::Full);
    assert!(e.outcome.triggered);
    assert_eq!(e.outcome.current_email.as_deref(), Some("ME@example.com"));
    assert_eq!(e.outcome.current_usage_percent, Some(98));
    assert_eq!(e.outcome.current_remaining, Some(2));
    assert_eq!(e.outcome.switched_to_email.as_deref(), Some("rich@example.com"));
    assert_eq!(e.outcome.switched_to_remaining, Some(77));
    assert_eq!(e.outcome.reason, None);
}

#[test]
fn target_without_stored_quota_is_reported_without_percentage() {
    let mut unknown = daily(0);
    unknown.daily_quota_remaining_percent = None;
    let stage = feed(ready_for_candidate_quota(), Event::CandidateQuota(Ok((unknown, 60)))).0;
    let e = ending(feed(stage, Event::Switched(Ok(json("{\"success\": true}")))).1);
    assert!(e.outcome.triggered);
    assert_eq!(e.outcome.switched_to_remaining, None);
}

fn assert_switch_failed(answer: Result<Value, String>, error: &str) {
    let e = ending(feed(ready_for_switch(), Event::Switched(answer)).1);
    let log = e.log.unwrap();
    assert!(!log.succeeded);
    assert_eq!(
        log.message,
        format!("自动切换失败: ME@example.com → rich@example.com ({})", error)
    );
    assert_eq!(log.account_email, "rich@example.com");
    assert!(e.announce);
    assert!(!e.outcome.triggered);
    assert_eq!(e.outcome.switched_to_email, None);
    assert_eq!(e.outcome.switched_to_remaining, None);
    assert_eq!(e.outcome.current_remaining, Some(2));
    assert_eq!(e.outcome.reason, Some(format!("切换失败: {}", error)));
}

#[test]
fn failed_switch_is_reported() {
    assert_switch_failed(Err("network".to_string()), "network");
    assert_switch_failed(Ok(json("{\"success\": false, \"error\": \"denied\"}")), "denied");
    assert_switch_failed(Ok(json("{\"error\": \"denied\"}")), "denied");
    assert_switch_failed(Ok(json("{\"success\": \"true\"}")), "未知错误");
    assert_switch_failed(Ok(json("{\"success\": false, \"error\": 5}")), "未知错误");
    assert_switch_failed(Ok(json("[true]")), "未知错误");
    assert_switch_failed(Ok(Value::Null), "未知错误");
}

#[test]
fn answers_out_of_turn_are_not_expected() {
    assert!(!begin().0.is_expected(&Event::Refreshed));
    assert!(!ready_for_token().is_expected(&Event::Quota(Ok((1, 1)))));
    assert!(!Stage::Done.is_expected(&Event::Refreshed));
}

#[test]
fn quotas_out_of_range_are_not_expected() {
    let mut vast = daily(0);
    vast.daily_quota_remaining_percent = None;
    vast.used_quota = Some(i64::MIN);
    vast.total_quota = Some(1);
    let mut accounts = three();
    accounts[2].quota = vast;
    assert!(!ready_for_reload().is_expected(&Event::Accounts(Ok(accounts.clone()))));
    accounts[2].is_disabled = Some(true);
    assert!(ready_for_reload().is_expected(&Event::Accounts(Ok(accounts))));
    let stage = ready_for_candidate_quota();
    assert!(!stage.is_expected(&Event::CandidateQuota(Ok((vast, 6)))));
    assert!(stage.is_expected(&Event::CandidateQuota(Ok((vast, 5)))));
}
