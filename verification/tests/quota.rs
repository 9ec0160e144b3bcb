use auto_switch::account::{account_remaining_percent, credit_usage, Account, Quota};

fn quota(daily: Option<i32>, weekly: Option<i32>, used: Option<i64>, total: Option<i64>) -> Quota {
    Quota {
        daily_quota_remaining_percent: daily,
        weekly_quota_remaining_percent: weekly,
        used_quota: used,
        total_quota: total,
    }
}

fn remaining(quota: Quota) -> i32 {
    assert!(quota.is_measurable());
    account_remaining_percent(&Account {
        id: 1,
        email: "a@example.com".to_string(),
        token: None,
        refresh_token: None,
        is_disabled: None,
        is_devin: false,
        quota,
        last_login_at: None,
    })
}

fn by_double(used: i64, total: i64) -> i32 {
    ((used as f64 / total as f64) * 100.0).round() as i32
}

#[test]
fn usage_matches_double_arithmetic_on_small_quotas() {
    for total in 1i64..400 {
        for used in -20..=(total + 20) {
            assert_eq!(credit_usage(used, total), by_double(used, total), "{} of {}", used, total);
        }
    }
}

#[test]
fn usage_matches_double_arithmetic_on_large_quotas() {
    let mut x: u64 = 0x9e37_79b9_7f4a_7c15;
    for i in 0..200_000u32 {
        x = x.wrapping_mul(6364136223846793005).wrapping_add(1442695040888963407);
        let used = (x as i64) >> (i % 61);
        x = x.wrapping_mul(6364136223846793005).wrapping_add(1442695040888963407);
        let total = ((x >> 1) >> (i / 61 % 63)) as i64;
        if total > 0 {
            assert_eq!(credit_usage(used, total), by_double(used, total), "{} of {}", used, total);
        }
    }
}

#[test]
fn usage_at_the_bounds_of_the_integers() {
    for used in [i64::MIN, i64::MIN + 1, -1, 0, 1, i64::MAX - 1, i64::MAX] {
        for total in [1, 2, 3, 99, 100, 101, 1 << 53, (1 << 53) + 1, i64::MAX - 1, i64::MAX] {
            assert_eq!(credit_usage(used, total), by_double(used, total), "{} of {}", used, total);
        }
    }
}

#[test]
fn usage_is_rounded_as_doubles_are() {
    // 57 / 200 * 100 is 28.499999999999996 in double precision.
    assert_eq!(credit_usage(57, 200), 28);
    assert_eq!(credit_usage(1, 200), 1);
    assert_eq!(credit_usage(1, 3), 33);
    assert_eq!(credit_usage(2, 3), 67);
    assert_eq!(credit_usage(-1, 200), -1);
}

#[test]
fn usage_saturates() {
    assert_eq!(credit_usage(i64::MAX, 1), i32::MAX);
    assert_eq!(credit_usage(i64::MIN, 1), i32::MIN);
}

#[test]
fn smaller_of_daily_and_weekly_decides() {
    assert_eq!(remaining(quota(Some(40), Some(70), None, None)), 40);
    assert_eq!(remaining(quota(Some(70), Some(40), None, None)), 40);
    assert_eq!(remaining(quota(Some(55), None, None, None)), 55);
    assert_eq!(remaining(quota(None, Some(66), None, None)), 66);
}

#[test]
fn percentages_are_clamped() {
    assert_eq!(remaining(quota(Some(-3), Some(70), None, None)), 0);
    assert_eq!(remaining(quota(Some(120), Some(170), None, None)), 100);
    assert_eq!(remaining(quota(Some(-3), None, None, None)), 0);
    assert_eq!(remaining(quota(None, Some(101), None, None)), 100);
}

#[test]
fn percentages_go_before_credits() {
    assert_eq!(remaining(quota(Some(10), None, Some(0), Some(100))), 10);
    assert_eq!(remaining(quota(None, Some(90), Some(100), Some(100))), 90);
}

#[test]
fn credits_decide_without_percentages() {
    assert_eq!(remaining(quota(None, None, Some(57), Some(200))), 72);
    assert_eq!(remaining(quota(None, None, Some(50), Some(100))), 50);
    assert_eq!(remaining(quota(None, None, Some(0), Some(100))), 100);
    assert_eq!(remaining(quota(None, None, Some(-5), Some(100))), 100);
    assert_eq!(remaining(quota(None, None, Some(100), Some(100))), 0);
    assert_eq!(remaining(quota(None, None, Some(250), Some(100))), 0);
}

#[test]
fn unknown_quota_is_minus_one() {
    assert_eq!(remaining(quota(None, None, None, None)), -1);
    assert_eq!(remaining(quota(None, None, Some(5), None)), -1);
    assert_eq!(remaining(quota(None, None, None, Some(5))), -1);
    assert_eq!(remaining(quota(None, None, Some(5), Some(0))), -1);
    assert_eq!(remaining(quota(None, None, Some(5), Some(-7))), -1);
}

#[test]
fn more_use_leaves_no_more() {
    for total in [1i64, 7, 150, 500, 999_983] {
        let mut last = 100;
        for used in 0..(2 * total).min(2000) {
            let left = remaining(quota(None, None, Some(used), Some(total)));
            assert!(left <= last);
            last = left;
        }
    }
}

#[test]
fn credits_are_rounded_to_the_nearest_percent() {
    for total in [1i64, 3, 200, 333, 999_983, i32::MAX as i64, 1 << 44] {
        for step in 0..=1000i64 {
            let used = total / 1000 * step + total % 1000 * step / 1000;
            let gone = 100 - remaining(quota(None, None, Some(used), Some(total))) as i64;
            assert!(2 * (total * gone - 100 * used).abs() <= total, "{} of {}", used, total);
        }
    }
}

#[test]
fn vast_negative_use_cannot_be_measured() {
    assert!(!quota(None, None, Some(i64::MIN), Some(1)).is_measurable());
    assert!(!quota(None, None, Some(-21_474_836), Some(1)).is_measurable());
    assert!(quota(None, None, Some(-21_474_835), Some(1)).is_measurable());
    assert!(quota(Some(1), None, Some(i64::MIN), Some(1)).is_measurable());
    assert!(quota(None, None, Some(i64::MIN), Some(0)).is_measurable());
    assert_eq!(remaining(quota(None, None, Some(-21_474_835), Some(1))), 100);
}
