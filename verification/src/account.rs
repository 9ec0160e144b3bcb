//! Accounts, as far as switching between them reads them.
use crate::rounding::{
    half_up, half_up_of_zero, nearest, nearest_double, round_up_to_two_31, TWO_31,
};
use vstd::prelude::*;

verus! {

/// A point in time: whole seconds since the epoch, and the nanoseconds past them.
#[derive(Clone, Copy, Debug, PartialEq, Eq, Structural)]
pub struct Instant {
    pub secs: i64,
    pub nanos: u32,
}

/// What is known of an account's quota, in either of the two billing systems.
#[derive(Clone, Copy, Debug, PartialEq, Eq, Structural)]
pub struct Quota {
    /// Percentage of the daily quota that is left.
    pub daily_quota_remaining_percent: Option<i32>,
    /// Percentage of the weekly quota that is left.
    pub weekly_quota_remaining_percent: Option<i32>,
    /// Credits used, under credit billing.
    pub used_quota: Option<i64>,
    /// Credits granted, under credit billing.
    pub total_quota: Option<i64>,
}

/// An account in the library of accounts.
#[derive(Debug, PartialEq, Eq)]
pub struct Account {
    /// The account's UUID, as a number.
    pub id: u128,
    pub email: String,
    pub token: Option<String>,
    pub refresh_token: Option<String>,
    pub is_disabled: Option<bool>,
    /// Whether the account signs in through Devin rather than Firebase.
    pub is_devin: bool,
    pub quota: Quota,
    pub last_login_at: Option<Instant>,
}

/// `x`, moved into the range from 0 to 100.
pub open spec fn clamp_percent(x: int) -> int {
    if x < 0 {
        0
    } else if x > 100 {
        100
    } else {
        x
    }
}

/// `used / total * 100` in double precision, rounded to the nearest integer
/// (halves upwards): each of the two conversions, the division and the
/// multiplication rounds to the nearest double.
pub open spec fn usage_magnitude(used: nat, total: nat) -> nat {
    let (mu, eu) = nearest(used, 1);
    let (mt, et) = nearest(total, 1);
    let (mq, eq) = nearest(mu, mt);
    let (mp, ep) = nearest(mq * 100, 1);
    half_up(mp, ep + eq + eu - et)
}

/// The percentage of the granted credits that is used, within the range of `i32`:
/// the value of `((used as f64 / total as f64) * 100.0).round() as i32`.
pub open spec fn usage_percent(used: i64, total: i64) -> int
    recommends
        total > 0,
{
    if used >= 0 {
        let m: int = usage_magnitude(used as nat, total as nat) as int;
        if m > i32::MAX {
            i32::MAX as int
        } else {
            m
        }
    } else {
        let m: int = usage_magnitude((-used) as nat, total as nat) as int;
        if -m < i32::MIN {
            i32::MIN as int
        } else {
            -m
        }
    }
}

impl Quota {
    /// Percentage of the quota that is left, or -1 where nothing is known of it.
    ///
    /// Daily and weekly quotas come first: the smaller of those that are known.
    /// Where neither is known, the credits decide.
    pub open spec fn remaining_percent(self) -> int {
        match (self.daily_quota_remaining_percent, self.weekly_quota_remaining_percent) {
            (Some(d), Some(w)) => clamp_percent(if d <= w { d as int } else { w as int }),
            (Some(d), None) => clamp_percent(d as int),
            (None, Some(w)) => clamp_percent(w as int),
            (None, None) => match (self.used_quota, self.total_quota) {
                (Some(u), Some(t)) => if t > 0 {
                    clamp_percent(100 - usage_percent(u, t))
                } else {
                    -1
                },
                _ => -1,
            },
        }
    }

    /// Whether only the credits tell what is left.
    pub open spec fn by_credits(self) -> bool {
        &&& self.daily_quota_remaining_percent is None
        &&& self.weekly_quota_remaining_percent is None
        &&& self.used_quota is Some
        &&& self.total_quota matches Some(t)
        &&& t > 0
    }

    /// Whether the percentage left can be computed in `i32`. Only a vast negative
    /// number of used credits prevents it.
    pub open spec fn measurable(self) -> bool {
        self.by_credits() ==> 100 - usage_percent(self.used_quota->0, self.total_quota->0)
            <= i32::MAX
    }

    /// Tells whether the percentage left can be computed.
    pub fn is_measurable(&self) -> (r: bool)
        ensures
            r == self.measurable(),
    {
        if self.daily_quota_remaining_percent.is_some()
            || self.weekly_quota_remaining_percent.is_some() {
            return true;
        }
        match (self.used_quota, self.total_quota) {
            (Some(u), Some(t)) => if t > 0 {
                credit_usage(u, t) >= 100 - i32::MAX
            } else {
                true
            },
            _ => true,
        }
    }
}

/// Rounded `used / total * 100`, at most `2^31`.
fn usage_of(used: u128, total: u128) -> (r: i64)
    requires
        used <= 0x8000_0000_0000_0000,
        0 < total <= 0x8000_0000_0000_0000,
    ensures
        usage_magnitude(used as nat, total as nat) <= TWO_31 ==> r == usage_magnitude(
            used as nat,
            total as nat,
        ),
        usage_magnitude(used as nat, total as nat) > TWO_31 ==> r == TWO_31,
{
    let (mt, et) = nearest_double(total, 1);
    if used == 0 {
        proof {
            half_up_of_zero(-(et as int));
        }
        return 0;
    }
    let (mu, eu) = nearest_double(used, 1);
    let (mq, eq) = nearest_double(mu, mt);
    let (mp, ep) = nearest_double(mq * 100, 1);
    let exponent: i32 = ep + eq + eu - et;
    proof {
        let product: u128 = (mq * 100) as u128;
        assert(nearest(mq as nat * 100, 1) == nearest(product as nat, 1));
        assert(usage_magnitude(used as nat, total as nat) == half_up(mp as nat, exponent as int));
    }
    round_up_to_two_31(mp, exponent)
}

/// The percentage of the granted credits that is used.
pub fn credit_usage(used: i64, total: i64) -> (r: i32)
    requires
        total > 0,
    ensures
        r == usage_percent(used, total),
{
    if used >= 0 {
        let magnitude: i64 = usage_of(used as u128, total as u128);
        if magnitude > 0x7fff_ffff {
            i32::MAX
        } else {
            magnitude as i32
        }
    } else {
        let magnitude: i64 = usage_of((-(used as i128)) as u128, total as u128);
        (-magnitude) as i32
    }
}

/// Percentage of an account's quota that is left, from what is stored with the
/// account; -1 where nothing is known of it.
pub fn account_remaining_percent(acc: &Account) -> (r: i32)
    requires
        acc.quota.measurable(),
    ensures
        r == acc.quota.remaining_percent(),
{
    let quota: &Quota = &acc.quota;
    match (quota.daily_quota_remaining_percent, quota.weekly_quota_remaining_percent) {
        (Some(d), Some(w)) => into_percent(if d <= w { d } else { w }),
        (Some(d), None) => into_percent(d),
        (None, Some(w)) => into_percent(w),
        (None, None) => match (quota.used_quota, quota.total_quota) {
            (Some(u), Some(t)) => if t > 0 {
                into_percent(100 - credit_usage(u, t))
            } else {
                -1
            },
            _ => -1,
        },
    }
}

/// Moves `x` into the range from 0 to 100.
fn into_percent(x: i32) -> (r: i32)
    ensures
        r == clamp_percent(x as int),
{
    if x < 0 {
        0
    } else if x > 100 {
        100
    } else {
        x
    }
}

/// Whether `token` is there and not empty.
pub open spec fn filled(token: Option<String>) -> bool {
    token matches Some(t) && t@.len() > 0
}

fn is_filled(token: &Option<String>) -> (r: bool)
    ensures
        r == filled(*token),
{
    match token {
        Some(t) => !t.as_str().is_empty(),
        None => false,
    }
}

fn copy_text(text: &Option<String>) -> (r: Option<String>)
    ensures
        r == *text,
{
    match text {
        Some(t) => Some(t.clone()),
        None => None,
    }
}

impl Account {
    /// Whether the account holds a token of either kind.
    pub open spec fn has_token(self) -> bool {
        filled(self.token) || filled(self.refresh_token)
    }

    /// Whether the account is known to be barred from use.
    pub open spec fn barred(self) -> bool {
        self.is_disabled == Some(true)
    }

    /// The account with `quota` in place of what was known of its quota.
    pub open spec fn with_quota(self, quota: Quota) -> Account {
        Account { quota, ..self }
    }

    /// Tells whether the account holds a token of either kind.
    pub fn holds_token(&self) -> (r: bool)
        ensures
            r == self.has_token(),
    {
        is_filled(&self.token) || is_filled(&self.refresh_token)
    }

    /// Tells whether the account is known to be barred from use.
    pub fn is_barred(&self) -> (r: bool)
        ensures
            r == self.barred(),
    {
        match self.is_disabled {
            Some(disabled) => disabled,
            None => false,
        }
    }
}

impl Clone for Account {
    fn clone(&self) -> (r: Self)
        ensures
            r == *self,
    {
        Account {
            id: self.id,
            email: self.email.clone(),
            token: copy_text(&self.token),
            refresh_token: copy_text(&self.refresh_token),
            is_disabled: self.is_disabled,
            is_devin: self.is_devin,
            quota: self.quota,
            last_login_at: self.last_login_at,
        }
    }
}

} // verus!
