//! What quotas, choices and texts are for, stated on the fields of the accounts and
//! on the results.
use crate::account::{usage_magnitude, usage_percent, Account, Quota};
use crate::identity::{first_with, none_with};
use crate::laws::{
    lemma_usage_is_monotone, lemma_usage_is_near, lemma_usage_of_nothing,
    one_is_taken_if_any_is_eligible,
};
use crate::outside::{json_bool, json_members, json_text, lowercase};
use crate::reply::{member_bool, member_text, plan_status_of, stated_error};
use crate::rounding::{
    half_even, half_up, nearest, nearest_is_normalised, nearest_of_double, nearest_of_scaled,
    TWO_52,
};
use crate::selection::{usable, usable_of, Criteria};
use crate::text::{
    decimal, digits, failure_log, lacks_token, none_serves, not_in_library, quota_unknown,
    still_serves, success_log, switch_failed, unidentified,
};
use vstd::arithmetic::power2::*;
use vstd::prelude::*;

verus! {

/// Where both the daily and the weekly percentage are known, what is left is no more
/// than either, is one of them or the full 100, and is nothing as soon as one of them
/// is spent.
pub proof fn the_scarcer_percentage_counts(quota: Quota, d: i32, w: i32)
    requires
        quota.daily_quota_remaining_percent == Some(d),
        quota.weekly_quota_remaining_percent == Some(w),
    ensures
        ({
            let left = quota.remaining_percent();
            &&& 0 <= left <= 100
            &&& d <= 0 || w <= 0 ==> left == 0
            &&& d > 0 && w > 0 ==> left <= d && left <= w
            &&& d > 0 && w > 0 ==> left == d || left == w || left == 100
        }),
{
}

/// Where one percentage alone is known, it is what is left, cut off at 0 and 100.
pub proof fn a_single_percentage_counts(quota: Quota, p: i32)
    requires
        ({
            ||| quota.daily_quota_remaining_percent == Some(p)
                && quota.weekly_quota_remaining_percent is None
            ||| quota.weekly_quota_remaining_percent == Some(p)
                && quota.daily_quota_remaining_percent is None
        }),
    ensures
        ({
            let left = quota.remaining_percent();
            &&& 0 <= p <= 100 ==> left == p
            &&& p <= 0 ==> left == 0
            &&& p >= 100 ==> left == 100
        }),
{
}

/// It does not matter which of the two percentages is the daily one.
pub proof fn daily_and_weekly_count_alike(a: Quota, b: Quota)
    requires
        a.daily_quota_remaining_percent == b.weekly_quota_remaining_percent,
        a.weekly_quota_remaining_percent == b.daily_quota_remaining_percent,
        a.used_quota == b.used_quota,
        a.total_quota == b.total_quota,
    ensures
        a.remaining_percent() == b.remaining_percent(),
{
}

/// What a percentage adds can only lower what is left under the other one.
pub proof fn a_second_percentage_never_adds(a: Quota, b: Quota)
    requires
        a.daily_quota_remaining_percent is Some,
        a.weekly_quota_remaining_percent is None,
        b.daily_quota_remaining_percent == a.daily_quota_remaining_percent,
        b.weekly_quota_remaining_percent is Some,
    ensures
        b.remaining_percent() <= a.remaining_percent(),
{
}

/// Of credits, what is used and what is left make up 100 percent, within 0 and 100.
pub proof fn used_and_left_make_up_all(quota: Quota, used: i64, total: i64)
    requires
        quota.daily_quota_remaining_percent is None,
        quota.weekly_quota_remaining_percent is None,
        quota.used_quota == Some(used),
        quota.total_quota == Some(total),
        total > 0,
    ensures
        0 <= usage_percent(used, total) <= 100 ==> quota.remaining_percent() + usage_percent(
            used,
            total,
        ) == 100,
        usage_percent(used, total) <= 0 ==> quota.remaining_percent() == 100,
        usage_percent(used, total) >= 100 ==> quota.remaining_percent() == 0,
{
}

/// All credits used are exactly 100 percent.
pub proof fn all_used_is_one_hundred(total: i64)
    requires
        total > 0,
    ensures
        usage_percent(total, total) == 100,
{
    let n: nat = total as nat;
    lemma2_to64();
    lemma2_to64_rest();
    let (m, e) = nearest(n, 1);
    nearest_is_normalised(n, 1);
    nearest_of_scaled(m, m, 52);
    let p: nat = pow2(52);
    assert(TWO_52 * m <= m * p < 2 * TWO_52 * m) by (nonlinear_arith)
        requires
            m > 0,
            p == TWO_52,
    ;
    assert((m * p) / m == p && (m * p) % m == 0) by {
        vstd::arithmetic::div_mod::lemma_fundamental_div_mod_converse(
            (m * p) as int,
            m as int,
            p as int,
            0,
        );
    }
    assert(half_even(m * p, m) == p);
    assert(nearest(m * p, m) == (p, 0int));
    assert(nearest(m, m) == (TWO_52 as nat, -52int));
    let h: nat = 100 * 0x4000_0000_0000;
    nearest_of_scaled(h, 1, 6);
    assert(h / 1 == h);
    assert(nearest(h, 1) == (h, 0int));
    assert(h * pow2(6) == TWO_52 as nat * 100);
    assert(nearest(TWO_52 as nat * 100, 1) == (h, 6int));
    assert(usage_magnitude(n, n) == half_up(h, 6 - 52 + e - e));
    assert(half_up(h, -46) == (h + pow2(45)) / pow2(46));
}

/// The share of the used credits depends on their proportion alone: twice as much of
/// twice as many is the same.
pub proof fn share_depends_on_the_proportion(used: i64, total: i64)
    requires
        total > 0,
        2 * total <= i64::MAX,
        i64::MIN <= 2 * used <= i64::MAX,
    ensures
        usage_percent((2 * used) as i64, (2 * total) as i64) == usage_percent(used, total),
{
    let t: nat = total as nat;
    nearest_of_double(t, 1);
    if used == 0 {
        lemma_usage_of_nothing(t);
        lemma_usage_of_nothing(2 * t);
    } else {
        let u: nat = if used > 0 {
            used as nat
        } else {
            (-used) as nat
        };
        nearest_of_double(u, 1);
        assert(usage_magnitude(2 * u, 2 * t) == usage_magnitude(u, t));
    }
}

/// Credits count only as far as doubles tell them apart.
pub proof fn share_sees_credits_as_doubles(a: i64, b: i64, s: i64, t: i64)
    requires
        a >= 0,
        b >= 0,
        s > 0,
        t > 0,
        nearest(a as nat, 1) == nearest(b as nat, 1),
        nearest(s as nat, 1) == nearest(t as nat, 1),
    ensures
        usage_percent(a, s) == usage_percent(b, t),
{
}

/// The quotient counts only as far as doubles tell it apart: credits with the same
/// quotient as a double have the same share.
pub proof fn share_sees_the_quotient_as_a_double(a: i64, b: i64, s: i64, t: i64)
    requires
        a >= 0,
        b >= 0,
        s > 0,
        t > 0,
        ({
            let (ma, ea) = nearest(a as nat, 1);
            let (mb, eb) = nearest(b as nat, 1);
            let (ms, es) = nearest(s as nat, 1);
            let (mt, et) = nearest(t as nat, 1);
            let (p, x) = nearest(ma, ms);
            let (q, y) = nearest(mb, mt);
            p == q && x + ea - es == y + eb - et
        }),
    ensures
        usage_percent(a, s) == usage_percent(b, t),
{
}

/// More use is no smaller share.
pub proof fn share_grows_with_use(a: i64, b: i64, total: i64)
    requires
        total > 0,
        a <= b,
    ensures
        usage_percent(a, total) <= usage_percent(b, total),
{
    let t: nat = total as nat;
    if a >= 0 {
        lemma_usage_is_monotone(a as nat, b as nat, t);
    } else if b < 0 {
        lemma_usage_is_monotone((-b) as nat, (-a) as nat, t);
    }
}

/// A negative number of used credits is the mirror image of a positive one.
pub proof fn share_is_odd(used: i64, total: i64)
    requires
        total > 0,
        used > 0,
        usage_percent(used, total) < i32::MAX,
    ensures
        usage_percent((-used) as i64, total) == -usage_percent(used, total),
{
}

/// What is left can be computed wherever a percentage is known, no positive number of
/// credits is granted, or no more than all of them, counted backwards, are used.
pub proof fn ordinary_quotas_can_be_measured(quota: Quota)
    requires
        ({
            ||| quota.daily_quota_remaining_percent is Some
            ||| quota.weekly_quota_remaining_percent is Some
            ||| quota.used_quota is None
            ||| quota.total_quota is None
            ||| quota.total_quota->0 <= 0
            ||| quota.used_quota->0 >= -quota.total_quota->0
        }),
    ensures
        quota.measurable(),
{
    if quota.used_quota is Some && quota.total_quota is Some && quota.total_quota->0 > 0 {
        let used = quota.used_quota->0;
        let total = quota.total_quota->0;
        if -total <= used < 0 {
            all_used_is_one_hundred(total);
            lemma_usage_is_monotone((-used) as nat, total as nat, total as nat);
        }
    }
}

/// An integer rounded to even differs by one half only where it is even.
pub proof fn ties_go_to_even(num: nat, den: nat)
    requires
        den > 0,
        2 * (num % den) == den,
    ensures
        half_even(num, den) % 2 == 0,
{
}

/// A double rounded to an integer is less than one half above, and no more than one
/// half below the double.
pub proof fn half_up_is_near(m: nat, k: nat)
    requires
        k > 0,
    ensures
        2 * half_up(m, -(k as int)) * pow2(k) <= 2 * m + pow2(k),
        2 * m < 2 * half_up(m, -(k as int)) * pow2(k) + pow2(k),
{
    lemma_pow2_unfold(k);
    lemma_pow2_pos((k - 1) as nat);
    let p = pow2(k);
    let h = pow2((k - 1) as nat);
    let r = half_up(m, -(k as int));
    vstd::arithmetic::div_mod::lemma_fundamental_div_mod((m + h) as int, p as int);
    let rest = (m + h) % p;
    assert(m + h == p * r + rest);
    assert(2 * r * p == 2 * (p * r)) by (nonlinear_arith);
}

/// A double that is an integer stays as it is.
pub proof fn half_up_keeps_integers(m: nat)
    ensures
        half_up(m, 0) == m,
{
    lemma2_to64();
    assert(m * pow2(0) == m);
}

/// An account that is taken is another one than the current one, is not marked as
/// disabled, whatever its provider, holds a token that is not empty, was not ruled
/// out, and has something left, and more than the floor.
pub proof fn taken_account_serves(c: Criteria, all: Seq<Account>, i: int)
    requires
        c.takes(all, i),
    ensures
        0 <= i < all.len(),
        all[i].id != c.current.id,
        all[i].is_disabled != Some(true),
        (all[i].token is Some && all[i].token->0@.len() > 0) || (all[i].refresh_token is Some
            && all[i].refresh_token->0@.len() > 0),
        !c.excluded.contains(all[i].id),
        all[i].quota.remaining_percent() > 0,
        all[i].quota.remaining_percent() > c.min_remaining_percent,
{
}

/// Wherever there is an account that serves, one is taken.
pub proof fn a_serving_account_is_not_overlooked(c: Criteria, all: Seq<Account>, j: int)
    requires
        0 <= j < all.len(),
        all[j].id != c.current.id,
        all[j].is_disabled != Some(true),
        (all[j].token is Some && all[j].token->0@.len() > 0) || (all[j].refresh_token is Some
            && all[j].refresh_token->0@.len() > 0),
        !c.excluded.contains(all[j].id),
        all[j].quota.remaining_percent() > 0,
        all[j].quota.remaining_percent() > c.min_remaining_percent,
    ensures
        exists|i: int| c.takes(all, i),
        !c.takes_none(all),
{
    assert(c.eligible(all[j]));
    one_is_taken_if_any_is_eligible(c, all);
}

/// Where the provider is to be kept and an account of it serves, one of it is taken.
pub proof fn preferred_provider_is_kept(c: Criteria, all: Seq<Account>, i: int, j: int)
    requires
        c.prefer_same_provider,
        c.takes(all, i),
        0 <= j < all.len(),
        all[j].id != c.current.id,
        all[j].is_disabled != Some(true),
        (all[j].token is Some && all[j].token->0@.len() > 0) || (all[j].refresh_token is Some
            && all[j].refresh_token->0@.len() > 0),
        !c.excluded.contains(all[j].id),
        all[j].quota.remaining_percent() > 0,
        all[j].quota.remaining_percent() > c.min_remaining_percent,
        all[j].is_devin == c.current.is_devin,
    ensures
        all[i].is_devin == c.current.is_devin,
{
    assert(c.related(all[j]));
}

/// Under `round_robin` no account that serves had its last login before that of the
/// account that is taken, by the seconds and then by the nanoseconds; an account that
/// was never used goes first, and of equals the first in the list. Where the provider
/// is to be kept, this is said of the accounts of the taken one's provider.
pub proof fn round_robin_goes_by_the_last_login(c: Criteria, all: Seq<Account>, i: int, j: int)
    requires
        c.strategy == "round_robin"@,
        c.takes(all, i),
        0 <= j < all.len(),
        all[j].id != c.current.id,
        all[j].is_disabled != Some(true),
        (all[j].token is Some && all[j].token->0@.len() > 0) || (all[j].refresh_token is Some
            && all[j].refresh_token->0@.len() > 0),
        !c.excluded.contains(all[j].id),
        all[j].quota.remaining_percent() > 0,
        all[j].quota.remaining_percent() > c.min_remaining_percent,
        c.prefer_same_provider ==> all[j].is_devin == all[i].is_devin,
    ensures
        all[j].last_login_at is None ==> all[i].last_login_at is None,
        all[i].last_login_at is Some && all[j].last_login_at is Some ==> {
            let taken = all[i].last_login_at->0;
            let other = all[j].last_login_at->0;
            &&& taken.secs <= other.secs
            &&& taken.secs == other.secs ==> taken.nanos <= other.nanos
        },
        j < i ==> all[j].last_login_at != all[i].last_login_at,
{
    assert(c.eligible(all[j]));
    assert(c.in_pool(all, all[j]));
}

/// Under every other strategy no account that serves has more left than the account
/// that is taken; of equals it is the first in the list. Where the provider is to be
/// kept, this is said of the accounts of the taken one's provider.
pub proof fn other_strategies_go_by_the_quota(c: Criteria, all: Seq<Account>, i: int, j: int)
    requires
        c.strategy != "round_robin"@,
        c.takes(all, i),
        0 <= j < all.len(),
        all[j].id != c.current.id,
        all[j].is_disabled != Some(true),
        (all[j].token is Some && all[j].token->0@.len() > 0) || (all[j].refresh_token is Some
            && all[j].refresh_token->0@.len() > 0),
        !c.excluded.contains(all[j].id),
        all[j].quota.remaining_percent() > 0,
        all[j].quota.remaining_percent() > c.min_remaining_percent,
        c.prefer_same_provider ==> all[j].is_devin == all[i].is_devin,
    ensures
        all[j].quota.remaining_percent() <= all[i].quota.remaining_percent(),
        j < i ==> all[j].quota.remaining_percent() < all[i].quota.remaining_percent(),
{
    assert(c.eligible(all[j]));
    assert(c.in_pool(all, all[j]));
}

/// The accounts that are refreshed are those of the list that are another one than
/// the current one, are not marked as disabled, and hold a token that is not empty.
/// What is known of their quota does not matter.
pub proof fn refreshed_accounts_can_be_used(all: Seq<Account>, current_id: u128, acc: Account)
    ensures
        usable_of(all, current_id).contains(acc) <==> {
            &&& all.contains(acc)
            &&& acc.id != current_id
            &&& acc.is_disabled != Some(true)
            &&& (acc.token is Some && acc.token->0@.len() > 0) || (acc.refresh_token is Some
                && acc.refresh_token->0@.len() > 0)
        },
{
    let wanted = |a: Account| usable(a, current_id);
    let kept = all.filter(wanted);
    assert(kept == usable_of(all, current_id));
    if kept.contains(acc) {
        let k = choose|k: int| 0 <= k < kept.len() && kept[k] == acc;
        all.lemma_filter_pred(wanted, k);
        lemma_filter_has_only_members(all, wanted, k);
    }
    if all.contains(acc) && wanted(acc) {
        let k = choose|k: int| 0 <= k < all.len() && all[k] == acc;
        all.lemma_filter_contains(wanted, k);
    }
}

proof fn lemma_filter_has_only_members(all: Seq<Account>, wanted: spec_fn(Account) -> bool, k: int)
    requires
        0 <= k < all.filter(wanted).len(),
    ensures
        all.contains(all.filter(wanted)[k]),
    decreases all.len(),
{
    reveal(Seq::filter);
    if all.len() > 0 {
        let rest = all.drop_last();
        if k < rest.filter(wanted).len() {
            lemma_filter_has_only_members(rest, wanted, k);
            let x = rest.filter(wanted)[k];
            let n = choose|n: int| 0 <= n < rest.len() && rest[n] == x;
            assert(all[n] == x);
        } else {
            assert(all[all.len() - 1] == all.last());
        }
    }
}

/// The accounts that are refreshed keep the order of the list, and none comes up
/// more often than in it: what is refreshed of two lists in a row is what is
/// refreshed of the first and then what is refreshed of the second.
pub proof fn refreshed_accounts_keep_their_order(a: Seq<Account>, b: Seq<Account>, current_id: u128)
    ensures
        usable_of(a + b, current_id) == usable_of(a, current_id) + usable_of(b, current_id),
        a.len() == 1 ==> usable_of(a, current_id).len() <= 1,
    decreases b.len(),
{
    reveal(Seq::filter);
    let wanted = |acc: Account| usable(acc, current_id);
    a.lemma_filter_len(wanted);
    if b.len() == 0 {
        assert(a + b =~= a);
        assert(usable_of(b, current_id) =~= Seq::empty());
    } else {
        assert((a + b).drop_last() =~= a + b.drop_last());
        assert((a + b).last() == b.last());
        refreshed_accounts_keep_their_order(a, b.drop_last(), current_id);
        assert(usable_of(a + b, current_id) == (a + b).filter(wanted));
        assert(usable_of(b, current_id) == b.filter(wanted));
        assert(usable_of(b.drop_last(), current_id) == b.drop_last().filter(wanted));
        assert(usable_of(a + b.drop_last(), current_id) == (a + b.drop_last()).filter(wanted));
        assert(usable_of(a + b, current_id) =~= usable_of(a, current_id) + usable_of(
            b,
            current_id,
        ));
    }
}

/// The account that is found has the address, none before it has, and nothing is
/// found only where no account has it.
pub proof fn found_account_is_the_first(accounts: Seq<Account>, email: Seq<char>, i: int, j: int)
    requires
        0 <= j < accounts.len(),
        lowercase(accounts[j].email@) == lowercase(email),
    ensures
        !none_with(accounts, email),
        first_with(accounts, email, i) ==> 0 <= i <= j && lowercase(accounts[i].email@)
            == lowercase(email),
{
}

/// Nothing is found in vain: where no account is found, none has the address, and
/// where one is, there is one.
pub proof fn nothing_is_found_in_vain(accounts: Seq<Account>, email: Seq<char>)
    ensures
        none_with(accounts, email) <==> !(exists|i: int| first_with(accounts, email, i)),
{
    if !none_with(accounts, email) {
        let j = choose|j: int|
            0 <= j < accounts.len() && lowercase(#[trigger] accounts[j].email@) == lowercase(email);
        lemma_first_exists(accounts, email, j);
    }
}

proof fn lemma_first_exists(accounts: Seq<Account>, email: Seq<char>, j: int)
    requires
        0 <= j < accounts.len(),
        lowercase(accounts[j].email@) == lowercase(email),
    ensures
        exists|i: int| first_with(accounts, email, i),
    decreases j,
{
    if exists|k: int|
        0 <= k < j && lowercase(#[trigger] accounts[k].email@) == lowercase(email) {
        let k = choose|k: int|
            0 <= k < j && lowercase(#[trigger] accounts[k].email@) == lowercase(email);
        lemma_first_exists(accounts, email, k);
    } else {
        assert(first_with(accounts, email, j));
    }
}

/// What a JSON object says of one key is the value of that member, if it has it and
/// it is of the right kind.
pub proof fn members_are_read_by_their_keys(value: serde_json::Value, key: Seq<char>)
    ensures
        member_bool(value, key) matches Some(b) ==> json_members(value).contains_key(key)
            && json_bool(json_members(value)[key]) == Some(b),
        member_text(value, key) matches Some(t) ==> json_members(value).contains_key(key)
            && json_text(json_members(value)[key]) == Some(t),
        json_members(value).contains_key(key) && json_bool(json_members(value)[key]) is Some
            ==> member_bool(value, key) is Some,
        json_members(value).contains_key(key) && json_text(json_members(value)[key]) is Some
            ==> member_text(value, key) is Some,
{
}

/// A reason that is given is kept as it is.
pub proof fn stated_reason_is_kept(text: Seq<char>)
    ensures
        stated_error(Some(text)) == text,
{
}

/// The number that a text of decimal digits stands for.
pub open spec fn number(text: Seq<char>) -> int
    decreases text.len(),
{
    if text.len() == 0 {
        0
    } else {
        10 * number(text.drop_last()) + (text.last() as int - '0' as int)
    }
}

/// A number in decimal notation reads back as itself, is made of digits alone, and
/// has no needless zero in front.
pub proof fn digits_read_back(n: nat)
    ensures
        number(digits(n)) == n,
        digits(n).len() > 0,
        forall|i: int| 0 <= i < digits(n).len() ==> '0' <= #[trigger] digits(n)[i] <= '9',
        digits(n)[0] == '0' ==> digits(n).len() == 1,
        n > 0 ==> digits(n)[0] != '0',
    decreases n,
{
    if n < 10 {
        assert(digits(n).drop_last() =~= Seq::empty());
        assert(number(Seq::empty()) == 0);
    } else {
        digits_read_back(n / 10);
        assert(digits(n).drop_last() =~= digits(n / 10));
    }
}

/// A negative number is its amount behind a minus sign, and every other one has none.
pub proof fn decimal_reads_back(n: int)
    ensures
        n >= 0 ==> number(decimal(n)) == n && decimal(n)[0] != '-',
        n < 0 ==> decimal(n)[0] == '-' && number(decimal(n).skip(1)) == -n,
        decimal(n).len() > 0,
{
    if n >= 0 {
        digits_read_back(n as nat);
    } else {
        digits_read_back((-n) as nat);
        assert(decimal(n).skip(1) =~= digits((-n) as nat));
    }
}

/// The texts that give an error end with it, as it came.
pub proof fn errors_are_given_in_full(error: Seq<char>)
    ensures
        ({
            let n = error.len() as int;
            let a = quota_unknown(error);
            let b = switch_failed(error);
            let c = unidentified(error);
            &&& a.len() >= n && a.skip(a.len() - n) == error
            &&& b.len() >= n && b.skip(b.len() - n) == error
            &&& c.len() >= n && c.skip(c.len() - n) == error
        }),
{
    let n = error.len() as int;
    let a = quota_unknown(error);
    let b = switch_failed(error);
    let c = unidentified(error);
    assert(a.skip(a.len() - n) =~= error);
    assert(b.skip(b.len() - n) =~= error);
    assert(c.skip(c.len() - n) =~= error);
}

/// Whether the two texts on the current account are made by putting its address into
/// a text that is always the same.
pub open spec fn address_template(a: Seq<char>, b: Seq<char>, c: Seq<char>, d: Seq<char>) -> bool {
    &&& forall|email: Seq<char>| #[trigger] not_in_library(email) == a + email + b
    &&& forall|email: Seq<char>| #[trigger] lacks_token(email) == c + email + d
}

/// The texts on the current account give its address in full, at the same place in the
/// same words for every address.
pub proof fn addresses_are_given_in_full()
    ensures
        exists|a: Seq<char>, b: Seq<char>, c: Seq<char>, d: Seq<char>| #[trigger]
            address_template(a, b, c, d),
{
    assert(address_template(
        "当前账号 "@,
        " 未在账号库中（请先导入）"@,
        "当前账号 "@,
        " 缺少有效 Token，无法查询配额"@,
    ));
}

/// Whether what is logged of a failed switch is made by putting the two addresses and the
/// error into a text that is always the same.
pub open spec fn failure_template(a: Seq<char>, b: Seq<char>, c: Seq<char>, d: Seq<char>) -> bool {
    forall|from: Seq<char>, to: Seq<char>, error: Seq<char>| #[trigger]
        failure_log(from, to, error) == a + from + b + to + c + error + d
}

/// What is logged of a failed switch names the two accounts and the error, in this
/// order and in the same words for all of them.
pub proof fn failures_are_logged_in_full()
    ensures
        exists|a: Seq<char>, b: Seq<char>, c: Seq<char>, d: Seq<char>| #[trigger]
            failure_template(a, b, c, d),
{
    assert(failure_template("自动切换失败: "@, " → "@, " ("@, ")"@));
}

/// Whether what is logged of a switch is made by putting the two addresses and the two
/// percentages into a text that is always the same.
pub open spec fn success_template(
    a: Seq<char>,
    b: Seq<char>,
    c: Seq<char>,
    d: Seq<char>,
    e: Seq<char>,
) -> bool {
    forall|from: Seq<char>, to: Seq<char>, usage: int, remaining: int| #[trigger]
        success_log(from, to, usage, remaining) == a + from + b + to + c + decimal(usage) + d
            + decimal(remaining) + e
}

/// What is logged of a switch names the two accounts and the two percentages, in this
/// order and in the same words for all of them.
pub proof fn successes_are_logged_in_full()
    ensures
        exists|a: Seq<char>, b: Seq<char>, c: Seq<char>, d: Seq<char>, e: Seq<char>| #[trigger]
            success_template(a, b, c, d, e),
{
    assert(success_template(
        "自动切换成功（额度耗尽）: "@,
        " → "@,
        " [当前使用率 "@,
        "%, 剩余 "@,
        "%]"@,
    ));
}

/// Whether why an account is kept is made by putting the four numbers into a text that is
/// always the same.
pub open spec fn keeping_template(
    a: Seq<char>,
    b: Seq<char>,
    c: Seq<char>,
    d: Seq<char>,
    e: Seq<char>,
) -> bool {
    forall|usage: int, threshold: int, remaining: int, floor: int| #[trigger]
        still_serves(usage, threshold, remaining, floor) == a + decimal(usage) + b + decimal(
            threshold,
        ) + c + decimal(remaining) + d + decimal(floor) + e
}

/// Why an account is kept is told with the usage, its threshold, what is left and the
/// floor, in this order and in the same words for all numbers.
pub proof fn thresholds_are_told_in_full()
    ensures
        exists|a: Seq<char>, b: Seq<char>, c: Seq<char>, d: Seq<char>, e: Seq<char>| #[trigger]
            keeping_template(a, b, c, d, e),
{
    assert(keeping_template("未达切换条件（使用率 "@, "% < "@, "% 或剩余 "@, "% > "@, "%）"@));
}

/// Whether the count of trials is put into a text that is always the same.
pub open spec fn counting_template(a: Seq<char>, b: Seq<char>) -> bool {
    forall|n: nat| n > 0 ==> #[trigger] none_serves(n) == a + decimal(n as int) + b
}

/// How many candidates were tried in vain is told in the same words for all numbers.
pub proof fn trials_are_told_in_full()
    ensures
        exists|a: Seq<char>, b: Seq<char>| #[trigger] counting_template(a, b),
{
    assert(counting_template("当前账号已耗尽，验证了 "@, " 个候选账号实时配额均不达标"@));
}

/// Of a quota answer the member `plan_status` is read where there is one, whatever
/// else the answer holds, and else the whole of it.
pub proof fn plan_is_read_from_its_member(answer: serde_json::Value, other: serde_json::Value)
    ensures
        !json_members(answer).contains_key("plan_status"@) ==> plan_status_of(answer) == answer,
        json_members(answer).contains_key("plan_status"@) && json_members(other).contains_key(
            "plan_status"@,
        ) && json_members(answer)["plan_status"@] == json_members(other)["plan_status"@]
            ==> plan_status_of(answer) == plan_status_of(other),
        json_members(answer).contains_key("plan_status"@) ==> plan_status_of(answer)
            == json_members(answer)["plan_status"@],
{
}

/// The share of the used credits is within half a point of the true one, also where
/// more are used than granted.
pub proof fn share_is_rounded_to_the_nearest_percent(used: i64, total: i64)
    requires
        0 <= used <= 0x1000_0000_0000,
        0 < total <= 0x1000_0000_0000,
        usage_percent(used, total) < i32::MAX,
    ensures
        -total <= 2 * (usage_percent(used, total) * total - 100 * used) <= total,
{
    if used == 0 {
        lemma_usage_of_nothing(total as nat);
        assert(0 * total == 0) by (nonlinear_arith);
    } else {
        lemma_usage_is_near(used as nat, total as nat);
    }
}

} // verus!
