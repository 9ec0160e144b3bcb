//! What holds of quotas and of the choice among accounts.
use crate::account::{usage_magnitude, Account, Quota};
use crate::identity::{first_with, none_with};
use crate::outside::lowercase;
use crate::rounding::{
    half_even_is_near, half_even_respects_integers, half_up, half_up_is_monotone, half_up_of_zero,
    lemma_at_most_scaled, nearest, nearest_is_monotone, scaled_nearest_is_monotone,
    nearest_is_normalised, nearest_is_the_rounded_scaled_fraction, TWO_52, TWO_53,
};
use crate::selection::{older, preferred, usable, usable_of, Criteria, ROUND_ROBIN};
use vstd::arithmetic::power2::*;
use vstd::prelude::*;

verus! {

/// What is left of a quota is a percentage, or -1.
pub proof fn remaining_is_a_percentage(quota: Quota)
    ensures
        -1 <= quota.remaining_percent() <= 100,
{
}

/// -1 stands exactly for a quota of which nothing is known: neither a daily nor a
/// weekly percentage, nor credits used out of a positive number.
pub proof fn remaining_is_unknown_without_data(quota: Quota)
    ensures
        quota.remaining_percent() == -1 <==> {
            &&& quota.daily_quota_remaining_percent is None
            &&& quota.weekly_quota_remaining_percent is None
            &&& !(quota.used_quota is Some && quota.total_quota is Some && quota.total_quota->0 > 0)
        },
{
}

/// Where all credits are used, or more, at least 100 percent are.
proof fn lemma_spent_is_all(used: nat, total: nat)
    requires
        0 < total <= used,
    ensures
        usage_magnitude(used, total) >= 100,
{
    lemma2_to64();
    lemma2_to64_rest();
    let (mu, eu) = nearest(used, 1);
    let (mt, et) = nearest(total, 1);
    let (mq, eq) = nearest(mu, mt);
    let (mp, ep) = nearest(mq * 100, 1);
    nearest_is_normalised(used, 1);
    nearest_is_normalised(total, 1);
    nearest_is_monotone(total, used, 1);
    nearest_is_normalised(mu, mt);
    nearest_is_the_rounded_scaled_fraction(mu, mt);
    let shift: int = eq + eu - et;
    assert(shift >= -52) by {
        if eq < -52 {
            let k: nat = (-eq) as nat;
            if eu == et {
                if k > 53 {
                    lemma_pow2_strictly_increases(53, k);
                }
                let p = pow2(k);
                assert(mu * p >= TWO_53 * mt) by (nonlinear_arith)
                    requires
                        mu >= mt,
                        p >= TWO_53,
                ;
            } else if eq < -53 {
                if k > 54 {
                    lemma_pow2_strictly_increases(54, k);
                }
                let p = pow2(k);
                assert(mu * p >= TWO_53 * mt) by (nonlinear_arith)
                    requires
                        2 * mu >= mt,
                        p >= 2 * TWO_53,
                ;
            }
        }
    }
    lemma_hundredfold(mq);
    let x: int = ep + shift;
    if x >= 0 {
        lemma_pow2_pos(x as nat);
        let p = pow2(x as nat);
        assert(mp * p >= mp) by (nonlinear_arith)
            requires
                p > 0,
        ;
    } else {
        let k: nat = (-x) as nat;
        let p = pow2(k);
        lemma_pow2_pos(k);
        if k < 46 {
            lemma_pow2_strictly_increases(k, 46);
        }
        if ep == 7 && k < 45 {
            lemma_pow2_strictly_increases(k, 45);
        }
        assert(100 * p <= mp);
        let h = pow2((k - 1) as nat);
        assert((mp + h) / p >= 100) by (nonlinear_arith)
            requires
                100 * p <= mp,
                p > 0,
                h >= 0,
        ;
    }
}

/// A hundred times a significand, rounded.
pub proof fn lemma_hundredfold(m: nat)
    requires
        TWO_52 <= m <= TWO_53,
    ensures
        ({
            let (mp, ep) = nearest(m * 100, 1);
            ||| ep == 6 && mp >= 100 * 0x4000_0000_0000
            ||| ep == 7 && mp >= TWO_52
        }),
{
    let n = m * 100;
    assert(nearest(n, 1).0 == nearest(n, 2).0 && nearest(n, 1).1 == nearest(n, 2).1 + 1);
    assert(nearest(n, 2).0 == nearest(n, 4).0 && nearest(n, 2).1 == nearest(n, 4).1 + 1);
    assert(nearest(n, 4).0 == nearest(n, 8).0 && nearest(n, 4).1 == nearest(n, 8).1 + 1);
    assert(nearest(n, 8).0 == nearest(n, 16).0 && nearest(n, 8).1 == nearest(n, 16).1 + 1);
    assert(nearest(n, 16).0 == nearest(n, 32).0 && nearest(n, 16).1 == nearest(n, 32).1 + 1);
    assert(nearest(n, 32).0 == nearest(n, 64).0 && nearest(n, 32).1 == nearest(n, 64).1 + 1);
    half_even_respects_integers(n, 64, 100 * 0x4000_0000_0000);
    half_even_respects_integers(n, 128, TWO_52 as nat);
    if n >= TWO_53 * 64 {
        assert(nearest(n, 64).0 == nearest(n, 128).0 && nearest(n, 64).1 == nearest(n, 128).1 + 1);
    }
}

/// Credits that are all used leave nothing, and credits of which none are used
/// leave everything.
pub proof fn credits_end_at_their_bounds(quota: Quota)
    requires
        quota.daily_quota_remaining_percent is None,
        quota.weekly_quota_remaining_percent is None,
        quota.used_quota is Some,
        quota.total_quota is Some,
        quota.total_quota->0 > 0,
        quota.measurable(),
    ensures
        quota.used_quota->0 >= quota.total_quota->0 ==> quota.remaining_percent() == 0,
        quota.used_quota->0 <= 0 ==> quota.remaining_percent() == 100,
{
    let used = quota.used_quota->0;
    let total = quota.total_quota->0;
    if used >= total {
        lemma_spent_is_all(used as nat, total as nat);
    }
    if used == 0 {
        lemma_usage_of_nothing(total as nat);
    }
}

/// The used share grows with the used credits.
pub proof fn lemma_usage_is_monotone(a: nat, b: nat, total: nat)
    requires
        a <= b,
        total > 0,
    ensures
        usage_magnitude(a, total) <= usage_magnitude(b, total),
{
    let (mt, et) = nearest(total, 1);
    nearest_is_normalised(total, 1);
    if a == 0 {
        lemma_usage_of_nothing(total);
    } else {
        let (ma, ea) = nearest(a, 1);
        let (mb, eb) = nearest(b, 1);
        nearest_is_normalised(a, 1);
        nearest_is_normalised(b, 1);
        nearest_is_monotone(a, b, 1);
        let (qa, fa) = nearest(ma, mt);
        let (qb, fb) = nearest(mb, mt);
        scaled_nearest_is_monotone((ma, ea), (mb, eb), 1, mt);
        nearest_is_normalised(ma, mt);
        nearest_is_normalised(mb, mt);
        let (pa, ga) = nearest(qa * 100, 1);
        let (pb, gb) = nearest(qb * 100, 1);
        scaled_nearest_is_monotone((qa, fa + ea - et), (qb, fb + eb - et), 100, 1);
        nearest_is_normalised(qa * 100, 1);
        nearest_is_normalised(qb * 100, 1);
        let xa = ga + fa + ea - et;
        let xb = gb + fb + eb - et;
        lemma_at_most_scaled(pa, pb, (xb - xa) as nat);
        half_up_is_monotone((pa, xa), (pb, xb));
    }
}

/// Of two accounts with as many credits, the one that used more of them has not
/// more left.
pub proof fn more_use_leaves_no_more(a: Quota, b: Quota)
    requires
        a.daily_quota_remaining_percent is None,
        a.weekly_quota_remaining_percent is None,
        a.used_quota is Some,
        a.total_quota is Some,
        a.total_quota->0 > 0,
        b.daily_quota_remaining_percent is None,
        b.weekly_quota_remaining_percent is None,
        b.used_quota is Some,
        b.total_quota is Some,
        b.total_quota->0 > 0,
        a.total_quota == b.total_quota,
        a.used_quota->0 <= b.used_quota->0,
    ensures
        a.remaining_percent() >= b.remaining_percent(),
{
    let total = a.total_quota->0 as nat;
    let ua = a.used_quota->0;
    let ub = b.used_quota->0;
    if ua >= 0 {
        lemma_usage_is_monotone(ua as nat, ub as nat, total);
    } else if ub < 0 {
        lemma_usage_is_monotone((-ub) as nat, (-ua) as nat, total);
    }
}

/// The rounded share of the used credits is within half a point of the true one.
pub proof fn lemma_usage_is_near(used: nat, total: nat)
    requires
        0 < used <= 0x1000_0000_0000,
        0 < total <= 0x1000_0000_0000,
    ensures
        -(total as int) <= 2 * (usage_magnitude(used, total) * total - 100 * used) <= total,
{
    lemma2_to64();
    lemma2_to64_rest();
    let (mu, eu) = nearest(used, 1);
    let (mt, et) = nearest(total, 1);
    let (mq, eq) = nearest(mu, mt);
    let (mp, ep) = nearest(mq * 100, 1);
    lemma_integer_is_exact(used);
    lemma_integer_is_exact(total);
    nearest_is_normalised(used, 1);
    nearest_is_normalised(total, 1);
    nearest_is_normalised(mu, mt);
    nearest_is_the_rounded_scaled_fraction(mu, mt);
    let a: nat = (-eu) as nat;
    let b: nat = (-et) as nat;
    assert(eq < 0) by {
        if eq == 0 {
            assert(mt * pow2(0) == mt);
        }
    }
    let c: nat = (-eq) as nat;
    let pa = pow2(a);
    let pb = pow2(b);
    let pc = pow2(c);
    assert(b <= 53) by {
        if b > 53 {
            lemma_pow2_strictly_increases(53, b);
            assert(total * pb > TWO_53) by (nonlinear_arith)
                requires
                    total >= 1,
                    pb > TWO_53,
            ;
        }
    }
    assert(a >= 8) by {
        if a < 8 {
            lemma_pow2_strictly_increases(a, 8);
            assert(used * pa < TWO_52) by (nonlinear_arith)
                requires
                    used <= 0x1000_0000_0000,
                    pa < 256,
            ;
        }
    }
    assert(c >= 51) by {
        if c < 51 {
            lemma_pow2_strictly_increases(c, 51);
            assert(mu * pc < TWO_52 * mt) by (nonlinear_arith)
                requires
                    mu <= TWO_53,
                    mt >= TWO_52,
                    2 * pc < TWO_52,
            ;
        }
    }
    let s: nat = (a + c - b) as nat;
    // The quotient `q = mq / 2^s` is within half a unit of `used / total`.
    half_even_is_near(mu * pow2(c), mt);
    lemma_pow2_adds(a, c);
    lemma_pow2_adds(s, b);
    lemma_pow2_pos(b);
    lemma_pow2_pos(s);
    let ps = pow2(s);
    assert(used * pa * pc == used * ps * pb) by (nonlinear_arith)
        requires
            pa * pc == ps * pb,
    ;
    assert(-(total as int) <= 2 * (used * ps - mq * total) <= total) by (nonlinear_arith)
        requires
            -(total * pb) <= 2 * (used * ps * pb - mq * (total * pb)) <= total * pb,
            pb > 0,
    ;
    // So the unit of the quotient is small beside the total.
    assert(ps > 228 * total) by (nonlinear_arith)
        requires
            -(total as int) <= 2 * (used * ps - mq * total),
            mq >= 0x10_0000_0000_0000,
            0 < used <= 0x1000_0000_0000,
            total > 0,
    ;
    assert(s >= 8) by {
        if s < 8 {
            lemma_pow2_strictly_increases(s, 8);
            assert(s <= 7);
            if s < 7 {
                lemma_pow2_strictly_increases(s, 7);
            }
        }
    }
    // The product is within half a unit of `100 * q`.
    lemma_hundredfold(mq);
    nearest_is_the_rounded_scaled_fraction(mq * 100, 1);
    let unit = pow2(ep as nat);
    half_even_is_near(mq * 100, unit);
    assert(unit <= 128);
    // The result is within one half of the product.
    let k: nat = (s - ep) as nat;
    let r = half_up(mp, ep + eq + eu - et);
    let whole = pow2(k);
    let half = pow2((k - 1) as nat);
    lemma_pow2_unfold(k);
    lemma_pow2_pos((k - 1) as nat);
    assert(r == (mp + half) / whole);
    vstd::arithmetic::div_mod::lemma_fundamental_div_mod((mp + half) as int, whole as int);
    lemma_pow2_adds(k, ep as nat);
    assert(whole * unit == ps);
    let rest = (mp + half) % whole;
    lemma_errors_add_up(
        used as int,
        total as int,
        mq as int,
        mp as int,
        r as int,
        unit as int,
        whole as int,
        half as int,
        rest as int,
        ps as int,
    );
    let d = r * total - 100 * used;
    if 2 * d > total || 2 * d < -(total as int) {
        assert(false) by (nonlinear_arith)
            requires
                2 * d >= total + 1 || 2 * d <= -(total + 1),
                -(total * ps + 228 * total) <= 2 * d * ps <= total * ps + 228 * total,
                ps > 228 * total,
                total > 0,
        ;
    }
}

/// What three roundings, each off by at most one half of its unit, amount to.
proof fn lemma_errors_add_up(
    used: int,
    total: int,
    mq: int,
    mp: int,
    r: int,
    unit: int,
    whole: int,
    half: int,
    rest: int,
    ps: int,
)
    requires
        total > 0,
        0 < unit <= 128,
        whole == 2 * half,
        half > 0,
        0 <= rest < whole,
        mp + half == whole * r + rest,
        whole * unit == ps,
        -unit <= 2 * (mq * 100 - mp * unit) <= unit,
        -total <= 2 * (used * ps - mq * total) <= total,
    ensures
        -(total * ps + 228 * total) <= 2 * (r * total - 100 * used) * ps <= total * ps + 228
            * total,
{
    // How far `r * 2^s` is from the product, in the unit of the quotient.
    let e1 = r * ps - mp * unit;
    let e2 = mp * unit - mq * 100;
    let e3 = mq * total - used * ps;
    assert(r * ps == (whole * r) * unit) by (nonlinear_arith)
        requires
            whole * unit == ps,
    ;
    assert(e1 == (half - rest) * unit) by (nonlinear_arith)
        requires
            e1 == (whole * r) * unit - mp * unit,
            mp + half == whole * r + rest,
    ;
    assert(-ps <= 2 * e1 <= ps) by (nonlinear_arith)
        requires
            e1 == (half - rest) * unit,
            whole == 2 * half,
            0 <= rest < whole,
            whole * unit == ps,
            unit > 0,
    ;
    assert((r * total - 100 * used) * ps == total * e1 + total * e2 + 100 * e3) by (nonlinear_arith)
        requires
            e1 == r * ps - mp * unit,
            e2 == mp * unit - mq * 100,
            e3 == mq * total - used * ps,
    ;
    assert(-(total * ps) <= 2 * (total * e1) <= total * ps) by (nonlinear_arith)
        requires
            -ps <= 2 * e1 <= ps,
            total > 0,
    ;
    assert(-(128 * total) <= 2 * (total * e2) <= 128 * total) by (nonlinear_arith)
        requires
            -128 <= 2 * e2 <= 128,
            total > 0,
    ;
    let d = r * total - 100 * used;
    assert(2 * d * ps == 2 * (d * ps)) by (nonlinear_arith);
}

/// An integer of at most 52 bits is a double: rounding only scales it.
proof fn lemma_integer_is_exact(n: nat)
    requires
        0 < n < TWO_52,
    ensures
        nearest(n, 1).1 < 0,
        nearest(n, 1).0 == n * pow2((-nearest(n, 1).1) as nat),
{
    nearest_is_the_rounded_scaled_fraction(n, 1);
    let (m, e) = nearest(n, 1);
    if e == 0 {
        lemma2_to64();
        assert(false);
    }
}

/// Of credits up to some trillions, the percentage left is within half a point of
/// the true one.
pub proof fn credits_are_rounded_to_the_nearest_percent(quota: Quota)
    requires
        quota.daily_quota_remaining_percent is None,
        quota.weekly_quota_remaining_percent is None,
        quota.used_quota is Some,
        quota.total_quota is Some,
        quota.total_quota->0 > 0,
        0 <= quota.used_quota->0 <= quota.total_quota->0 <= 0x1000_0000_0000,
    ensures
        ({
            let used = quota.used_quota->0;
            let total = quota.total_quota->0;
            let gone = 100 - quota.remaining_percent();
            -total <= 2 * (total * gone - 100 * used) <= total
        }),
{
    let used = quota.used_quota->0;
    let total = quota.total_quota->0;
    if used == 0 {
        lemma_usage_of_nothing(total as nat);
        assert(quota.remaining_percent() == 100);
        assert(total * 0 == 0) by (nonlinear_arith);
    } else {
        lemma_usage_is_near(used as nat, total as nat);
        let r = usage_magnitude(used as nat, total as nat);
        assert(r <= 100) by (nonlinear_arith)
            requires
                2 * (r * total - 100 * used) <= total,
                used <= total,
                total > 0,
        ;
        assert(quota.remaining_percent() == 100 - r);
        let gone = 100 - quota.remaining_percent();
        assert(total * gone == r * total) by (nonlinear_arith)
            requires
                gone == r,
        ;
    }
}

/// Nothing used is zero percent.
pub proof fn lemma_usage_of_nothing(total: nat)
    ensures
        usage_magnitude(0, total) == 0,
{
    let (_, et) = nearest(total, 1);
    half_up_of_zero(-et);
    assert(nearest(0, 1) == (0nat, 0int));
    assert(usage_magnitude(0, total) == half_up(0, -et));
}

/// Percentages go before credits: where one is known, credits change nothing.
pub proof fn credits_do_not_matter_beside_percentages(a: Quota, b: Quota)
    requires
        a.daily_quota_remaining_percent == b.daily_quota_remaining_percent,
        a.weekly_quota_remaining_percent == b.weekly_quota_remaining_percent,
        a.daily_quota_remaining_percent is Some || a.weekly_quota_remaining_percent is Some,
    ensures
        a.remaining_percent() == b.remaining_percent(),
        a.measurable(),
{
}

/// An account that is taken is another one than the current one, is not barred,
/// has a token, was not ruled out, and has more left than the floor.
pub proof fn taken_account_is_fit(c: Criteria, all: Seq<Account>, i: int)
    requires
        c.takes(all, i),
    ensures
        all[i].id != c.current.id,
        !all[i].barred(),
        all[i].has_token(),
        !c.excluded.contains(all[i].id),
        0 < all[i].quota.remaining_percent() <= 100,
        all[i].quota.remaining_percent() > c.min_remaining_percent,
{
}

/// An account of whose quota nothing is known is never taken.
pub proof fn account_without_data_is_not_taken(c: Criteria, all: Seq<Account>, i: int)
    requires
        c.takes(all, i),
    ensures
        all[i].quota.remaining_percent() != -1,
{
}

/// Under `round_robin` nothing in the pool was used longer ago than the account
/// that is taken.
pub proof fn round_robin_takes_the_oldest(c: Criteria, all: Seq<Account>, i: int, j: int)
    requires
        c.strategy == ROUND_ROBIN@,
        c.takes(all, i),
        0 <= j < all.len(),
        c.in_pool(all, all[j]),
    ensures
        !older(all[j].last_login_at, all[i].last_login_at),
        all[j].last_login_at is None ==> all[i].last_login_at is None,
{
}

/// Under every other strategy nothing in the pool has more left than the account
/// that is taken.
pub proof fn default_takes_the_richest(c: Criteria, all: Seq<Account>, i: int, j: int)
    requires
        c.strategy != ROUND_ROBIN@,
        c.takes(all, i),
        0 <= j < all.len(),
        c.in_pool(all, all[j]),
    ensures
        all[j].quota.remaining_percent() <= all[i].quota.remaining_percent(),
{
}

/// Where the same provider is preferred, an account of another one is taken only
/// if no account of the same one is eligible.
pub proof fn same_provider_comes_first(c: Criteria, all: Seq<Account>, i: int, j: int)
    requires
        c.prefer_same_provider,
        c.takes(all, i),
        all[i].is_devin != c.current.is_devin,
        0 <= j < all.len(),
        all[j].is_devin == c.current.is_devin,
    ensures
        !c.eligible(all[j]),
{
    if c.eligible(all[j]) {
        assert(c.related(all[j]));
    }
}

/// The pool holds every eligible account where the provider does not matter.
pub proof fn pool_is_all_eligible(c: Criteria, all: Seq<Account>, acc: Account)
    requires
        !c.prefer_same_provider,
    ensures
        c.in_pool(all, acc) <==> c.eligible(acc),
{
}

/// No two accounts can be the one to take.
pub proof fn taken_account_is_unique(c: Criteria, all: Seq<Account>, i: int, j: int)
    requires
        c.takes(all, i),
        c.takes(all, j),
    ensures
        i == j,
{
}

/// The best of the pool among the first `n` accounts.
proof fn lemma_best_of_first(c: Criteria, all: Seq<Account>, n: int) -> (b: int)
    requires
        0 <= n <= all.len(),
        exists|j: int| 0 <= j < n && c.in_pool(all, #[trigger] all[j]),
    ensures
        0 <= b < n,
        c.in_pool(all, all[b]),
        forall|j: int|
            0 <= j < n && c.in_pool(all, #[trigger] all[j]) ==> !preferred(
                all[j],
                all[b],
                c.strategy,
            ),
        forall|j: int|
            0 <= j < b && c.in_pool(all, #[trigger] all[j]) ==> preferred(
                all[b],
                all[j],
                c.strategy,
            ),
    decreases n,
{
    let last = n - 1;
    if exists|j: int| 0 <= j < last && c.in_pool(all, #[trigger] all[j]) {
        let b = lemma_best_of_first(c, all, last);
        if c.in_pool(all, all[last]) && preferred(all[last], all[b], c.strategy) {
            last
        } else {
            b
        }
    } else {
        last
    }
}

/// Some account is taken exactly if one is eligible.
pub proof fn one_is_taken_if_any_is_eligible(c: Criteria, all: Seq<Account>)
    ensures
        (exists|i: int| c.takes(all, i)) <==> !c.takes_none(all),
{
    if !c.takes_none(all) {
        let j = choose|j: int| 0 <= j < all.len() && c.eligible(#[trigger] all[j]);
        if c.prefer_same_provider && exists|k: int|
            0 <= k < all.len() && c.related(#[trigger] all[k]) {
            let k = choose|k: int| 0 <= k < all.len() && c.related(#[trigger] all[k]);
            assert(c.in_pool(all, all[k]));
        } else {
            assert(c.in_pool(all, all[j]));
        }
        let b = lemma_best_of_first(c, all, all.len() as int);
        assert(c.takes(all, b));
    }
    if exists|i: int| c.takes(all, i) {
        let i = choose|i: int| c.takes(all, i);
        assert(c.eligible(all[i]));
    }
}

/// Ruling more accounts out makes none eligible.
pub proof fn exclusion_only_narrows(c: Criteria, d: Criteria, acc: Account)
    requires
        d == (Criteria { excluded: d.excluded, ..c }),
        c.excluded.subset_of(d.excluded),
        d.eligible(acc),
    ensures
        c.eligible(acc),
{
}

/// Every account that can be taken from a list is among those of that list that are
/// worth refreshing.
pub proof fn refresh_covers_what_can_be_taken(c: Criteria, all: Seq<Account>, i: int)
    requires
        c.takes(all, i),
    ensures
        usable_of(all, c.current.id).contains(all[i]),
{
    let wanted = |acc: Account| usable(acc, c.current.id);
    assert(wanted(all[i]));
    all.lemma_filter_contains(wanted, i);
}

/// The signed-in account is found by its address in any mixture of upper and lower
/// case, and always at the same place.
pub proof fn address_is_found_in_any_case(
    accounts: Seq<Account>,
    a: Seq<char>,
    b: Seq<char>,
    i: int,
    j: int,
)
    requires
        lowercase(a) == lowercase(b),
        first_with(accounts, a, i),
    ensures
        !none_with(accounts, b),
        first_with(accounts, b, j) ==> i == j,
{
    assert(lowercase(accounts[i].email@) == lowercase(b));
}

} // verus!
