//! Which accounts come into question as a replacement, and which one is taken.
use crate::account::{account_remaining_percent, Account, Instant};
use std::collections::HashSet;
use vstd::prelude::*;

verus! {

broadcast use vstd::std_specs::hash::group_hash_axioms;

/// The strategy that takes the account that was used longest ago. Every other
/// name stands for the account with the most quota left.
pub const ROUND_ROBIN: &'static str = "round_robin";

/// Whether `remaining` percent are enough to switch to, where `floor` percent are
/// not. A floor of zero or less asks only that something is left.
pub open spec fn enough(remaining: int, floor: int) -> bool {
    if floor > 0 {
        remaining > floor
    } else {
        remaining > 0
    }
}

/// Tells whether `remaining` percent are enough to switch to.
pub fn is_enough(remaining: i32, floor: i32) -> (r: bool)
    ensures
        r == enough(remaining as int, floor as int),
{
    if floor > 0 {
        remaining > floor
    } else {
        remaining > 0
    }
}

/// Whether `acc` is usable in place of the account `current_id`: another account,
/// not barred, with a token.
pub open spec fn usable(acc: Account, current_id: u128) -> bool {
    &&& acc.id != current_id
    &&& !acc.barred()
    &&& acc.has_token()
}

/// Those of `all` that are usable in place of the account `current_id`, in their
/// order.
pub open spec fn usable_of(all: Seq<Account>, current_id: u128) -> Seq<Account> {
    all.filter(|acc: Account| usable(acc, current_id))
}

/// Whether `acc` is usable and was not ruled out before.
pub open spec fn admissible(acc: Account, current_id: u128, excluded: Set<u128>) -> bool {
    usable(acc, current_id) && !excluded.contains(acc.id)
}

/// Whether `acc` may be switched to: it is admissible, and as far as is known
/// enough of its quota is left.
pub open spec fn eligible(
    acc: Account,
    current_id: u128,
    min_remaining_percent: int,
    excluded: Set<u128>,
) -> bool {
    &&& admissible(acc, current_id, excluded)
    &&& acc.quota.remaining_percent() >= 0
    &&& enough(acc.quota.remaining_percent(), min_remaining_percent)
}

/// Whether `a` lies before `b`.
pub open spec fn before(a: Instant, b: Instant) -> bool {
    a.secs < b.secs || (a.secs == b.secs && a.nanos < b.nanos)
}

/// Whether a login at `a` is older than one at `b`; never is older than any.
pub open spec fn older(a: Option<Instant>, b: Option<Instant>) -> bool {
    match (a, b) {
        (Some(la), Some(lb)) => before(la, lb),
        (None, Some(_)) => true,
        _ => false,
    }
}

/// Whether `a` is to be taken before `b` under the given strategy.
pub open spec fn preferred(a: Account, b: Account, strategy: Seq<char>) -> bool {
    if strategy == ROUND_ROBIN@ {
        older(a.last_login_at, b.last_login_at)
    } else {
        a.quota.remaining_percent() > b.quota.remaining_percent()
    }
}

/// What a choice among accounts goes by.
pub ghost struct Criteria {
    pub current: Account,
    pub prefer_same_provider: bool,
    pub strategy: Seq<char>,
    pub min_remaining_percent: int,
    pub excluded: Set<u128>,
}

impl Criteria {
    pub open spec fn eligible(self, acc: Account) -> bool {
        eligible(acc, self.current.id, self.min_remaining_percent, self.excluded)
    }

    /// Whether `acc` is eligible and signs in as the current account does.
    pub open spec fn related(self, acc: Account) -> bool {
        self.eligible(acc) && acc.is_devin == self.current.is_devin
    }

    /// Whether `acc` is in the pool that the choice is made from: the related
    /// accounts where these are preferred and there are any, else all eligible ones.
    pub open spec fn in_pool(self, all: Seq<Account>, acc: Account) -> bool {
        if self.prefer_same_provider && (exists|j: int|
            0 <= j < all.len() && self.related(#[trigger] all[j])) {
            self.related(acc)
        } else {
            self.eligible(acc)
        }
    }

    /// Whether the account at `i` is the one to take: no other in the pool is
    /// preferred to it, and it comes before all that are its equals.
    pub open spec fn takes(self, all: Seq<Account>, i: int) -> bool {
        &&& 0 <= i < all.len()
        &&& self.in_pool(all, all[i])
        &&& forall|j: int|
            0 <= j < all.len() && self.in_pool(all, #[trigger] all[j]) ==> !preferred(
                all[j],
                all[i],
                self.strategy,
            )
        &&& forall|j: int|
            0 <= j < i && self.in_pool(all, #[trigger] all[j]) ==> preferred(
                all[i],
                all[j],
                self.strategy,
            )
    }

    /// Whether no account can be taken.
    pub open spec fn takes_none(self, all: Seq<Account>) -> bool {
        forall|j: int| 0 <= j < all.len() ==> !self.eligible(#[trigger] all[j])
    }
}

fn is_older(a: Option<Instant>, b: Option<Instant>) -> (r: bool)
    ensures
        r == older(a, b),
{
    match (a, b) {
        (Some(la), Some(lb)) => la.secs < lb.secs || (la.secs == lb.secs && la.nanos < lb.nanos),
        (None, Some(_)) => true,
        _ => false,
    }
}

/// Tells whether `acc` is usable in place of the account `current_id`.
pub fn is_usable(acc: &Account, current_id: u128) -> (r: bool)
    ensures
        r == usable(*acc, current_id),
{
    acc.id != current_id && !acc.is_barred() && acc.holds_token()
}

/// Tells whether `acc` may be switched to.
pub fn is_eligible(
    acc: &Account,
    current_id: u128,
    min_remaining_percent: i32,
    excluded_ids: &HashSet<u128>,
) -> (r: bool)
    requires
        admissible(*acc, current_id, excluded_ids@) ==> acc.quota.measurable(),
    ensures
        r == eligible(*acc, current_id, min_remaining_percent as int, excluded_ids@),
{
    if !is_usable(acc, current_id) || excluded_ids.contains(&acc.id) {
        return false;
    }
    let remaining: i32 = account_remaining_percent(acc);
    remaining >= 0 && is_enough(remaining, min_remaining_percent)
}

fn is_preferred(a: &Account, b: &Account, by_age: bool, strategy: Ghost<Seq<char>>) -> (r: bool)
    requires
        by_age == (strategy@ == ROUND_ROBIN@),
        a.quota.measurable(),
        b.quota.measurable(),
    ensures
        r == preferred(*a, *b, strategy@),
{
    if by_age {
        is_older(a.last_login_at, b.last_login_at)
    } else {
        account_remaining_percent(a) > account_remaining_percent(b)
    }
}

/// Whether `acc` is eligible and, where `same_provider_only`, related.
spec fn in_narrow_pool(c: Criteria, same_provider_only: bool, acc: Account) -> bool {
    c.eligible(acc) && (same_provider_only ==> acc.is_devin == c.current.is_devin)
}

/// The first of the best accounts that are eligible and, where
/// `same_provider_only`, related.
fn best_of(
    all_accounts: &[Account],
    current: &Account,
    same_provider_only: bool,
    by_age: bool,
    min_remaining_percent: i32,
    excluded_ids: &HashSet<u128>,
    c: Ghost<Criteria>,
) -> (r: Option<usize>)
    requires
        forall|i: int|
            0 <= i < all_accounts@.len() && admissible(
                #[trigger] all_accounts@[i],
                current.id,
                excluded_ids@,
            ) ==> all_accounts@[i].quota.measurable(),
        by_age == (c@.strategy == ROUND_ROBIN@),
        c@.current == *current,
        c@.min_remaining_percent == min_remaining_percent,
        c@.excluded == excluded_ids@,
    ensures
        match r {
            Some(b) => {
                &&& b < all_accounts@.len()
                &&& in_narrow_pool(c@, same_provider_only, all_accounts@[b as int])
                &&& forall|j: int|
                    0 <= j < all_accounts@.len() && in_narrow_pool(
                        c@,
                        same_provider_only,
                        #[trigger] all_accounts@[j],
                    ) ==> !preferred(all_accounts@[j], all_accounts@[b as int], c@.strategy)
                &&& forall|j: int|
                    0 <= j < b && in_narrow_pool(
                        c@,
                        same_provider_only,
                        #[trigger] all_accounts@[j],
                    ) ==> preferred(all_accounts@[b as int], all_accounts@[j], c@.strategy)
            },
            None => forall|j: int|
                0 <= j < all_accounts@.len() ==> !in_narrow_pool(
                    c@,
                    same_provider_only,
                    #[trigger] all_accounts@[j],
                ),
        },
{
    let mut best: Option<usize> = None;
    let mut i: usize = 0;
    while i < all_accounts.len()
        invariant
            i <= all_accounts@.len(),
            forall|i: int|
                0 <= i < all_accounts@.len() && admissible(
                    #[trigger] all_accounts@[i],
                    current.id,
                    excluded_ids@,
                ) ==> all_accounts@[i].quota.measurable(),
            by_age == (c@.strategy == ROUND_ROBIN@),
            c@.current == *current,
            c@.min_remaining_percent == min_remaining_percent,
            c@.excluded == excluded_ids@,
            match best {
                Some(b) => {
                    &&& b < i
                    &&& in_narrow_pool(c@, same_provider_only, all_accounts@[b as int])
                    &&& forall|j: int|
                        0 <= j < i && in_narrow_pool(
                            c@,
                            same_provider_only,
                            #[trigger] all_accounts@[j],
                        ) ==> !preferred(all_accounts@[j], all_accounts@[b as int], c@.strategy)
                    &&& forall|j: int|
                        0 <= j < b && in_narrow_pool(
                            c@,
                            same_provider_only,
                            #[trigger] all_accounts@[j],
                        ) ==> preferred(all_accounts@[b as int], all_accounts@[j], c@.strategy)
                },
                None => forall|j: int|
                    0 <= j < i ==> !in_narrow_pool(
                        c@,
                        same_provider_only,
                        #[trigger] all_accounts@[j],
                    ),
            },
        decreases all_accounts@.len() - i,
    {
        let acc: &Account = &all_accounts[i];
        if is_eligible(acc, current.id, min_remaining_percent, excluded_ids) && (
        !same_provider_only || acc.is_devin == current.is_devin) {
            match best {
                Some(b) => {
                    if is_preferred(acc, &all_accounts[b], by_age, Ghost(c@.strategy)) {
                        best = Some(i);
                    }
                },
                None => {
                    best = Some(i);
                },
            }
        }
        i = i + 1;
    }
    best
}

/// Picks the account to switch to from `all_accounts`: never the current one, a
/// barred one, one without a token, one of `excluded_ids`, or one without enough
/// quota left.
///
/// The strategy `round_robin` takes the account whose last login is oldest, every
/// other one that with the most quota left; of equals, the first. With
/// `prefer_same_provider` an account that signs in as the current one does goes
/// before all that do not.
pub fn pick_next_account(
    all_accounts: &[Account],
    current: &Account,
    prefer_same_provider: bool,
    strategy: &str,
    min_remaining_percent: i32,
    excluded_ids: &HashSet<u128>,
) -> (r: Option<Account>)
    requires
        forall|i: int|
            0 <= i < all_accounts@.len() && admissible(
                #[trigger] all_accounts@[i],
                current.id,
                excluded_ids@,
            ) ==> all_accounts@[i].quota.measurable(),
    ensures
        ({
            let c = (Criteria {
                current: *current,
                prefer_same_provider,
                strategy: strategy@,
                min_remaining_percent: min_remaining_percent as int,
                excluded: excluded_ids@,
            });
            match r {
                Some(acc) => exists|i: int|
                    #[trigger] c.takes(all_accounts@, i) && acc == all_accounts@[i],
                None => c.takes_none(all_accounts@),
            }
        }),
{
    let ghost c = Criteria {
        current: *current,
        prefer_same_provider,
        strategy: strategy@,
        min_remaining_percent: min_remaining_percent as int,
        excluded: excluded_ids@,
    };
    let by_age: bool = strategy.to_owned() == ROUND_ROBIN.to_owned();
    let first: Option<usize> = best_of(
        all_accounts,
        current,
        prefer_same_provider,
        by_age,
        min_remaining_percent,
        excluded_ids,
        Ghost(c),
    );
    if let Some(b) = first {
        proof {
            if prefer_same_provider {
                assert(c.related(all_accounts@[b as int]));
            }
            assert forall|j: int|
                0 <= j < all_accounts@.len() && c.in_pool(
                    all_accounts@,
                    #[trigger] all_accounts@[j],
                ) implies in_narrow_pool(c, prefer_same_provider, all_accounts@[j]) by {}
            assert(c.takes(all_accounts@, b as int));
        }
        return Some(all_accounts[b].clone());
    }
    if prefer_same_provider {
        let second: Option<usize> = best_of(
            all_accounts,
            current,
            false,
            by_age,
            min_remaining_percent,
            excluded_ids,
            Ghost(c),
        );
        assert forall|j: int| 0 <= j < all_accounts@.len() implies !c.related(
            #[trigger] all_accounts@[j],
        ) by {
            assert(!in_narrow_pool(c, true, all_accounts@[j]));
        }
        return match second {
            Some(b) => {
                proof {
                    assert(c.takes(all_accounts@, b as int)) by {
                        assert forall|j: int|
                            0 <= j < all_accounts@.len() && c.in_pool(
                                all_accounts@,
                                #[trigger] all_accounts@[j],
                            ) implies in_narrow_pool(c, false, all_accounts@[j]) by {}
                    }
                }
                Some(all_accounts[b].clone())
            },
            None => {
                assert forall|j: int| 0 <= j < all_accounts@.len() implies !c.eligible(
                    #[trigger] all_accounts@[j],
                ) by {
                    assert(!in_narrow_pool(c, false, all_accounts@[j]));
                }
                None
            },
        };
    }
    assert forall|j: int| 0 <= j < all_accounts@.len() implies !c.eligible(
        #[trigger] all_accounts@[j],
    ) by {
        assert(!in_narrow_pool(c, false, all_accounts@[j]));
    }
    None
}

/// The accounts whose quota is worth asking for before one is picked: all that are
/// usable in place of `current`, in their order.
pub fn candidates_to_refresh(all_accounts: &[Account], current: &Account) -> (r: Vec<Account>)
    ensures
        r@ == usable_of(all_accounts@, current.id),
{
    let ghost wanted = |acc: Account| usable(acc, current.id);
    let mut found: Vec<Account> = Vec::new();
    let mut i: usize = 0;
    assert(all_accounts@.take(0).filter(wanted) =~= Seq::<Account>::empty()) by {
        reveal(Seq::filter);
    }
    while i < all_accounts.len()
        invariant
            i <= all_accounts@.len(),
            wanted == (|acc: Account| usable(acc, current.id)),
            found@ == all_accounts@.take(i as int).filter(wanted),
        decreases all_accounts@.len() - i,
    {
        proof {
            reveal(Seq::filter);
            assert(all_accounts@.take(i + 1).drop_last() =~= all_accounts@.take(i as int));
        }
        if is_usable(&all_accounts[i], current.id) {
            found.push(all_accounts[i].clone());
        }
        i = i + 1;
    }
    assert(all_accounts@.take(i as int) =~= all_accounts@);
    found
}

} // verus!
