//! What a check promises, stated on the answers that it gets and the actions that it
//! asks for.
use crate::account::Account;
use crate::flow::{
    Action, Event, Policy, Search, Settings, Stage, MAX_VERIFY_RETRIES,
    REFRESH_CONCURRENCY, REFRESH_TIMEOUT_SECS,
};
use crate::meaning::{
    a_serving_account_is_not_overlooked, other_strategies_go_by_the_quota,
    preferred_provider_is_kept, round_robin_goes_by_the_last_login, taken_account_serves,
};
use crate::outside::{hyphenated, json_bool, json_members, json_text, lowercase};
use crate::report::Form;
use crate::runs::{
    every_switch_is_justified, knowledge_comes_from_answers, run_keeps_order, tried,
    tried_are_counted, Run,
};
use crate::step::transition;
use crate::text::{failure_log, still_serves, success_log};
use vstd::prelude::*;

verus! {

/// Five candidates are asked at a time, each has eight seconds, and five may fail.
pub proof fn limits_are_kept()
    ensures
        REFRESH_CONCURRENCY == 5,
        REFRESH_TIMEOUT_SECS == 8,
        MAX_VERIFY_RETRIES == 5,
{
}

/// With a positive floor, an account whose usage has reached the threshold is
/// exhausted exactly if no more than that floor is left, whatever the floor; without
/// one the usage alone decides. Below the threshold no account is exhausted.
pub proof fn both_thresholds_decide(policy: Policy, usage: int, remaining: int)
    requires
        policy.remaining_threshold >= 0,
    ensures
        usage < policy.threshold_percent ==> !policy.exhausted(usage, remaining),
        usage >= policy.threshold_percent && policy.remaining_threshold > 0 ==> (
        policy.exhausted(usage, remaining) <==> remaining <= policy.remaining_threshold),
        usage >= policy.threshold_percent && policy.remaining_threshold == 0
            ==> policy.exhausted(usage, remaining),
{
}

/// An account that is worse off in both respects than an exhausted one is exhausted.
pub proof fn exhaustion_is_monotone(
    policy: Policy,
    usage: int,
    remaining: int,
    more: int,
    less: int,
)
    requires
        policy.exhausted(usage, remaining),
        more >= usage,
        less <= remaining,
    ensures
        policy.exhausted(more, less),
{
}

/// A policy takes settings within their bounds as they are, and others at the bound.
pub proof fn policy_is_what_was_set(policy: Policy, settings: Settings)
    requires
        policy.follows(settings),
    ensures
        1 <= settings.auto_switch_threshold_percent <= 100 ==> policy.threshold_percent
            == settings.auto_switch_threshold_percent,
        settings.auto_switch_threshold_percent <= 1 ==> policy.threshold_percent == 1,
        settings.auto_switch_threshold_percent >= 100 ==> policy.threshold_percent == 100,
        settings.auto_switch_remaining_threshold >= 0 ==> policy.remaining_threshold
            == settings.auto_switch_remaining_threshold,
        settings.auto_switch_remaining_threshold <= 0 ==> policy.remaining_threshold == 0,
        policy.strategy@ == settings.auto_switch_strategy@,
        policy.prefer_same_provider == settings.auto_switch_prefer_same_provider,
{
}

/// On the quota of the current account a check ends exactly if the account still
/// serves by the user's settings: its usage is below the set threshold, or more than
/// the set floor is left.
pub proof fn settings_decide_whether_to_switch(
    run: Run,
    settings: Settings,
    usage: i32,
    remaining: i32,
)
    requires
        run.valid(),
        run.events.len() > 4,
        run.events[0] == Event::Settings(Ok(settings)),
        run.events[4] == Event::Quota(Ok((usage, remaining))),
    ensures
        ({
            let t = settings.auto_switch_threshold_percent;
            let f = settings.auto_switch_remaining_threshold;
            &&& 1 <= t <= 100 && f > 0 ==> (run.actions[4] is Finish <==> usage < t || remaining
                > f)
            &&& 1 <= t <= 100 && f <= 0 ==> (run.actions[4] is Finish <==> usage < t)
            &&& t < 1 && f > 0 ==> (run.actions[4] is Finish <==> usage < 1 || remaining > f)
            &&& t < 1 && f <= 0 ==> (run.actions[4] is Finish <==> usage < 1)
            &&& t > 100 && f > 0 ==> (run.actions[4] is Finish <==> usage < 100 || remaining > f)
            &&& t > 100 && f <= 0 ==> (run.actions[4] is Finish <==> usage < 100)
        }),
        !(run.actions[4] is Finish) ==> run.actions[4] is Refresh || run.actions[4]
            is LoadAccounts,
        !(run.actions[4] is Fail),
{
    knowledge_comes_from_answers(run, 4);
    let event = run.events[4];
    assert(run.stages[4].accepts(event));
    assert(transition(run.stages[4], event, run.stages[5], run.actions[4]));
}

/// Answers that are as they should be lead on to the next question.
pub proof fn good_answers_lead_on(stage: Stage, event: Event, next: Stage, action: Action)
    requires
        transition(stage, event, next, action),
    ensures
        match event {
            Event::Settings(Ok(settings)) => settings.auto_switch_enabled <==> action
                is DetectEmail,
            Event::Email(Ok(Some(email))) => email@.len() > 0 <==> action is LoadAccounts,
            Event::Token(Ok(token)) => if stage is AwaitToken {
                token@.len() > 0 <==> action is QueryQuota
            } else {
                action is QueryCandidate
            },
            Event::Refreshed => action is LoadAccounts,
            _ => true,
        },
{
}

/// The current account is the first of the accounts with the signed-in address, upper
/// and lower case being the same; where there is one, its token is asked for.
pub proof fn current_account_has_the_address(
    stage: Stage,
    event: Event,
    next: Stage,
    action: Action,
    j: int,
)
    requires
        transition(stage, event, next, action),
        stage is AwaitAccounts,
        event matches Event::Accounts(Ok(accounts)) && 0 <= j < accounts@.len() && lowercase(
            accounts@[j].email@,
        ) == lowercase(stage->AwaitAccounts_1@),
    ensures
        next is AwaitToken,
        action == Action::Authorize(next->AwaitToken_0.current),
        lowercase(next->AwaitToken_0.current.email@) == lowercase(stage->AwaitAccounts_1@),
        ({
            let accounts = event->Accounts_0->Ok_0@;
            exists|i: int| 0 <= i <= j && #[trigger] accounts[i] == next->AwaitToken_0.current
        }),
{
    let accounts = event->Accounts_0->Ok_0@;
    let email = stage->AwaitAccounts_1@;
    let current = next->AwaitToken_0.current;
    let i = choose|i: int| #[trigger]
        crate::identity::first_with(accounts, email, i) && current == accounts[i];
    assert(accounts[i] == current);
}

/// On a candidate's live quota a switch to that candidate is asked for exactly if
/// something is left, and more than the floor. The target keeps all that is known of
/// it but its quota.
pub proof fn live_quota_decides(stage: Stage, event: Event, next: Stage, action: Action)
    requires
        transition(stage, event, next, action),
        stage is AwaitCandidateQuota,
        stage->AwaitCandidateQuota_0.case.policy.remaining_threshold >= 0,
    ensures
        ({
            let case = stage->AwaitCandidateQuota_0.case;
            let candidate = stage->AwaitCandidateQuota_1;
            match event->CandidateQuota_0 {
                Ok((quota, remaining)) => {
                    &&& action is Switch <==> remaining > 0 && remaining
                        > case.policy.remaining_threshold
                    &&& action is Switch ==> {
                        &&& action->Switch_0@ == hyphenated(candidate.id)
                        &&& next is AwaitSwitch
                        &&& next->AwaitSwitch_0 == case
                        &&& next->AwaitSwitch_1.id == candidate.id
                        &&& next->AwaitSwitch_1.email == candidate.email
                        &&& next->AwaitSwitch_1.quota == quota
                    }
                },
                Err(_) => !(action is Switch),
            }
        }),
{
}

/// Whether `acc` serves as a replacement for `current`, by its fields.
pub open spec fn serves(acc: Account, current: Account, tried: Set<u128>, floor: i32) -> bool {
    &&& acc.id != current.id
    &&& acc.is_disabled != Some(true)
    &&& (acc.token is Some && acc.token->0@.len() > 0) || (acc.refresh_token is Some
        && acc.refresh_token->0@.len() > 0)
    &&& !tried.contains(acc.id)
    &&& acc.quota.remaining_percent() > 0
    &&& acc.quota.remaining_percent() > floor
}

/// What is known of a search from the settings.
proof fn lemma_search_settings(run: Run, settings: Settings, search: Search, i: int)
    requires
        run.valid(),
        0 <= i < run.stages.len(),
        run.events[0] == Event::Settings(Ok(settings)),
        run.stages[i] is AwaitCandidateToken && run.stages[i]->AwaitCandidateToken_0 == search
            || run.stages[i] is AwaitCandidateQuota && run.stages[i]->AwaitCandidateQuota_0
            == search,
    ensures
        ({
            let c = search.case.criteria(search.excluded@);
            let f = settings.auto_switch_remaining_threshold;
            &&& settings.auto_switch_enabled
            &&& c.current == search.case.current
            &&& c.excluded == search.excluded@
            &&& c.strategy == settings.auto_switch_strategy@
            &&& c.prefer_same_provider == settings.auto_switch_prefer_same_provider
            &&& c.min_remaining_percent == if f < 0 {
                0
            } else {
                f as int
            }
        }),
{
    knowledge_comes_from_answers(run, i);
    policy_is_what_was_set(search.case.policy, settings);
}

/// Where the user prefers the same provider, a candidate of the other one is tried
/// only if no account of the current one's provider serves.
pub proof fn set_preference_for_the_provider_is_heeded(
    run: Run,
    settings: Settings,
    i: int,
    j: int,
)
    requires
        run.valid(),
        0 <= i < run.stages.len(),
        run.events[0] == Event::Settings(Ok(settings)),
        settings.auto_switch_prefer_same_provider,
        run.stages[i] is AwaitCandidateToken,
        ({
            let search = run.stages[i]->AwaitCandidateToken_0;
            let acc = search.accounts@[j];
            let current = search.case.current;
            &&& 0 <= j < search.accounts@.len()
            &&& acc.id != current.id
            &&& acc.is_disabled != Some(true)
            &&& (acc.token is Some && acc.token->0@.len() > 0) || (acc.refresh_token is Some
                && acc.refresh_token->0@.len() > 0)
            &&& !search.excluded@.contains(acc.id)
            &&& acc.quota.remaining_percent() > 0
            &&& acc.quota.remaining_percent() > settings.auto_switch_remaining_threshold
            &&& acc.is_devin == current.is_devin
        }),
    ensures
        run.stages[i]->AwaitCandidateToken_1.is_devin
            == run.stages[i]->AwaitCandidateToken_0.case.current.is_devin,
{
    let search = run.stages[i]->AwaitCandidateToken_0;
    let candidate = run.stages[i]->AwaitCandidateToken_1;
    run_keeps_order(run, i);
    lemma_search_settings(run, settings, search, i);
    let c = search.case.criteria(search.excluded@);
    let k = choose|k: int| #[trigger]
        c.takes(search.accounts@, k) && candidate == search.accounts@[k];
    preferred_provider_is_kept(c, search.accounts@, k, j);
}

/// Where the user prefers the same provider, a switch to an account of the other one
/// is asked for only if no account of the current one's provider serves.
pub proof fn set_preference_holds_for_the_switch(run: Run, settings: Settings, i: int, j: int)
    requires
        run.valid(),
        0 <= i < run.actions.len(),
        run.actions[i] is Switch,
        run.events[0] == Event::Settings(Ok(settings)),
        settings.auto_switch_prefer_same_provider,
        ({
            let search = run.stages[i]->AwaitCandidateQuota_0;
            let acc = search.accounts@[j];
            let current = search.case.current;
            &&& 0 <= j < search.accounts@.len()
            &&& acc.id != current.id
            &&& acc.is_disabled != Some(true)
            &&& (acc.token is Some && acc.token->0@.len() > 0) || (acc.refresh_token is Some
                && acc.refresh_token->0@.len() > 0)
            &&& !search.excluded@.contains(acc.id)
            &&& acc.quota.remaining_percent() > 0
            &&& acc.quota.remaining_percent() > settings.auto_switch_remaining_threshold
            &&& acc.is_devin == current.is_devin
        }),
    ensures
        run.stages[i]->AwaitCandidateQuota_1.is_devin
            == run.stages[i]->AwaitCandidateQuota_0.case.current.is_devin,
{
    every_switch_is_justified(run, i);
    let search = run.stages[i]->AwaitCandidateQuota_0;
    let candidate = run.stages[i]->AwaitCandidateQuota_1;
    lemma_search_settings(run, settings, search, i);
    let c = search.case.criteria(search.excluded@);
    let k = choose|k: int| #[trigger]
        c.takes(search.accounts@, k) && candidate == search.accounts@[k];
    preferred_provider_is_kept(c, search.accounts@, k, j);
}

/// No account that serves goes before the target of a switch by the strategy that the
/// user has set: under `round_robin` none has an older last login, under every other
/// one none has more left. Where the same provider is preferred, this is said of the
/// accounts of the target's provider.
pub proof fn set_strategy_is_followed(run: Run, settings: Settings, i: int, j: int)
    requires
        run.valid(),
        0 <= i < run.actions.len(),
        run.actions[i] is Switch,
        run.events[0] == Event::Settings(Ok(settings)),
        ({
            let search = run.stages[i]->AwaitCandidateQuota_0;
            let acc = search.accounts@[j];
            let current = search.case.current;
            &&& 0 <= j < search.accounts@.len()
            &&& acc.id != current.id
            &&& acc.is_disabled != Some(true)
            &&& (acc.token is Some && acc.token->0@.len() > 0) || (acc.refresh_token is Some
                && acc.refresh_token->0@.len() > 0)
            &&& !search.excluded@.contains(acc.id)
            &&& acc.quota.remaining_percent() > 0
            &&& acc.quota.remaining_percent() > settings.auto_switch_remaining_threshold
            &&& settings.auto_switch_prefer_same_provider ==> acc.is_devin
                == run.stages[i]->AwaitCandidateQuota_1.is_devin
        }),
    ensures
        ({
            let acc = run.stages[i]->AwaitCandidateQuota_0.accounts@[j];
            let target = run.stages[i]->AwaitCandidateQuota_1;
            if settings.auto_switch_strategy@ == "round_robin"@ {
                match (target.last_login_at, acc.last_login_at) {
                    (Some(a), Some(b)) => a.secs < b.secs || (a.secs == b.secs && a.nanos
                        <= b.nanos),
                    (Some(_), None) => false,
                    _ => true,
                }
            } else {
                acc.quota.remaining_percent() <= target.quota.remaining_percent()
            }
        }),
{
    every_switch_is_justified(run, i);
    let search = run.stages[i]->AwaitCandidateQuota_0;
    let candidate = run.stages[i]->AwaitCandidateQuota_1;
    lemma_search_settings(run, settings, search, i);
    let c = search.case.criteria(search.excluded@);
    let k = choose|k: int| #[trigger]
        c.takes(search.accounts@, k) && candidate == search.accounts@[k];
    if c.strategy == "round_robin"@ {
        round_robin_goes_by_the_last_login(c, search.accounts@, k, j);
    } else {
        other_strategies_go_by_the_quota(c, search.accounts@, k, j);
    }
}

/// The target of a switch is another account than the current one, is not marked as
/// disabled, holds a token that is not empty, and by the stored as by the live quota
/// something is left of it, and more than the user has set as the floor. The current
/// account's usage has reached the set threshold, and no more than the set floor is
/// left of it where there is one.
pub proof fn switch_is_as_was_set(run: Run, settings: Settings, i: int)
    requires
        run.valid(),
        0 <= i < run.actions.len(),
        run.actions[i] is Switch,
        run.events[0] == Event::Settings(Ok(settings)),
    ensures
        settings.auto_switch_enabled,
        run.stages[i] is AwaitCandidateQuota,
        ({
            let f = settings.auto_switch_remaining_threshold;
            let target = run.stages[i]->AwaitCandidateQuota_1;
            let current = run.stages[i]->AwaitCandidateQuota_0.case.current;
            &&& run.actions[i]->Switch_0@ == hyphenated(target.id)
            &&& target.id != current.id
            &&& target.is_disabled != Some(true)
            &&& (target.token is Some && target.token->0@.len() > 0) || (target.refresh_token
                is Some && target.refresh_token->0@.len() > 0)
            &&& target.quota.remaining_percent() > 0
            &&& target.quota.remaining_percent() > f
            &&& run.events[i] matches Event::CandidateQuota(Ok((_, live)))
            &&& live > 0
            &&& live > f
        }),
        ({
            let t = settings.auto_switch_threshold_percent;
            let f = settings.auto_switch_remaining_threshold;
            &&& run.events[4] matches Event::Quota(Ok((usage, remaining)))
            &&& usage >= 1
            &&& usage < t ==> t > 100 && usage >= 100
            &&& f > 0 ==> remaining <= f
        }),
        ({
            let current = run.stages[i]->AwaitCandidateQuota_0.case.current;
            &&& run.events[1] matches Event::Email(Ok(Some(email)))
            &&& lowercase(current.email@) == lowercase(email@)
        }),
{
    every_switch_is_justified(run, i);
    let search = run.stages[i]->AwaitCandidateQuota_0;
    let candidate = run.stages[i]->AwaitCandidateQuota_1;
    lemma_search_settings(run, settings, search, i);
    policy_is_what_was_set(search.case.policy, settings);
    let c = search.case.criteria(search.excluded@);
    let k = choose|k: int| #[trigger]
        c.takes(search.accounts@, k) && candidate == search.accounts@[k];
    taken_account_serves(c, search.accounts@, k);
}

/// Only accounts that were tried are ruled out.
pub proof fn only_the_tried_are_ruled_out(run: Run, i: int, id: u128)
    requires
        run.valid(),
        0 <= i < run.stages.len(),
        ({
            ||| run.stages[i] is AwaitCandidateToken
                && run.stages[i]->AwaitCandidateToken_0.excluded@.contains(id)
            ||| run.stages[i] is AwaitCandidateQuota
                && run.stages[i]->AwaitCandidateQuota_0.excluded@.contains(id)
        }),
    ensures
        exists|k: int|
            #![trigger run.stages[k]]
            0 <= k < i && run.stages[k] is AwaitCandidateToken
                && run.stages[k]->AwaitCandidateToken_1.id == id,
    decreases i,
{
    let event = run.events[i - 1];
    assert(run.stages[i - 1].accepts(event));
    assert(transition(run.stages[i - 1], event, run.stages[i], run.actions[i - 1]));
    let before = run.stages[i - 1];
    if before is AwaitCandidateToken {
        if before->AwaitCandidateToken_0.excluded@.contains(id) {
            only_the_tried_are_ruled_out(run, i - 1, id);
        } else {
            assert(run.stages[i - 1]->AwaitCandidateToken_1.id == id);
        }
    } else if before is AwaitCandidateQuota {
        crate::runs::search_follows_the_reload(run, i - 1);
        if before->AwaitCandidateQuota_0.excluded@.contains(id) {
            only_the_tried_are_ruled_out(run, i - 1, id);
        } else {
            assert(run.stages[i - 2] is AwaitCandidateToken);
            assert(run.stages[i - 2]->AwaitCandidateToken_1.id == id);
        }
    }
}

/// Whether a search that ended at the stage `i` had the account `acc` left to try.
spec fn left_over(run: Run, i: int, acc: Account, settings: Settings) -> bool {
    let stage = run.stages[i];
    let case = match stage {
        Stage::AwaitReload(case) => case,
        Stage::AwaitCandidateToken(search, _) => search.case,
        Stage::AwaitCandidateQuota(search, _) => search.case,
        _ => arbitrary(),
    };
    let gone = match stage {
        Stage::AwaitCandidateToken(search, candidate) => search.excluded@.insert(candidate.id),
        Stage::AwaitCandidateQuota(search, candidate) => search.excluded@.insert(candidate.id),
        _ => Set::empty(),
    };
    serves(acc, case.current, gone, settings.auto_switch_remaining_threshold)
}

/// A search is given up only where five candidates were tried, or where no account
/// that was not tried serves.
pub proof fn nothing_is_given_up_early(run: Run, settings: Settings, i: int, j: int)
    requires
        run.valid(),
        0 <= i < run.actions.len(),
        run.actions[i] is Finish,
        run.events[0] == Event::Settings(Ok(settings)),
        tried(run, i) < 5,
    ensures
        match run.stages[i] {
            Stage::AwaitReload(case) => {
                let accounts = run.events[i]->Accounts_0->Ok_0@;
                let acc = accounts[j];
                0 <= j < accounts.len() ==> {
                    ||| acc.id == case.current.id
                    ||| acc.is_disabled == Some(true)
                    ||| (acc.token is None || acc.token->0@.len() == 0) && (acc.refresh_token
                        is None || acc.refresh_token->0@.len() == 0)
                    ||| acc.quota.remaining_percent() <= 0
                    ||| acc.quota.remaining_percent() <= settings.auto_switch_remaining_threshold
                }
            },
            Stage::AwaitCandidateToken(search, candidate) => {
                let acc = search.accounts@[j];
                0 <= j < search.accounts@.len() ==> {
                    ||| acc.id == search.case.current.id
                    ||| acc.id == candidate.id
                    ||| search.excluded@.contains(acc.id)
                    ||| acc.is_disabled == Some(true)
                    ||| (acc.token is None || acc.token->0@.len() == 0) && (acc.refresh_token
                        is None || acc.refresh_token->0@.len() == 0)
                    ||| acc.quota.remaining_percent() <= 0
                    ||| acc.quota.remaining_percent() <= settings.auto_switch_remaining_threshold
                }
            },
            Stage::AwaitCandidateQuota(search, candidate) => {
                let acc = search.accounts@[j];
                0 <= j < search.accounts@.len() ==> {
                    ||| acc.id == search.case.current.id
                    ||| acc.id == candidate.id
                    ||| search.excluded@.contains(acc.id)
                    ||| acc.is_disabled == Some(true)
                    ||| (acc.token is None || acc.token->0@.len() == 0) && (acc.refresh_token
                        is None || acc.refresh_token->0@.len() == 0)
                    ||| acc.quota.remaining_percent() <= 0
                    ||| acc.quota.remaining_percent() <= settings.auto_switch_remaining_threshold
                }
            },
            _ => true,
        },
{
    let event = run.events[i];
    assert(run.stages[i].accepts(event));
    assert(transition(run.stages[i], event, run.stages[i + 1], run.actions[i]));
    knowledge_comes_from_answers(run, i);
    run_keeps_order(run, i);
    tried_are_counted(run, i);
    match run.stages[i] {
        Stage::AwaitReload(case) => {
            policy_is_what_was_set(case.policy, settings);
            let accounts = event->Accounts_0->Ok_0@;
            if 0 <= j < accounts.len() && left_over(run, i, accounts[j], settings) {
                a_serving_account_is_not_overlooked(case.criteria(Set::empty()), accounts, j);
            }
        },
        Stage::AwaitCandidateToken(search, candidate) => {
            policy_is_what_was_set(search.case.policy, settings);
            let gone = search.excluded@.insert(candidate.id);
            if 0 <= j < search.accounts@.len() && left_over(
                run,
                i,
                search.accounts@[j],
                settings,
            ) {
                a_serving_account_is_not_overlooked(
                    search.case.criteria(gone),
                    search.accounts@,
                    j,
                );
            }
        },
        Stage::AwaitCandidateQuota(search, candidate) => {
            policy_is_what_was_set(search.case.policy, settings);
            let gone = search.excluded@.insert(candidate.id);
            if 0 <= j < search.accounts@.len() && left_over(
                run,
                i,
                search.accounts@[j],
                settings,
            ) {
                a_serving_account_is_not_overlooked(
                    search.case.criteria(gone),
                    search.accounts@,
                    j,
                );
            }
        },
        _ => {},
    }
}

/// An outcome tells of the current account what was answered: its address as it was
/// detected and both percentages as the quota service gave them; and nothing of it
/// where the service gave none.
pub proof fn outcome_tells_what_was_answered(run: Run, i: int)
    requires
        run.valid(),
        0 <= i < run.actions.len(),
        run.actions[i] is Finish,
    ensures
        ({
            let outcome = run.actions[i]->Finish_0.outcome;
            if i >= 4 && run.events[4] is Quota && run.events[4]->Quota_0 is Ok {
                &&& outcome.current_usage_percent == Some(run.events[4]->Quota_0->Ok_0.0)
                &&& outcome.current_remaining == Some(run.events[4]->Quota_0->Ok_0.1)
                &&& run.events[1] matches Event::Email(Ok(Some(email)))
                &&& outcome.current_email is Some
                &&& outcome.current_email->0@ == email@
            } else {
                &&& outcome.current_usage_percent is None
                &&& outcome.current_remaining is None
                &&& outcome.current_email is None
            }
        }),
{
    let event = run.events[i];
    assert(run.stages[i].accepts(event));
    assert(transition(run.stages[i], event, run.stages[i + 1], run.actions[i]));
    knowledge_comes_from_answers(run, i);
    if i >= 4 {
        let quota = run.events[4];
        knowledge_comes_from_answers(run, 4);
        assert(run.stages[4].accepts(quota));
    }
}

/// On its reply a switch counts as done exactly if the reply has a member `success`
/// that is true. Then the outcome and the log tell of the target; else the reason ends
/// with the text of the member `error`, where there is one.
pub proof fn reply_decides_on_the_switch(
    stage: Stage,
    event: Event,
    next: Stage,
    action: Action,
)
    requires
        transition(stage, event, next, action),
        event is Switched,
    ensures
        stage is AwaitSwitch,
        action is Finish,
        ({
            let target = stage->AwaitSwitch_1;
            let ending = action->Finish_0;
            let outcome = ending.outcome;
            &&& outcome.triggered <==> {
                &&& event->Switched_0 matches Ok(reply)
                &&& json_members(reply).contains_key("success"@)
                &&& json_bool(json_members(reply)["success"@]) == Some(true)
            }
            &&& outcome.triggered ==> {
                &&& outcome.switched_to_email is Some
                &&& outcome.switched_to_email->0@ == target.email@
                &&& target.quota.remaining_percent() >= 0 ==> outcome.switched_to_remaining
                    is Some && outcome.switched_to_remaining->0
                    == target.quota.remaining_percent()
                &&& target.quota.remaining_percent() < 0 ==> outcome.switched_to_remaining is None
                &&& outcome.reason is None
            }
            &&& ending.announce
            &&& ending.log is Some
            &&& ending.log->0.succeeded == outcome.triggered
            &&& ending.log->0.account_id == target.id
            &&& ending.log->0.account_email@ == target.email@
            &&& outcome.triggered ==> ending.log->0.message@ == success_log(
                stage->AwaitSwitch_0.email@,
                target.email@,
                stage->AwaitSwitch_0.usage as int,
                stage->AwaitSwitch_0.remaining as int,
            )
            &&& event->Switched_0 matches Err(error) ==> ending.log->0.message@ == failure_log(
                stage->AwaitSwitch_0.email@,
                target.email@,
                error@,
            )
            &&& event->Switched_0 matches Err(error) ==> {
                let text = outcome.reason->0@;
                &&& outcome.reason is Some
                &&& text.len() >= error@.len()
                &&& text.skip(text.len() - error@.len()) == error@
            }
        }),
        ({
            let members = json_members(event->Switched_0->Ok_0);
            let outcome = action->Finish_0.outcome;
            event->Switched_0 is Ok && !outcome.triggered && members.contains_key("error"@)
                && json_text(members["error"@]) is Some ==> {
                let text = outcome.reason->0@;
                let error = json_text(members["error"@])->0;
                &&& outcome.reason is Some
                &&& text.len() >= error.len()
                &&& text.skip(text.len() - error.len()) == error
                &&& action->Finish_0.log->0.message@ == failure_log(
                    stage->AwaitSwitch_0.email@,
                    stage->AwaitSwitch_1.email@,
                    error,
                )
            }
        }),
{
    match event->Switched_0 {
        Ok(reply) => {
            if json_members(reply).contains_key("error"@) && json_text(
                json_members(reply)["error"@],
            ) is Some {
                crate::meaning::errors_are_given_in_full(
                    json_text(json_members(reply)["error"@])->0,
                );
            }
        },
        Err(error) => {
            crate::meaning::errors_are_given_in_full(error@);
        },
    }
}

/// What went wrong is passed on: an error of the store ends the check as it came, and
/// where the address or the quota could not be had, the reason ends with the error.
pub proof fn failures_give_their_error(stage: Stage, event: Event, next: Stage, action: Action)
    requires
        transition(stage, event, next, action),
    ensures
        match event {
            Event::Settings(Err(error)) => action == Action::Fail(error),
            Event::Accounts(Err(error)) => action == Action::Fail(error),
            Event::Email(Err(error)) => {
                let text = action->Finish_0.outcome.reason->0@;
                &&& action is Finish
                &&& action->Finish_0.outcome.reason is Some
                &&& text.len() >= error@.len()
                &&& text.skip(text.len() - error@.len()) == error@
            },
            Event::Quota(Err(error)) => {
                let text = action->Finish_0.outcome.reason->0@;
                &&& action is Finish
                &&& action->Finish_0.outcome.reason is Some
                &&& text.len() >= error@.len()
                &&& text.skip(text.len() - error@.len()) == error@
            },
            _ => true,
        },
{
    match event {
        Event::Email(Err(error)) => {
            crate::meaning::errors_are_given_in_full(error@);
        },
        Event::Quota(Err(error)) => {
            crate::meaning::errors_are_given_in_full(error@);
        },
        _ => {},
    }
}

/// An account that is kept is told of with the numbers that decided: those of the
/// quota service, and those that the user has set, within their bounds.
pub proof fn kept_account_is_told_of(run: Run, settings: Settings, usage: i32, remaining: i32)
    requires
        run.valid(),
        run.events.len() > 4,
        run.events[0] == Event::Settings(Ok(settings)),
        run.events[4] == Event::Quota(Ok((usage, remaining))),
        run.actions[4] is Finish,
        1 <= settings.auto_switch_threshold_percent <= 100,
        settings.auto_switch_remaining_threshold >= 0,
    ensures
        run.actions[4]->Finish_0.outcome.reason is Some,
        run.actions[4]->Finish_0.outcome.reason->0@ == still_serves(
            usage as int,
            settings.auto_switch_threshold_percent as int,
            remaining as int,
            settings.auto_switch_remaining_threshold as int,
        ),
        !run.actions[4]->Finish_0.outcome.triggered,
{
    knowledge_comes_from_answers(run, 4);
    let event = run.events[4];
    assert(run.stages[4].accepts(event));
    assert(transition(run.stages[4], event, run.stages[5], run.actions[4]));
}

/// Only the outcome of a current account that still serves leaves without the fields
/// on a target.
pub proof fn form_tells_whether_there_can_be_a_target(
    stage: Stage,
    event: Event,
    next: Stage,
    action: Action,
)
    requires
        transition(stage, event, next, action),
        action is Finish,
    ensures
        action->Finish_0.form == Form::WithoutTarget <==> event is Quota && event->Quota_0 is Ok,
{
}

/// A stage takes every answer to its question. Only accounts and quotas whose numbers
/// are out of range are left out, and of these only what would be computed with.
pub proof fn every_answer_is_taken(stage: Stage, event: Event)
    requires
        match event {
            Event::Settings(_) => stage is AwaitSettings,
            Event::Email(_) => stage is AwaitEmail,
            Event::Accounts(answer) => stage is AwaitAccounts || (stage is AwaitReload && (
            answer is Ok ==> forall|j: int|
                0 <= j < answer->Ok_0@.len() ==> (#[trigger] answer->Ok_0@[j]).quota.measurable()
                    || answer->Ok_0@[j].id == stage->AwaitReload_0.current.id
                    || answer->Ok_0@[j].is_disabled == Some(true))),
            Event::Token(_) => stage is AwaitToken || stage is AwaitCandidateToken,
            Event::Quota(_) => stage is AwaitQuota,
            Event::Refreshed => stage is AwaitRefresh,
            Event::CandidateQuota(answer) => stage is AwaitCandidateQuota && (answer is Ok
                ==> answer->Ok_0.0.measurable() || answer->Ok_0.1 <= 0),
            Event::Switched(_) => stage is AwaitSwitch,
        },
        stage.wf(),
    ensures
        stage.accepts(event),
{
}

} // verus!
