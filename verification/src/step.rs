//! What a check does next, for every answer from the outside.
use crate::account::{account_remaining_percent, Account, Quota};
use crate::flow::{
    Action, Event, Exhausted, Known, Policy, Search, Settings, Stage, MAX_VERIFY_RETRIES,
};
use crate::identity::{find_account, first_with, none_with};
use crate::outside::{hyphenated, uuid_text};
use crate::reply::{member_bool, member_text, read_switch_reply, stated_error};
use crate::report::{AutoSwitchResult, Ending, Form, LogEntry};
use crate::selection::{candidates_to_refresh, enough, is_enough, pick_next_account, usable_of};
use crate::text::{
    failure_log, failure_log_text, lacks_token, lacks_token_text, none_serves, none_serves_text,
    not_in_library, not_in_library_text, quota_unknown, quota_unknown_text, still_serves,
    still_serves_text, success_log, success_log_text, switch_failed, switch_failed_text,
    unidentified, unidentified_text, DISABLED, NO_ACTIVE_ACCOUNT,
};
use std::collections::HashSet;
use vstd::pervasive::unreached;
use vstd::prelude::*;

verus! {

broadcast use vstd::std_specs::hash::group_hash_axioms;

/// The check ends with an error.
pub open spec fn fails(error: String, next: Stage, action: Action) -> bool {
    next is Done && action == Action::Fail(error)
}

/// The check ends before the current account's state is known, without a word to
/// the log or the front end.
pub open spec fn stops(reason: Seq<char>, next: Stage, action: Action) -> bool {
    &&& next is Done
    &&& action matches Action::Finish(ending)
    &&& ending.log is None
    &&& !ending.announce
    &&& ending.form == Form::Full
    &&& ending.outcome.declines(reason)
    &&& ending.outcome.silent_on_current()
}

/// The check ends because the current account still serves.
pub open spec fn keeps(
    known: Known,
    usage: i32,
    remaining: i32,
    next: Stage,
    action: Action,
) -> bool {
    &&& next is Done
    &&& action matches Action::Finish(ending)
    &&& ending.log is None
    &&& !ending.announce
    &&& ending.form == Form::WithoutTarget
    &&& ending.outcome.declines(
        still_serves(
            usage as int,
            known.policy.threshold_percent as int,
            remaining as int,
            known.policy.remaining_threshold as int,
        ),
    )
    &&& ending.outcome.tells(known.email@, usage, remaining)
}

/// The check ends because `tried` accounts were tried and there is none to switch to.
pub open spec fn gives_up(case: Exhausted, tried: nat, next: Stage, action: Action) -> bool {
    &&& next is Done
    &&& action matches Action::Finish(ending)
    &&& ending.log is None
    &&& ending.announce
    &&& ending.form == Form::Full
    &&& ending.outcome.declines(none_serves(tried))
    &&& ending.outcome.tells(case.email@, case.usage, case.remaining)
}

/// The check ends because the switch failed.
pub open spec fn switch_fails(
    case: Exhausted,
    target: Account,
    error: Seq<char>,
    next: Stage,
    action: Action,
) -> bool {
    &&& next is Done
    &&& action matches Action::Finish(ending)
    &&& ending.log matches Some(entry)
    &&& entry.says(
        false,
        failure_log(case.email@, target.email@, error),
        target.id,
        target.email@,
    )
    &&& ending.announce
    &&& ending.form == Form::Full
    &&& ending.outcome.declines(switch_failed(error))
    &&& ending.outcome.tells(case.email@, case.usage, case.remaining)
}

/// The check ends with the switch done.
pub open spec fn switch_succeeds(
    case: Exhausted,
    target: Account,
    next: Stage,
    action: Action,
) -> bool {
    let left = target.quota.remaining_percent();
    &&& next is Done
    &&& action matches Action::Finish(ending)
    &&& ending.log matches Some(entry)
    &&& entry.says(
        true,
        success_log(case.email@, target.email@, case.usage as int, case.remaining as int),
        target.id,
        target.email@,
    )
    &&& ending.announce
    &&& ending.form == Form::Full
    &&& ending.outcome.triggered
    &&& ending.outcome.tells(case.email@, case.usage, case.remaining)
    &&& ending.outcome.switched_to_email matches Some(email)
    &&& email@ == target.email@
    &&& match ending.outcome.switched_to_remaining {
        Some(n) => left >= 0 && n == left,
        None => left < 0,
    }
    &&& ending.outcome.reason is None
}

/// The search goes on with the accounts in `excluded` ruled out: the next candidate
/// is tried, or the check gives up where there is none or too many have failed.
pub open spec fn seeks(
    case: Exhausted,
    accounts: Vec<Account>,
    excluded: Set<u128>,
    next: Stage,
    action: Action,
) -> bool {
    if excluded.len() >= MAX_VERIFY_RETRIES || case.criteria(excluded).takes_none(accounts@) {
        gives_up(case, excluded.len(), next, action)
    } else {
        &&& next matches Stage::AwaitCandidateToken(search, candidate)
        &&& search.case == case
        &&& search.accounts == accounts
        &&& search.excluded@ == excluded
        &&& search.proposes(candidate)
        &&& action == Action::Authorize(candidate)
    }
}

/// What follows on the settings.
pub open spec fn after_settings(
    answer: Result<Settings, String>,
    next: Stage,
    action: Action,
) -> bool {
    match answer {
        Err(error) => fails(error, next, action),
        Ok(settings) => if !settings.auto_switch_enabled {
            stops(DISABLED@, next, action)
        } else {
            &&& next matches Stage::AwaitEmail(policy)
            &&& policy.follows(settings)
            &&& action == Action::DetectEmail
        },
    }
}

/// What follows on the signed-in address.
pub open spec fn after_email(
    policy: Policy,
    answer: Result<Option<String>, String>,
    next: Stage,
    action: Action,
) -> bool {
    match answer {
        Err(error) => stops(unidentified(error@), next, action),
        Ok(address) => if address matches Some(email) && email@.len() > 0 {
            next == Stage::AwaitAccounts(policy, address->0) && action == Action::LoadAccounts
        } else {
            stops(NO_ACTIVE_ACCOUNT@, next, action)
        },
    }
}

/// What follows on the accounts.
pub open spec fn after_accounts(
    policy: Policy,
    email: String,
    answer: Result<Vec<Account>, String>,
    next: Stage,
    action: Action,
) -> bool {
    match answer {
        Err(error) => fails(error, next, action),
        Ok(accounts) => if none_with(accounts@, email@) {
            stops(not_in_library(email@), next, action)
        } else {
            &&& next matches Stage::AwaitToken(known)
            &&& known.policy == policy
            &&& known.email == email
            &&& known.accounts == accounts
            &&& exists|i: int| #[trigger]
                first_with(accounts@, email@, i) && known.current == accounts@[i]
            &&& action == Action::Authorize(known.current)
        },
    }
}

/// What follows on the current account's token.
pub open spec fn after_token(
    known: Known,
    answer: Result<String, String>,
    next: Stage,
    action: Action,
) -> bool {
    if answer matches Ok(token) && token@.len() > 0 {
        next == Stage::AwaitQuota(known) && action == Action::QueryQuota
    } else {
        stops(lacks_token(known.email@), next, action)
    }
}

/// What follows on the current account's quota.
pub open spec fn after_quota(
    known: Known,
    answer: Result<(i32, i32), String>,
    next: Stage,
    action: Action,
) -> bool {
    match answer {
        Err(error) => stops(quota_unknown(error@), next, action),
        Ok((usage, remaining)) => if !known.policy.exhausted(usage as int, remaining as int) {
            keeps(known, usage, remaining, next, action)
        } else {
            let case = (Exhausted {
                policy: known.policy,
                email: known.email,
                current: known.current,
                usage,
                remaining,
            });
            let candidates = usable_of(known.accounts@, known.current.id);
            if candidates.len() == 0 {
                next == Stage::AwaitReload(case) && action == Action::LoadAccounts
            } else {
                &&& next == Stage::AwaitRefresh(case)
                &&& action matches Action::Refresh(accounts)
                &&& accounts@ == candidates
            }
        },
    }
}

/// What follows on the accounts after the refresh.
pub open spec fn after_reload(
    case: Exhausted,
    answer: Result<Vec<Account>, String>,
    next: Stage,
    action: Action,
) -> bool {
    match answer {
        Err(error) => fails(error, next, action),
        Ok(accounts) => seeks(case, accounts, Set::empty(), next, action),
    }
}

/// What follows on a candidate's token.
pub open spec fn after_candidate_token(
    search: Search,
    candidate: Account,
    answer: Result<String, String>,
    next: Stage,
    action: Action,
) -> bool {
    match answer {
        Err(_) => seeks(
            search.case,
            search.accounts,
            search.excluded@.insert(candidate.id),
            next,
            action,
        ),
        Ok(_) => {
            &&& next == Stage::AwaitCandidateQuota(search, candidate)
            &&& action == Action::QueryCandidate(candidate)
        },
    }
}

/// What follows on a candidate's quota.
pub open spec fn after_candidate_quota(
    search: Search,
    candidate: Account,
    answer: Result<(Quota, i32), String>,
    next: Stage,
    action: Action,
) -> bool {
    if answer matches Ok((quota, remaining)) && enough(
        remaining as int,
        search.case.policy.remaining_threshold as int,
    ) {
        &&& next == Stage::AwaitSwitch(search.case, candidate.with_quota(answer->Ok_0.0))
        &&& action matches Action::Switch(id)
        &&& id@ == hyphenated(candidate.id)
    } else {
        seeks(
            search.case,
            search.accounts,
            search.excluded@.insert(candidate.id),
            next,
            action,
        )
    }
}

/// What follows on the switch.
pub open spec fn after_switch(
    case: Exhausted,
    target: Account,
    answer: Result<serde_json::Value, String>,
    next: Stage,
    action: Action,
) -> bool {
    match answer {
        Err(error) => switch_fails(case, target, error@, next, action),
        Ok(reply) => if member_bool(reply, "success"@) == Some(true) {
            switch_succeeds(case, target, next, action)
        } else {
            switch_fails(case, target, stated_error(member_text(reply, "error"@)), next, action)
        },
    }
}

/// Whether a check at `stage` that gets `event` goes on to `next` with `action`.
pub open spec fn transition(stage: Stage, event: Event, next: Stage, action: Action) -> bool {
    match (stage, event) {
        (Stage::AwaitSettings, Event::Settings(answer)) => after_settings(answer, next, action),
        (Stage::AwaitEmail(policy), Event::Email(answer)) => after_email(
            policy,
            answer,
            next,
            action,
        ),
        (Stage::AwaitAccounts(policy, email), Event::Accounts(answer)) => after_accounts(
            policy,
            email,
            answer,
            next,
            action,
        ),
        (Stage::AwaitToken(known), Event::Token(answer)) => after_token(
            known,
            answer,
            next,
            action,
        ),
        (Stage::AwaitQuota(known), Event::Quota(answer)) => after_quota(
            known,
            answer,
            next,
            action,
        ),
        (Stage::AwaitRefresh(case), Event::Refreshed) => next == Stage::AwaitReload(case)
            && action == Action::LoadAccounts,
        (Stage::AwaitReload(case), Event::Accounts(answer)) => after_reload(
            case,
            answer,
            next,
            action,
        ),
        (Stage::AwaitCandidateToken(search, candidate), Event::Token(answer)) =>
            after_candidate_token(search, candidate, answer, next, action),
        (Stage::AwaitCandidateQuota(search, candidate), Event::CandidateQuota(answer)) =>
            after_candidate_quota(search, candidate, answer, next, action),
        (Stage::AwaitSwitch(case, target), Event::Switched(answer)) => after_switch(
            case,
            target,
            answer,
            next,
            action,
        ),
        _ => false,
    }
}

fn stop(reason: String) -> (r: (Stage, Action))
    ensures
        stops(reason@, r.0, r.1),
{
    let ending: Ending = Ending {
        log: None,
        announce: false,
        form: Form::Full,
        outcome: AutoSwitchResult::skipped(reason),
    };
    (Stage::Done, Action::Finish(ending))
}

/// Goes on from the settings.
pub fn on_settings(answer: Result<Settings, String>) -> (r: (Stage, Action))
    ensures
        r.0.wf(),
        after_settings(answer, r.0, r.1),
{
    match answer {
        Err(error) => (Stage::Done, Action::Fail(error)),
        Ok(settings) => if !settings.auto_switch_enabled {
            stop(DISABLED.to_owned())
        } else {
            (Stage::AwaitEmail(Policy::from_settings(settings)), Action::DetectEmail)
        },
    }
}

/// Goes on from the signed-in address.
pub fn on_email(policy: Policy, answer: Result<Option<String>, String>) -> (r: (Stage, Action))
    requires
        policy.wf(),
    ensures
        r.0.wf(),
        after_email(policy, answer, r.0, r.1),
{
    match answer {
        Err(error) => stop(unidentified_text(error.as_str())),
        Ok(Some(email)) => if !email.as_str().is_empty() {
            (Stage::AwaitAccounts(policy, email), Action::LoadAccounts)
        } else {
            stop(NO_ACTIVE_ACCOUNT.to_owned())
        },
        Ok(None) => stop(NO_ACTIVE_ACCOUNT.to_owned()),
    }
}

/// Goes on from the accounts: finds the signed-in one.
pub fn on_accounts(policy: Policy, email: String, answer: Result<Vec<Account>, String>) -> (r: (
    Stage,
    Action,
))
    requires
        policy.wf(),
    ensures
        r.0.wf(),
        after_accounts(policy, email, answer, r.0, r.1),
{
    match answer {
        Err(error) => (Stage::Done, Action::Fail(error)),
        Ok(accounts) => match find_account(accounts.as_slice(), email.as_str()) {
            Some(i) => {
                assert(first_with(accounts@, email@, i as int));
                let current: Account = accounts[i].clone();
                let known: Known = Known { policy, email, accounts, current: current.clone() };
                (Stage::AwaitToken(known), Action::Authorize(current))
            },
            None => stop(not_in_library_text(email.as_str())),
        },
    }
}

/// Tells whether an account's token allows to ask for its quota: it is there and
/// not empty.
pub fn is_authorized(answer: &Result<String, String>) -> (r: bool)
    ensures
        r == (answer matches Ok(token) && token@.len() > 0),
{
    match answer {
        Ok(token) => !token.as_str().is_empty(),
        Err(_) => false,
    }
}

/// Goes on from the current account's token.
pub fn on_token(known: Known, answer: Result<String, String>) -> (r: (Stage, Action))
    requires
        known.policy.wf(),
    ensures
        r.0.wf(),
        after_token(known, answer, r.0, r.1),
{
    if is_authorized(&answer) {
        (Stage::AwaitQuota(known), Action::QueryQuota)
    } else {
        stop(lacks_token_text(known.email.as_str()))
    }
}

/// Goes on from the current account's quota: decides whether it is exhausted.
pub fn on_quota(known: Known, answer: Result<(i32, i32), String>) -> (r: (Stage, Action))
    requires
        known.policy.wf(),
    ensures
        r.0.wf(),
        after_quota(known, answer, r.0, r.1),
{
    match answer {
        Err(error) => stop(quota_unknown_text(error.as_str())),
        Ok((usage, remaining)) => if !known.policy.is_exhausted(usage, remaining) {
            let reason: String = still_serves_text(
                usage,
                known.policy.threshold_percent,
                remaining,
                known.policy.remaining_threshold,
            );
            let ending: Ending = Ending {
                log: None,
                announce: false,
                form: Form::WithoutTarget,
                outcome: AutoSwitchResult::declined(known.email, usage, remaining, reason),
            };
            (Stage::Done, Action::Finish(ending))
        } else {
            let candidates: Vec<Account> = candidates_to_refresh(
                known.accounts.as_slice(),
                &known.current,
            );
            let case: Exhausted = Exhausted {
                policy: known.policy,
                email: known.email,
                current: known.current,
                usage,
                remaining,
            };
            if candidates.len() == 0 {
                (Stage::AwaitReload(case), Action::LoadAccounts)
            } else {
                (Stage::AwaitRefresh(case), Action::Refresh(candidates))
            }
        },
    }
}

/// Goes on from the accounts after the refresh: starts the search.
pub fn on_reload(case: Exhausted, answer: Result<Vec<Account>, String>) -> (r: (Stage, Action))
    requires
        case.wf(),
        answer matches Ok(accounts) ==> case.can_measure(accounts@),
    ensures
        r.0.wf(),
        after_reload(case, answer, r.0, r.1),
{
    match answer {
        Err(error) => (Stage::Done, Action::Fail(error)),
        Ok(accounts) => seek(case, accounts, HashSet::new()),
    }
}

/// Goes on with the search, the accounts in `excluded` ruled out.
fn seek(case: Exhausted, accounts: Vec<Account>, excluded: HashSet<u128>) -> (r: (
    Stage,
    Action,
))
    requires
        case.wf(),
        case.can_measure(accounts@),
        excluded@.finite(),
        excluded@.len() <= MAX_VERIFY_RETRIES,
    ensures
        r.0.wf(),
        seeks(case, accounts, excluded@, r.0, r.1),
{
    let tried: usize = excluded.len();
    if tried < MAX_VERIFY_RETRIES {
        let picked: Option<Account> = pick_next_account(
            accounts.as_slice(),
            &case.current,
            case.policy.prefer_same_provider,
            case.policy.strategy.as_str(),
            case.policy.remaining_threshold,
            &excluded,
        );
        if let Some(candidate) = picked {
            let ghost criteria = case.criteria(excluded@);
            let ghost i = choose|i: int| #[trigger]
                criteria.takes(accounts@, i) && candidate == accounts@[i];
            assert(criteria.eligible(accounts@[i]));
            let again: Account = candidate.clone();
            let search: Search = Search { case, accounts, excluded };
            assert(search.case.criteria(search.excluded@).takes(search.accounts@, i));
            return (Stage::AwaitCandidateToken(search, candidate), Action::Authorize(again));
        }
    }
    let ending: Ending = Ending {
        log: None,
        announce: true,
        form: Form::Full,
        outcome: AutoSwitchResult::declined(
            case.email,
            case.usage,
            case.remaining,
            none_serves_text(tried as u32),
        ),
    };
    (Stage::Done, Action::Finish(ending))
}

/// Rules a candidate out, and goes on with the search.
fn reject(search: Search, candidate: &Account) -> (r: (Stage, Action))
    requires
        search.wf(),
        search.proposes(*candidate),
    ensures
        r.0.wf(),
        seeks(
            search.case,
            search.accounts,
            search.excluded@.insert(candidate.id),
            r.0,
            r.1,
        ),
{
    let Search { case, accounts, excluded } = search;
    let mut excluded: HashSet<u128> = excluded;
    excluded.insert(candidate.id);
    seek(case, accounts, excluded)
}

/// Goes on from a candidate's token.
pub fn on_candidate_token(
    search: Search,
    candidate: Account,
    answer: Result<String, String>,
) -> (r: (Stage, Action))
    requires
        search.wf(),
        search.proposes(candidate),
    ensures
        r.0.wf(),
        after_candidate_token(search, candidate, answer, r.0, r.1),
{
    match answer {
        Err(_) => reject(search, &candidate),
        Ok(_) => {
            let again: Account = candidate.clone();
            (Stage::AwaitCandidateQuota(search, candidate), Action::QueryCandidate(again))
        },
    }
}

/// Goes on from a candidate's quota: decides whether to switch to it.
pub fn on_candidate_quota(
    search: Search,
    candidate: Account,
    answer: Result<(Quota, i32), String>,
) -> (r: (Stage, Action))
    requires
        search.wf(),
        search.proposes(candidate),
        answer matches Ok((quota, remaining)) ==> enough(
            remaining as int,
            search.case.policy.remaining_threshold as int,
        ) ==> quota.measurable(),
    ensures
        r.0.wf(),
        after_candidate_quota(search, candidate, answer, r.0, r.1),
{
    if let Ok((quota, remaining)) = answer {
        if is_enough(remaining, search.case.policy.remaining_threshold) {
            proof {
                let criteria = search.case.criteria(search.excluded@);
                let i = choose|i: int| #[trigger]
                    criteria.takes(search.accounts@, i) && candidate == search.accounts@[i];
                assert(criteria.eligible(candidate));
            }
            let id: String = uuid_text(candidate.id);
            let target: Account = Account {
                id: candidate.id,
                email: candidate.email,
                token: candidate.token,
                refresh_token: candidate.refresh_token,
                is_disabled: candidate.is_disabled,
                is_devin: candidate.is_devin,
                quota,
                last_login_at: candidate.last_login_at,
            };
            return (Stage::AwaitSwitch(search.case, target), Action::Switch(id));
        }
    }
    reject(search, &candidate)
}

fn end_failed(case: Exhausted, target: Account, error: &str) -> (r: (Stage, Action))
    ensures
        switch_fails(case, target, error@, r.0, r.1),
{
    let entry: LogEntry = LogEntry {
        succeeded: false,
        message: failure_log_text(case.email.as_str(), target.email.as_str(), error),
        account_id: target.id,
        account_email: target.email,
    };
    let ending: Ending = Ending {
        log: Some(entry),
        announce: true,
        form: Form::Full,
        outcome: AutoSwitchResult::declined(
            case.email,
            case.usage,
            case.remaining,
            switch_failed_text(error),
        ),
    };
    (Stage::Done, Action::Finish(ending))
}

fn end_switched(case: Exhausted, target: Account) -> (r: (Stage, Action))
    requires
        target.quota.measurable(),
    ensures
        switch_succeeds(case, target, r.0, r.1),
{
    let left: i32 = account_remaining_percent(&target);
    let message: String = success_log_text(
        case.email.as_str(),
        target.email.as_str(),
        case.usage,
        case.remaining,
    );
    let entry: LogEntry = LogEntry {
        succeeded: true,
        message,
        account_id: target.id,
        account_email: target.email.clone(),
    };
    let outcome: AutoSwitchResult = AutoSwitchResult {
        triggered: true,
        current_email: Some(case.email),
        current_usage_percent: Some(case.usage),
        current_remaining: Some(case.remaining),
        switched_to_email: Some(target.email),
        switched_to_remaining: if left >= 0 {
            Some(left)
        } else {
            None
        },
        reason: None,
    };
    let ending: Ending = Ending { log: Some(entry), announce: true, form: Form::Full, outcome };
    (Stage::Done, Action::Finish(ending))
}

/// Ends with what came of the switch.
pub fn on_switch(
    case: Exhausted,
    target: Account,
    answer: Result<serde_json::Value, String>,
) -> (r: (Stage, Action))
    requires
        target.quota.measurable(),
    ensures
        r.0.wf(),
        after_switch(case, target, answer, r.0, r.1),
{
    match answer {
        Err(error) => end_failed(case, target, error.as_str()),
        Ok(reply) => match read_switch_reply(&reply) {
            Ok(_) => end_switched(case, target),
            Err(error) => end_failed(case, target, error.as_str()),
        },
    }
}

/// The first stage of a check, and its first action.
pub fn begin() -> (r: (Stage, Action))
    ensures
        r.0 == Stage::AwaitSettings,
        r.0.wf(),
        r.1 == Action::ReadSettings,
{
    (Stage::AwaitSettings, Action::ReadSettings)
}

/// Goes on from the answer that `stage` waits for to the next stage and action.
pub fn step(stage: Stage, event: Event) -> (r: (Stage, Action))
    requires
        stage.wf(),
        stage.accepts(event),
    ensures
        r.0.wf(),
        transition(stage, event, r.0, r.1),
{
    match (stage, event) {
        (Stage::AwaitSettings, Event::Settings(answer)) => on_settings(answer),
        (Stage::AwaitEmail(policy), Event::Email(answer)) => on_email(policy, answer),
        (Stage::AwaitAccounts(policy, email), Event::Accounts(answer)) => on_accounts(
            policy,
            email,
            answer,
        ),
        (Stage::AwaitToken(known), Event::Token(answer)) => on_token(known, answer),
        (Stage::AwaitQuota(known), Event::Quota(answer)) => on_quota(known, answer),
        (Stage::AwaitRefresh(case), Event::Refreshed) => (
            Stage::AwaitReload(case),
            Action::LoadAccounts,
        ),
        (Stage::AwaitReload(case), Event::Accounts(answer)) => on_reload(case, answer),
        (Stage::AwaitCandidateToken(search, candidate), Event::Token(answer)) =>
            on_candidate_token(search, candidate, answer),
        (Stage::AwaitCandidateQuota(search, candidate), Event::CandidateQuota(answer)) =>
            on_candidate_quota(search, candidate, answer),
        (Stage::AwaitSwitch(case, target), Event::Switched(answer)) => on_switch(
            case,
            target,
            answer,
        ),
        _ => unreached(),
    }
}

} // verus!
