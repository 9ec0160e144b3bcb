//! What holds of a check from its beginning to its end.
use crate::account::Account;
use crate::flow::{
    Action, Event, Exhausted, Known, Policy, Search, Stage, MAX_VERIFY_RETRIES,
};
use crate::identity::{first_with, none_with};
use crate::outside::hyphenated;
use crate::reply::member_bool;
use crate::selection::{eligible, older, preferred, usable, usable_of, ROUND_ROBIN};
use crate::step::{seeks, transition};
use crate::text::none_serves;
use vstd::prelude::*;

verus! {

/// A check as it went: its stages, the events that came in, and the actions that
/// they led to.
pub ghost struct Run {
    pub stages: Seq<Stage>,
    pub events: Seq<Event>,
    pub actions: Seq<Action>,
}

impl Run {
    /// Whether the check can have gone like this.
    pub open spec fn valid(self) -> bool {
        &&& self.stages.len() == self.events.len() + 1
        &&& self.actions.len() == self.events.len()
        &&& self.stages[0] == Stage::AwaitSettings
        &&& forall|i: int|
            #![trigger self.events[i]]
            0 <= i < self.events.len() ==> self.stages[i].accepts(self.events[i]) && transition(
                self.stages[i],
                self.events[i],
                self.stages[i + 1],
                self.actions[i],
            )
    }
}

/// Whether an action ends the check.
pub open spec fn ends(action: Action) -> bool {
    action is Fail || action is Finish
}

/// Whether an action asks something of a server.
pub open spec fn uses_network(action: Action) -> bool {
    action is QueryQuota || action is Refresh || action is QueryCandidate || action is Switch
}

/// How many more events a check can take.
pub open spec fn rank(stage: Stage) -> int {
    match stage {
        Stage::AwaitSettings => 18,
        Stage::AwaitEmail(_) => 17,
        Stage::AwaitAccounts(_, _) => 16,
        Stage::AwaitToken(_) => 15,
        Stage::AwaitQuota(_) => 14,
        Stage::AwaitRefresh(_) => 13,
        Stage::AwaitReload(_) => 12,
        Stage::AwaitCandidateToken(search, _) => 1 + 2 * (MAX_VERIFY_RETRIES
            - search.excluded@.len()),
        Stage::AwaitCandidateQuota(search, _) => 2 * (MAX_VERIFY_RETRIES
            - search.excluded@.len()),
        Stage::AwaitSwitch(_, _) => 1,
        Stage::Done => 0,
    }
}

/// A proposed candidate is eligible.
proof fn lemma_proposed_is_eligible(search: Search, candidate: Account)
    requires
        search.proposes(candidate),
    ensures
        search.case.criteria(search.excluded@).eligible(candidate),
        !search.excluded@.contains(candidate.id),
        usable(candidate, search.case.current.id),
{
    let c = search.case.criteria(search.excluded@);
    let i = choose|i: int| #[trigger]
        c.takes(search.accounts@, i) && candidate == search.accounts@[i];
    assert(c.in_pool(search.accounts@, search.accounts@[i]));
}

/// A search keeps in order.
proof fn lemma_seeks_keeps_wf(
    case: Exhausted,
    accounts: Vec<Account>,
    excluded: Set<u128>,
    next: Stage,
    action: Action,
)
    requires
        case.wf(),
        case.can_measure(accounts@),
        excluded.finite(),
        seeks(case, accounts, excluded, next, action),
    ensures
        next.wf(),
        rank(next) <= 1 + 2 * (MAX_VERIFY_RETRIES - excluded.len()) || next is Done,
{
}

/// Every step leaves a stage in order, and there is one event less to come.
pub proof fn step_keeps_order(stage: Stage, event: Event, next: Stage, action: Action)
    requires
        stage.wf(),
        stage.accepts(event),
        transition(stage, event, next, action),
    ensures
        next.wf(),
        0 <= rank(next) < rank(stage),
        next is Done <==> ends(action),
{
    match (stage, event) {
        (Stage::AwaitReload(case), Event::Accounts(answer)) => {
            if let Ok(accounts) = answer {
                lemma_seeks_keeps_wf(case, accounts, Set::empty(), next, action);
            }
        },
        (Stage::AwaitCandidateToken(search, candidate), Event::Token(_)) => {
            lemma_proposed_is_eligible(search, candidate);
            if !(next is AwaitCandidateQuota) {
                lemma_seeks_keeps_wf(
                    search.case,
                    search.accounts,
                    search.excluded@.insert(candidate.id),
                    next,
                    action,
                );
            }
        },
        (Stage::AwaitCandidateQuota(search, candidate), Event::CandidateQuota(_)) => {
            lemma_proposed_is_eligible(search, candidate);
            if !(next is AwaitSwitch) {
                lemma_seeks_keeps_wf(
                    search.case,
                    search.accounts,
                    search.excluded@.insert(candidate.id),
                    next,
                    action,
                );
            }
        },
        _ => {},
    }
}

/// All stages of a check are in order, and the events that came in and those that
/// can still come are at most 18.
pub proof fn run_keeps_order(run: Run, i: int)
    requires
        run.valid(),
        0 <= i < run.stages.len(),
    ensures
        run.stages[i].wf(),
        rank(run.stages[i]) >= 0,
        i + rank(run.stages[i]) <= 18,
    decreases i,
{
    if i > 0 {
        run_keeps_order(run, i - 1);
        let event = run.events[i - 1];
        step_keeps_order(run.stages[i - 1], event, run.stages[i], run.actions[i - 1]);
    }
}

/// A check comes to an end: it takes no more than 18 events.
pub proof fn run_is_bounded(run: Run)
    requires
        run.valid(),
    ensures
        run.events.len() <= 18,
{
    run_keeps_order(run, run.events.len() as int);
}

/// Only the last action ends a check.
pub proof fn nothing_follows_the_end(run: Run, i: int)
    requires
        run.valid(),
        0 <= i < run.actions.len(),
        ends(run.actions[i]),
    ensures
        i == run.actions.len() - 1,
{
    run_keeps_order(run, i);
    let event = run.events[i];
    step_keeps_order(run.stages[i], event, run.stages[i + 1], run.actions[i]);
    if i + 1 < run.events.len() {
        let after = run.events[i + 1];
        assert(run.stages[i + 1].accepts(after));
    }
}

/// Where switching is turned off, the check ends at once: nothing is asked of
/// anybody, and nothing is switched.
pub proof fn disabled_check_ends_at_once(run: Run)
    requires
        run.valid(),
        run.events.len() > 0,
        run.events[0] matches Event::Settings(Ok(settings)) && !settings.auto_switch_enabled,
    ensures
        run.actions.len() == 1,
        run.actions[0] matches Action::Finish(ending) && !ending.outcome.triggered,
        !uses_network(run.actions[0]),
{
    let event = run.events[0];
    assert(transition(run.stages[0], event, run.stages[1], run.actions[0]));
    nothing_follows_the_end(run, 0);
}

/// An outcome is consistent: either an account was switched to and there is no
/// reason against it, or none was and there is one. What is left of the account that
/// was switched to is a percentage.
pub proof fn outcome_is_consistent(stage: Stage, event: Event, next: Stage, action: Action)
    requires
        transition(stage, event, next, action),
        action is Finish,
    ensures
        ({
            let outcome = action->Finish_0.outcome;
            &&& outcome.triggered <==> outcome.switched_to_email is Some
            &&& outcome.triggered <==> outcome.reason is None
            &&& outcome.switched_to_remaining is Some ==> outcome.triggered
            &&& outcome.switched_to_remaining matches Some(n) ==> 0 <= n <= 100
        }),
{
}

/// What is logged agrees with the outcome, and is logged only of a switch that was
/// tried; the front end hears of an outcome exactly when the current account was
/// found exhausted.
pub proof fn log_agrees_with_outcome(stage: Stage, event: Event, next: Stage, action: Action)
    requires
        transition(stage, event, next, action),
        action is Finish,
    ensures
        ({
            let ending = action->Finish_0;
            &&& ending.log is Some <==> stage is AwaitSwitch
            &&& ending.log matches Some(entry) ==> entry.succeeded == ending.outcome.triggered
            &&& ending.announce <==> {
                ||| stage is AwaitReload
                ||| stage is AwaitCandidateToken
                ||| stage is AwaitCandidateQuota
                ||| stage is AwaitSwitch
            }
        }),
{
}

/// A switch is asked for only where the current account is exhausted, for a
/// candidate that is eligible among the accounts that are searched, and whose live
/// quota exceeds the floor.
pub proof fn switch_is_justified(stage: Stage, event: Event, next: Stage, action: Action)
    requires
        stage.wf(),
        stage.accepts(event),
        transition(stage, event, next, action),
        action is Switch,
    ensures
        stage is AwaitCandidateQuota,
        ({
            let search = stage->AwaitCandidateQuota_0;
            let candidate = stage->AwaitCandidateQuota_1;
            let case = search.case;
            &&& case.policy.exhausted(case.usage as int, case.remaining as int)
            &&& search.accounts@.contains(candidate)
            &&& eligible(
                candidate,
                case.current.id,
                case.policy.remaining_threshold as int,
                search.excluded@,
            )
            &&& event matches Event::CandidateQuota(Ok((quota, remaining)))
            &&& remaining > 0
            &&& remaining > case.policy.remaining_threshold
            &&& action->Switch_0@ == hyphenated(candidate.id)
            &&& next == Stage::AwaitSwitch(case, candidate.with_quota(quota))
        }),
{
    let search = stage->AwaitCandidateQuota_0;
    let candidate = stage->AwaitCandidateQuota_1;
    lemma_proposed_is_eligible(search, candidate);
    let c = search.case.criteria(search.excluded@);
    let i = choose|i: int| #[trigger]
        c.takes(search.accounts@, i) && candidate == search.accounts@[i];
    assert(search.accounts@[i] == candidate);
}

/// A switch is asked for at most once, and what comes of it ends the check.
pub proof fn switch_comes_last(run: Run, i: int)
    requires
        run.valid(),
        0 <= i < run.actions.len(),
        run.actions[i] is Switch,
    ensures
        run.actions.len() <= i + 2,
        run.actions.len() == i + 2 ==> run.actions[i + 1] is Finish,
{
    let event = run.events[i];
    assert(transition(run.stages[i], event, run.stages[i + 1], run.actions[i]));
    assert(run.stages[i + 1] is AwaitSwitch);
    if i + 1 < run.actions.len() {
        let after = run.events[i + 1];
        assert(transition(run.stages[i + 1], after, run.stages[i + 2], run.actions[i + 1]));
        nothing_follows_the_end(run, i + 1);
    }
}

/// An outcome says that the account was switched exactly if a switch was asked for
/// and its reply reports success. So no failure to identify the current account or
/// to get an answer ever leads to a switch.
pub proof fn triggered_means_switched(run: Run, i: int)
    requires
        run.valid(),
        0 <= i < run.actions.len(),
        run.actions[i] is Finish,
    ensures
        run.actions[i]->Finish_0.outcome.triggered <==> {
            &&& i > 0
            &&& run.actions[i - 1] is Switch
            &&& run.events[i] matches Event::Switched(Ok(reply))
            &&& member_bool(reply, "success"@) == Some(true)
        },
{
    let event = run.events[i];
    assert(transition(run.stages[i], event, run.stages[i + 1], run.actions[i]));
    if i > 0 {
        let earlier = run.events[i - 1];
        assert(transition(run.stages[i - 1], earlier, run.stages[i], run.actions[i - 1]));
    }
}

/// Whether an answer, at the stage that it comes in, says that something could not
/// be had or done.
pub open spec fn is_failure(stage: Stage, event: Event) -> bool {
    ||| is_store_failure(event)
    ||| is_current_failure(stage, event)
    ||| match event {
        Event::Token(answer) => answer is Err,
        Event::CandidateQuota(answer) => answer is Err,
        Event::Switched(answer) => answer is Err,
        _ => false,
    }
}

/// Whether an answer says that the settings or the accounts could not be read.
pub open spec fn is_store_failure(event: Event) -> bool {
    match event {
        Event::Settings(answer) => answer is Err,
        Event::Accounts(answer) => answer is Err,
        _ => false,
    }
}

/// Whether an answer says that the current account cannot be identified or its
/// quota cannot be had: the signed-in address is missing, empty or not to be read,
/// no account has it, the account has no token, or the quota service failed.
pub open spec fn is_current_failure(stage: Stage, event: Event) -> bool {
    match (stage, event) {
        (Stage::AwaitEmail(_), Event::Email(answer)) => !(answer matches Ok(Some(email))
            && email@.len() > 0),
        (Stage::AwaitAccounts(_, email), Event::Accounts(answer)) => answer matches Ok(accounts)
            && none_with(accounts@, email@),
        (Stage::AwaitToken(_), Event::Token(answer)) => !(answer matches Ok(token)
            && token@.len() > 0),
        (Stage::AwaitQuota(_), Event::Quota(answer)) => answer is Err,
        _ => false,
    }
}

/// Where the current account cannot be identified or its quota cannot be had, the
/// check ends with an outcome that says that nothing was switched and why; nothing
/// is logged or announced.
pub proof fn unidentified_account_is_not_switched(
    stage: Stage,
    event: Event,
    next: Stage,
    action: Action,
)
    requires
        transition(stage, event, next, action),
        is_current_failure(stage, event),
    ensures
        next is Done,
        action matches Action::Finish(ending) && {
            &&& !ending.outcome.triggered
            &&& ending.outcome.reason is Some
            &&& ending.log is None
            &&& !ending.announce
        },
{
}

/// No failure leads to a switch: what follows on it is another candidate, or the
/// end without one. An error ends a check exactly if the settings or the accounts
/// could not be read.
pub proof fn failure_does_not_switch(stage: Stage, event: Event, next: Stage, action: Action)
    requires
        transition(stage, event, next, action),
        is_failure(stage, event),
    ensures
        action is Fail <==> is_store_failure(event),
        match action {
            Action::Fail(_) => true,
            Action::Finish(ending) => !ending.outcome.triggered,
            Action::Authorize(_) => stage is AwaitCandidateToken || stage is AwaitCandidateQuota,
            _ => false,
        },
{
}

/// A check ends with an error only where the settings or the accounts could not be
/// read.
pub proof fn only_the_store_fails_a_check(stage: Stage, event: Event, next: Stage, action: Action)
    requires
        transition(stage, event, next, action),
        action is Fail,
    ensures
        is_store_failure(event),
{
}

/// Whether `known` is what the first three answers of a check amount to.
pub open spec fn is_known_from(run: Run, known: Known) -> bool {
    &&& is_set_by(run, known.policy)
    &&& run.events.len() > 2
    &&& run.events[1] == Event::Email(Ok(Some(known.email)))
    &&& run.events[2] == Event::Accounts(Ok(known.accounts))
    &&& is_current(known.accounts@, known.email@, known.current)
}

/// Whether `policy` is what the user has set, switching being turned on.
pub open spec fn is_set_by(run: Run, policy: Policy) -> bool {
    &&& run.events.len() > 0
    &&& run.events[0] matches Event::Settings(Ok(settings))
    &&& settings.auto_switch_enabled
    &&& policy.follows(settings)
}

/// Whether `current` is the account with the address `email`.
pub open spec fn is_current(accounts: Seq<Account>, email: Seq<char>, current: Account) -> bool {
    exists|k: int| #[trigger] first_with(accounts, email, k) && current == accounts[k]
}

/// Whether `case` is what the first five answers of a check amount to.
pub open spec fn is_found_in(run: Run, case: Exhausted) -> bool {
    &&& is_set_by(run, case.policy)
    &&& run.events.len() > 4
    &&& run.events[1] == Event::Email(Ok(Some(case.email)))
    &&& run.events[2] matches Event::Accounts(Ok(accounts))
    &&& is_current(accounts@, case.email@, case.current)
    &&& run.events[4] == Event::Quota(Ok((case.usage, case.remaining)))
}

/// All that a check knows comes from the answers that it got: its policy from the
/// settings, the current account from the signed-in address and the accounts, and
/// the usage from the quota service.
pub proof fn knowledge_comes_from_answers(run: Run, i: int)
    requires
        run.valid(),
        0 <= i < run.stages.len(),
    ensures
        match run.stages[i] {
            Stage::AwaitSettings => i == 0,
            Stage::AwaitEmail(policy) => i == 1 && is_set_by(run, policy),
            Stage::AwaitAccounts(policy, email) => {
                &&& i == 2
                &&& is_set_by(run, policy)
                &&& run.events[1] == Event::Email(Ok(Some(email)))
            },
            Stage::AwaitToken(known) => i == 3 && is_known_from(run, known),
            Stage::AwaitQuota(known) => i == 4 && is_known_from(run, known),
            Stage::AwaitRefresh(case) => is_found_in(run, case),
            Stage::AwaitReload(case) => is_found_in(run, case),
            Stage::AwaitCandidateToken(search, _) => is_found_in(run, search.case),
            Stage::AwaitCandidateQuota(search, _) => is_found_in(run, search.case),
            Stage::AwaitSwitch(case, _) => is_found_in(run, case),
            Stage::Done => true,
        },
    decreases i,
{
    if i > 0 {
        knowledge_comes_from_answers(run, i - 1);
        let event = run.events[i - 1];
        assert(run.stages[i - 1].accepts(event));
        assert(transition(run.stages[i - 1], event, run.stages[i], run.actions[i - 1]));
    }
}

/// Whether the accounts of a search are what the store gave after the refresh, at an
/// event before the stage `i`.
pub open spec fn is_searched_in(run: Run, search: Search, i: int) -> bool {
    exists|k: int|
        #![trigger run.events[k]]
        0 <= k < i && run.stages[k] == Stage::AwaitReload(search.case) && run.events[k]
            == Event::Accounts(Ok(search.accounts))
}

/// A search goes through the accounts as they were after the refresh, and the token
/// and the live quota that it waits for are those of its candidate.
pub proof fn search_follows_the_reload(run: Run, i: int)
    requires
        run.valid(),
        0 <= i < run.stages.len(),
    ensures
        match run.stages[i] {
            Stage::AwaitCandidateToken(search, candidate) => {
                &&& is_searched_in(run, search, i)
                &&& run.actions[i - 1] == Action::Authorize(candidate)
            },
            Stage::AwaitCandidateQuota(search, candidate) => {
                &&& is_searched_in(run, search, i)
                &&& run.stages[i - 1] == Stage::AwaitCandidateToken(search, candidate)
                &&& run.actions[i - 1] == Action::QueryCandidate(candidate)
            },
            _ => true,
        },
    decreases i,
{
    if i > 0 {
        search_follows_the_reload(run, i - 1);
        let event = run.events[i - 1];
        assert(run.stages[i - 1].accepts(event));
        assert(transition(run.stages[i - 1], event, run.stages[i], run.actions[i - 1]));
    }
}

/// Whether the refresh of the usable accounts was asked for: of those that the store
/// gave first, on the answer of the quota service, and unless there was none.
pub open spec fn refresh_is_asked(run: Run, current_id: u128) -> bool {
    &&& run.actions.len() > 4
    &&& run.events[2] matches Event::Accounts(Ok(first))
    &&& if usable_of(first@, current_id).len() == 0 {
        run.actions[4] == Action::LoadAccounts
    } else {
        &&& run.actions[4] matches Action::Refresh(accounts)
        &&& accounts@ == usable_of(first@, current_id)
    }
}

/// Whether the refresh, where one was asked for, is over.
pub open spec fn refresh_is_over(run: Run) -> bool {
    run.actions[4] is Refresh ==> run.events.len() > 5 && run.events[5] == Event::Refreshed
}

/// Before the accounts are read for the search, the refresh of all usable ones was
/// asked for and is over.
pub proof fn refresh_precedes_the_search(run: Run, i: int)
    requires
        run.valid(),
        0 <= i < run.stages.len(),
    ensures
        match run.stages[i] {
            Stage::AwaitRefresh(case) => {
                &&& i == 5
                &&& refresh_is_asked(run, case.current.id)
            },
            Stage::AwaitReload(case) => {
                &&& refresh_is_asked(run, case.current.id)
                &&& refresh_is_over(run)
            },
            Stage::AwaitCandidateToken(search, _) => {
                &&& refresh_is_asked(run, search.case.current.id)
                &&& refresh_is_over(run)
            },
            Stage::AwaitCandidateQuota(search, _) => {
                &&& refresh_is_asked(run, search.case.current.id)
                &&& refresh_is_over(run)
            },
            Stage::AwaitSwitch(case, _) => {
                &&& refresh_is_asked(run, case.current.id)
                &&& refresh_is_over(run)
            },
            _ => true,
        },
    decreases i,
{
    if i > 0 {
        refresh_precedes_the_search(run, i - 1);
        knowledge_comes_from_answers(run, i - 1);
        let event = run.events[i - 1];
        assert(run.stages[i - 1].accepts(event));
        assert(transition(run.stages[i - 1], event, run.stages[i], run.actions[i - 1]));
    }
}

/// A target that was usable when the accounts were first read was refreshed before
/// it was chosen. (One that was added or became usable after that read may be chosen
/// without a refresh.)
pub proof fn usable_target_was_refreshed(run: Run, i: int, j: int)
    requires
        run.valid(),
        0 <= i < run.actions.len(),
        run.actions[i] is Switch,
        run.events[2] matches Event::Accounts(Ok(first)) && {
            let search = run.stages[i]->AwaitCandidateQuota_0;
            let candidate = run.stages[i]->AwaitCandidateQuota_1;
            &&& 0 <= j < first@.len()
            &&& usable(first@[j], search.case.current.id)
            &&& first@[j].id == candidate.id
        },
    ensures
        run.actions[4] matches Action::Refresh(accounts) && accounts@.contains(
            run.events[2]->Accounts_0->Ok_0@[j],
        ),
        run.events[5] == Event::Refreshed,
        5 < i,
{
    every_switch_is_justified(run, i);
    refresh_precedes_the_search(run, i);
    search_follows_the_reload(run, i);
    let search = run.stages[i]->AwaitCandidateQuota_0;
    let id = search.case.current.id;
    let first = run.events[2]->Accounts_0->Ok_0@;
    let wanted = |acc: Account| usable(acc, id);
    assert(wanted(first[j]));
    first.lemma_filter_contains(wanted, j);
    assert(usable_of(first, id).contains(first[j]));
    lemma_search_is_late(run, i);
}

/// A search comes after the quota service's answer.
proof fn lemma_search_is_late(run: Run, i: int)
    requires
        run.valid(),
        0 <= i < run.stages.len(),
        run.stages[i] is AwaitCandidateToken || run.stages[i] is AwaitCandidateQuota,
    ensures
        i > 5,
{
    run_keeps_order(run, i);
    let event = run.events[i - 1];
    assert(transition(run.stages[i - 1], event, run.stages[i], run.actions[i - 1]));
    knowledge_comes_from_answers(run, i - 1);
}

/// Whenever a check asks for a switch, switching is turned on, the quota service
/// found the current account exhausted by the user's settings, and the target is
/// the one to take among the accounts as they were after the refresh: another
/// account, not barred, with a token, of which both the stored and the live quota
/// exceed the floor.
pub proof fn every_switch_is_justified(run: Run, i: int)
    requires
        run.valid(),
        0 <= i < run.actions.len(),
        run.actions[i] is Switch,
    ensures
        run.stages[i] is AwaitCandidateQuota,
        ({
            let search = run.stages[i]->AwaitCandidateQuota_0;
            let candidate = run.stages[i]->AwaitCandidateQuota_1;
            let case = search.case;
            &&& is_found_in(run, case)
            &&& is_searched_in(run, search, i)
            &&& search.proposes(candidate)
            &&& run.actions[i - 1] == Action::QueryCandidate(candidate)
            &&& case.policy.exhausted(case.usage as int, case.remaining as int)
            &&& candidate.id != case.current.id
            &&& !candidate.barred()
            &&& candidate.has_token()
            &&& candidate.quota.remaining_percent() > case.policy.remaining_threshold
            &&& run.events[i] matches Event::CandidateQuota(Ok((_, remaining)))
            &&& remaining > case.policy.remaining_threshold
            &&& run.actions[i]->Switch_0@ == hyphenated(candidate.id)
        }),
{
    run_keeps_order(run, i);
    knowledge_comes_from_answers(run, i);
    search_follows_the_reload(run, i);
    let event = run.events[i];
    assert(run.stages[i].accepts(event));
    switch_is_justified(run.stages[i], event, run.stages[i + 1], run.actions[i]);
}

/// Whenever a check asks for a switch, no account in the pool is preferred to the
/// target: under the default strategy none has more left, and under `round_robin`
/// the last login of none is older. Where the provider does not matter, the pool is
/// all eligible accounts.
pub proof fn every_switch_takes_the_best(run: Run, i: int, j: int)
    requires
        run.valid(),
        0 <= i < run.actions.len(),
        run.actions[i] is Switch,
        ({
            let search = run.stages[i]->AwaitCandidateQuota_0;
            let c = search.case.criteria(search.excluded@);
            &&& 0 <= j < search.accounts@.len()
            &&& c.in_pool(search.accounts@, search.accounts@[j])
        }),
    ensures
        run.stages[i] is AwaitCandidateQuota,
        ({
            let search = run.stages[i]->AwaitCandidateQuota_0;
            let candidate = run.stages[i]->AwaitCandidateQuota_1;
            let other = search.accounts@[j];
            if search.case.policy.strategy@ == ROUND_ROBIN@ {
                !older(other.last_login_at, candidate.last_login_at)
            } else {
                other.quota.remaining_percent() <= candidate.quota.remaining_percent()
            }
        }),
{
    every_switch_is_justified(run, i);
    let search = run.stages[i]->AwaitCandidateQuota_0;
    let candidate = run.stages[i]->AwaitCandidateQuota_1;
    let c = search.case.criteria(search.excluded@);
    let k = choose|k: int| #[trigger]
        c.takes(search.accounts@, k) && candidate == search.accounts@[k];
    assert(!preferred(search.accounts@[j], search.accounts@[k], c.strategy));
}

/// Whether the account `id` is ruled out at a stage, or is the one whose live quota
/// is awaited there.
spec fn dealt_with(stage: Stage, id: u128) -> bool {
    match stage {
        Stage::AwaitCandidateToken(search, _) => search.excluded@.contains(id),
        Stage::AwaitCandidateQuota(search, candidate) => search.excluded@.contains(id)
            || candidate.id == id,
        Stage::AwaitSwitch(_, _) => true,
        Stage::Done => true,
        _ => false,
    }
}

proof fn lemma_stays_dealt_with(run: Run, i: int, j: int, id: u128)
    requires
        run.valid(),
        0 <= i < j < run.stages.len(),
        run.stages[i] matches Stage::AwaitCandidateToken(_, candidate) && candidate.id == id,
    ensures
        dealt_with(run.stages[j], id),
    decreases j,
{
    let event = run.events[j - 1];
    assert(run.stages[j - 1].accepts(event));
    assert(transition(run.stages[j - 1], event, run.stages[j], run.actions[j - 1]));
    if j - 1 > i {
        lemma_stays_dealt_with(run, i, j - 1, id);
    }
}

/// No candidate is tried twice.
pub proof fn no_candidate_is_tried_twice(run: Run, i: int, j: int)
    requires
        run.valid(),
        0 <= i < j < run.stages.len(),
        run.stages[i] is AwaitCandidateToken,
        run.stages[j] is AwaitCandidateToken,
    ensures
        run.stages[i]->AwaitCandidateToken_1.id != run.stages[j]->AwaitCandidateToken_1.id,
{
    lemma_stays_dealt_with(run, i, j, run.stages[i]->AwaitCandidateToken_1.id);
    run_keeps_order(run, j);
    lemma_proposed_is_eligible(
        run.stages[j]->AwaitCandidateToken_0,
        run.stages[j]->AwaitCandidateToken_1,
    );
}

/// How many candidates were tried up to the stage `i`.
pub open spec fn tried(run: Run, i: int) -> nat {
    run.stages.take(i + 1).filter(|stage: Stage| stage is AwaitCandidateToken).len()
}

proof fn lemma_tried_grows(run: Run, i: int)
    requires
        run.stages.len() > 0,
        0 <= i < run.stages.len(),
    ensures
        tried(run, i) == (if i > 0 {
            tried(run, i - 1)
        } else {
            0
        }) + (if run.stages[i] is AwaitCandidateToken {
            1nat
        } else {
            0
        }),
{
    reveal(Seq::filter);
    let trial = |stage: Stage| stage is AwaitCandidateToken;
    assert(run.stages.take(i + 1).drop_last() =~= run.stages.take(i));
    assert(run.stages.take(i + 1).last() == run.stages[i]);
    assert(tried(run, i) == run.stages.take(i + 1).filter(trial).len());
    if i == 0 {
        assert(run.stages.take(0).filter(trial).len() == 0);
    } else {
        assert(tried(run, i - 1) == run.stages.take(i).filter(trial).len());
    }
}

/// The candidates that were tried are those that were ruled out and the present
/// one; before the search there are none.
pub proof fn tried_are_counted(run: Run, i: int)
    requires
        run.valid(),
        0 <= i < run.stages.len(),
    ensures
        match run.stages[i] {
            Stage::AwaitCandidateToken(search, _) => tried(run, i) == search.excluded@.len() + 1,
            Stage::AwaitCandidateQuota(search, _) => tried(run, i) == search.excluded@.len() + 1,
            Stage::AwaitSwitch(_, _) => true,
            Stage::Done => true,
            _ => tried(run, i) == 0,
        },
        tried(run, i) <= MAX_VERIFY_RETRIES,
    decreases i,
{
    lemma_tried_grows(run, i);
    run_keeps_order(run, i);
    if i > 0 {
        tried_are_counted(run, i - 1);
        run_keeps_order(run, i - 1);
        let event = run.events[i - 1];
        assert(run.stages[i - 1].accepts(event));
        assert(transition(run.stages[i - 1], event, run.stages[i], run.actions[i - 1]));
        match run.stages[i - 1] {
            Stage::AwaitCandidateToken(search, candidate) => {
                lemma_proposed_is_eligible(search, candidate);
            },
            Stage::AwaitCandidateQuota(search, candidate) => {
                lemma_proposed_is_eligible(search, candidate);
            },
            _ => {},
        }
    }
}

/// A check that gives up on its search says how many candidates it tried.
pub proof fn report_counts_the_tried(run: Run, i: int)
    requires
        run.valid(),
        0 <= i < run.actions.len(),
        run.actions[i] is Finish,
        run.stages[i] is AwaitReload || run.stages[i] is AwaitCandidateToken
            || run.stages[i] is AwaitCandidateQuota,
    ensures
        run.actions[i]->Finish_0.outcome.declines(none_serves(tried(run, i))),
{
    let event = run.events[i];
    assert(transition(run.stages[i], event, run.stages[i + 1], run.actions[i]));
    tried_are_counted(run, i);
    run_keeps_order(run, i);
    match run.stages[i] {
        Stage::AwaitCandidateToken(search, candidate) => {
            lemma_proposed_is_eligible(search, candidate);
        },
        Stage::AwaitCandidateQuota(search, candidate) => {
            lemma_proposed_is_eligible(search, candidate);
        },
        _ => {},
    }
}

} // verus!
