//! The course of one check, as a machine that is fed with what the outside
//! answers and says what to do next.
//!
//! `begin` gives the first stage and action. After each action its answer goes to
//! `step` as an event, until the action is `Fail` or `Finish`:
//!
//! ```text
//! settings -> signed-in address -> accounts -> token -> quota of the current account
//!     -> refresh of the candidates -> accounts -> { token -> quota of a candidate }
//!     -> switch
//! ```
use crate::account::{Account, Quota};
use crate::report::Ending;
use crate::selection::{enough, is_enough, is_usable, usable, Criteria};
use std::collections::HashSet;
use vstd::prelude::*;

verus! {

/// How many candidates are asked for their quota at the same time.
pub const REFRESH_CONCURRENCY: usize = 5;

/// How many seconds a candidate has to answer for its quota.
pub const REFRESH_TIMEOUT_SECS: u64 = 8;

/// How many candidates may turn out not to serve before a check gives up.
pub const MAX_VERIFY_RETRIES: usize = 5;

/// What the user has set.
#[derive(Debug)]
pub struct Settings {
    pub auto_switch_enabled: bool,
    pub auto_switch_threshold_percent: i32,
    pub auto_switch_remaining_threshold: i32,
    pub auto_switch_strategy: String,
    pub auto_switch_prefer_same_provider: bool,
}

/// The settings that a check goes by, within their bounds.
#[derive(Debug)]
pub struct Policy {
    /// From this usage on the current account counts as exhausted.
    pub threshold_percent: i32,
    /// Only with no more than this left does it count as exhausted; zero lifts the
    /// condition. What is left of an account must exceed it for a switch to it.
    pub remaining_threshold: i32,
    pub strategy: String,
    pub prefer_same_provider: bool,
}

impl Policy {
    pub open spec fn wf(self) -> bool {
        &&& 1 <= self.threshold_percent <= 100
        &&& 0 <= self.remaining_threshold
    }

    /// Whether this is what `settings` ask for.
    pub open spec fn follows(self, settings: Settings) -> bool {
        let t = settings.auto_switch_threshold_percent;
        let f = settings.auto_switch_remaining_threshold;
        &&& self.threshold_percent == if t < 1 {
            1
        } else if t > 100 {
            100
        } else {
            t as int
        }
        &&& self.remaining_threshold == if f < 0 {
            0
        } else {
            f as int
        }
        &&& self.strategy == settings.auto_switch_strategy
        &&& self.prefer_same_provider == settings.auto_switch_prefer_same_provider
    }

    /// The policy that `settings` ask for.
    pub fn from_settings(settings: Settings) -> (r: Policy)
        ensures
            r.wf(),
            r.follows(settings),
    {
        let t: i32 = settings.auto_switch_threshold_percent;
        let f: i32 = settings.auto_switch_remaining_threshold;
        Policy {
            threshold_percent: if t < 1 {
                1
            } else if t > 100 {
                100
            } else {
                t
            },
            remaining_threshold: if f < 0 {
                0
            } else {
                f
            },
            strategy: settings.auto_switch_strategy,
            prefer_same_provider: settings.auto_switch_prefer_same_provider,
        }
    }

    /// Whether an account with this usage and this much left is exhausted.
    pub open spec fn exhausted(self, usage: int, remaining: int) -> bool {
        &&& usage >= self.threshold_percent
        &&& self.remaining_threshold == 0 || remaining <= self.remaining_threshold
    }

    /// Tells whether an account with this usage and this much left is exhausted.
    pub fn is_exhausted(&self, usage: i32, remaining: i32) -> (r: bool)
        ensures
            r == self.exhausted(usage as int, remaining as int),
    {
        usage >= self.threshold_percent && (self.remaining_threshold == 0 || remaining
            <= self.remaining_threshold)
    }
}

/// The signed-in account, found among all accounts.
#[derive(Debug)]
pub struct Known {
    pub policy: Policy,
    pub email: String,
    pub accounts: Vec<Account>,
    pub current: Account,
}

/// An exhausted account, with its live quota.
#[derive(Debug)]
pub struct Exhausted {
    pub policy: Policy,
    pub email: String,
    pub current: Account,
    pub usage: i32,
    pub remaining: i32,
}

impl Exhausted {
    pub open spec fn wf(self) -> bool {
        &&& self.policy.wf()
        &&& self.policy.exhausted(self.usage as int, self.remaining as int)
    }

    /// What the choice of a replacement goes by.
    pub open spec fn criteria(self, excluded: Set<u128>) -> Criteria {
        Criteria {
            current: self.current,
            prefer_same_provider: self.policy.prefer_same_provider,
            strategy: self.policy.strategy@,
            min_remaining_percent: self.policy.remaining_threshold as int,
            excluded,
        }
    }

    /// Whether what is left of every account that may come into question can be
    /// computed.
    pub open spec fn can_measure(self, accounts: Seq<Account>) -> bool {
        forall|i: int|
            0 <= i < accounts.len() && usable(#[trigger] accounts[i], self.current.id)
                ==> accounts[i].quota.measurable()
    }
}

/// The search for a replacement: the accounts, and those that turned out not to
/// serve.
#[derive(Debug)]
pub struct Search {
    pub case: Exhausted,
    pub accounts: Vec<Account>,
    pub excluded: HashSet<u128>,
}

impl Search {
    pub open spec fn wf(self) -> bool {
        &&& self.case.wf()
        &&& self.case.can_measure(self.accounts@)
        &&& self.excluded@.finite()
        &&& self.excluded@.len() < MAX_VERIFY_RETRIES
    }

    /// Whether `candidate` is the account to try now.
    pub open spec fn proposes(self, candidate: Account) -> bool {
        exists|i: int|
            #[trigger] self.case.criteria(self.excluded@).takes(self.accounts@, i) && candidate
                == self.accounts@[i]
    }
}

/// Where a check stands: what it waits for, and what it knows.
#[derive(Debug)]
pub enum Stage {
    AwaitSettings,
    AwaitEmail(Policy),
    AwaitAccounts(Policy, String),
    AwaitToken(Known),
    AwaitQuota(Known),
    AwaitRefresh(Exhausted),
    AwaitReload(Exhausted),
    AwaitCandidateToken(Search, Account),
    AwaitCandidateQuota(Search, Account),
    AwaitSwitch(Exhausted, Account),
    Done,
}

impl Stage {
    pub open spec fn wf(self) -> bool {
        match self {
            Stage::AwaitSettings => true,
            Stage::AwaitEmail(policy) => policy.wf(),
            Stage::AwaitAccounts(policy, _) => policy.wf(),
            Stage::AwaitToken(known) => known.policy.wf(),
            Stage::AwaitQuota(known) => known.policy.wf(),
            Stage::AwaitRefresh(case) => case.wf(),
            Stage::AwaitReload(case) => case.wf(),
            Stage::AwaitCandidateToken(search, candidate) => search.wf() && search.proposes(
                candidate,
            ),
            Stage::AwaitCandidateQuota(search, candidate) => search.wf() && search.proposes(
                candidate,
            ),
            Stage::AwaitSwitch(case, target) => {
                &&& case.wf()
                &&& usable(target, case.current.id)
                &&& target.quota.measurable()
            },
            Stage::Done => true,
        }
    }

    /// Whether `event` is what this stage waits for, with numbers that can be
    /// computed with.
    pub open spec fn accepts(self, event: Event) -> bool {
        match (self, event) {
            (Stage::AwaitSettings, Event::Settings(_)) => true,
            (Stage::AwaitEmail(_), Event::Email(_)) => true,
            (Stage::AwaitAccounts(_, _), Event::Accounts(_)) => true,
            (Stage::AwaitToken(_), Event::Token(_)) => true,
            (Stage::AwaitQuota(_), Event::Quota(_)) => true,
            (Stage::AwaitRefresh(_), Event::Refreshed) => true,
            (Stage::AwaitReload(case), Event::Accounts(answer)) => answer matches Ok(accounts)
                ==> case.can_measure(accounts@),
            (Stage::AwaitCandidateToken(_, _), Event::Token(_)) => true,
            (Stage::AwaitCandidateQuota(search, _), Event::CandidateQuota(answer)) =>
                answer matches Ok((quota, remaining)) ==> enough(
                remaining as int,
                search.case.policy.remaining_threshold as int,
            ) ==> quota.measurable(),
            (Stage::AwaitSwitch(_, _), Event::Switched(_)) => true,
            _ => false,
        }
    }

    /// Tells whether `event` is what this stage waits for, with numbers that can be
    /// computed with.
    pub fn is_expected(&self, event: &Event) -> (r: bool)
        ensures
            r == self.accepts(*event),
    {
        match (self, event) {
            (Stage::AwaitSettings, Event::Settings(_)) => true,
            (Stage::AwaitEmail(_), Event::Email(_)) => true,
            (Stage::AwaitAccounts(_, _), Event::Accounts(_)) => true,
            (Stage::AwaitToken(_), Event::Token(_)) => true,
            (Stage::AwaitQuota(_), Event::Quota(_)) => true,
            (Stage::AwaitRefresh(_), Event::Refreshed) => true,
            (Stage::AwaitReload(case), Event::Accounts(answer)) => match answer {
                Ok(accounts) => all_measurable(accounts.as_slice(), case.current.id),
                Err(_) => true,
            },
            (Stage::AwaitCandidateToken(_, _), Event::Token(_)) => true,
            (Stage::AwaitCandidateQuota(search, _), Event::CandidateQuota(answer)) => match answer {
                Ok((quota, remaining)) => !is_enough(
                    *remaining,
                    search.case.policy.remaining_threshold,
                ) || quota.is_measurable(),
                Err(_) => true,
            },
            (Stage::AwaitSwitch(_, _), Event::Switched(_)) => true,
            _ => false,
        }
    }
}

fn all_measurable(accounts: &[Account], current_id: u128) -> (r: bool)
    ensures
        r == forall|i: int|
            0 <= i < accounts@.len() && usable(#[trigger] accounts@[i], current_id)
                ==> accounts@[i].quota.measurable(),
{
    let mut i: usize = 0;
    while i < accounts.len()
        invariant
            i <= accounts@.len(),
            forall|j: int|
                0 <= j < i && usable(#[trigger] accounts@[j], current_id)
                    ==> accounts@[j].quota.measurable(),
        decreases accounts@.len() - i,
    {
        if is_usable(&accounts[i], current_id) && !accounts[i].quota.is_measurable() {
            assert(usable(accounts@[i as int], current_id));
            return false;
        }
        i = i + 1;
    }
    true
}

/// An answer from the outside.
#[derive(Debug)]
pub enum Event {
    /// The settings, or why they cannot be had.
    Settings(Result<Settings, String>),
    /// The signed-in address if there is one, or why that cannot be told.
    Email(Result<Option<String>, String>),
    /// All accounts, or why they cannot be had.
    Accounts(Result<Vec<Account>, String>),
    /// The token that authorises requests for an account, or why there is none.
    Token(Result<String, String>),
    /// Used and remaining percentage of the current account, or why they cannot be
    /// had.
    Quota(Result<(i32, i32), String>),
    /// The refresh of the candidates is over.
    Refreshed,
    /// A candidate's quota as it is stored now and its live remaining percentage,
    /// or why they cannot be had.
    CandidateQuota(Result<(Quota, i32), String>),
    /// The reply to the switch, or why it could not be carried out.
    Switched(Result<serde_json::Value, String>),
}

/// What is to be done next.
#[derive(Debug)]
pub enum Action {
    ReadSettings,
    DetectEmail,
    LoadAccounts,
    /// Get the token of an account.
    Authorize(Account),
    /// Ask for the current account's quota with the token just got.
    QueryQuota,
    /// Ask for the quota of each account, and store it.
    Refresh(Vec<Account>),
    /// Ask for the candidate's quota with the token just got, and store it.
    QueryCandidate(Account),
    /// Switch to the account with this UUID.
    Switch(String),
    /// End with an error.
    Fail(String),
    /// End with an outcome.
    Finish(Ending),
}

} // verus!
