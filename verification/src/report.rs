//! What a check reports, and what it logs.
use vstd::prelude::*;

verus! {

/// The outcome of a check. Percentages run from 0 to 100 in both billing systems.
#[derive(Debug, Clone)]
pub struct AutoSwitchResult {
    /// Whether the account was switched.
    pub triggered: bool,
    /// Address of the current account, where it is known.
    pub current_email: Option<String>,
    /// Percentage of the current account's quota that is used.
    pub current_usage_percent: Option<i32>,
    /// Percentage of the current account's quota that is left.
    pub current_remaining: Option<i32>,
    /// Address of the account that was switched to.
    pub switched_to_email: Option<String>,
    /// Percentage of that account's quota that is left.
    pub switched_to_remaining: Option<i32>,
    /// Why the account was not switched.
    pub reason: Option<String>,
}

impl AutoSwitchResult {
    /// Whether the outcome says that nothing was switched, for the given reason.
    pub open spec fn declines(self, reason: Seq<char>) -> bool {
        &&& !self.triggered
        &&& self.switched_to_email is None
        &&& self.switched_to_remaining is None
        &&& self.reason matches Some(text)
        &&& text@ == reason
    }

    /// Whether the outcome tells nothing of the current account.
    pub open spec fn silent_on_current(self) -> bool {
        &&& self.current_email is None
        &&& self.current_usage_percent is None
        &&& self.current_remaining is None
    }

    /// Whether the outcome tells this of the current account.
    pub open spec fn tells(self, email: Seq<char>, usage: i32, remaining: i32) -> bool {
        &&& self.current_email matches Some(text)
        &&& text@ == email
        &&& self.current_usage_percent == Some(usage)
        &&& self.current_remaining == Some(remaining)
    }

    /// A check that stopped before it knew anything of the current account.
    pub fn skipped(reason: String) -> (r: Self)
        ensures
            r.declines(reason@),
            r.silent_on_current(),
    {
        AutoSwitchResult {
            triggered: false,
            current_email: None,
            current_usage_percent: None,
            current_remaining: None,
            switched_to_email: None,
            switched_to_remaining: None,
            reason: Some(reason),
        }
    }

    /// A check that knew the current account's state and did not switch.
    pub fn declined(email: String, usage: i32, remaining: i32, reason: String) -> (r: Self)
        ensures
            r.declines(reason@),
            r.tells(email@, usage, remaining),
    {
        AutoSwitchResult {
            triggered: false,
            current_email: Some(email),
            current_usage_percent: Some(usage),
            current_remaining: Some(remaining),
            switched_to_email: None,
            switched_to_remaining: None,
            reason: Some(reason),
        }
    }
}

/// An entry for the log of operations: a switch of accounts, done or failed.
#[derive(Debug)]
pub struct LogEntry {
    /// Whether the switch succeeded.
    pub succeeded: bool,
    pub message: String,
    /// The account that was to be switched to.
    pub account_id: u128,
    pub account_email: String,
}

impl LogEntry {
    /// Whether this is the entry with the given contents.
    pub open spec fn says(
        self,
        succeeded: bool,
        message: Seq<char>,
        account_id: u128,
        account_email: Seq<char>,
    ) -> bool {
        &&& self.succeeded == succeeded
        &&& self.message@ == message
        &&& self.account_id == account_id
        &&& self.account_email@ == account_email
    }
}

/// The form in which an outcome is handed to the front end.
#[derive(Clone, Copy, Debug, PartialEq, Eq, Structural)]
pub enum Form {
    /// All fields, those without a value included.
    Full,
    /// Without the two fields on the account that was switched to.
    WithoutTarget,
}

/// How a check ends: first the log entry is written, then the outcome is announced
/// where that is due, then it is returned.
#[derive(Debug)]
pub struct Ending {
    pub log: Option<LogEntry>,
    pub announce: bool,
    pub form: Form,
    pub outcome: AutoSwitchResult,
}

} // verus!
