//! Switching between accounts when the quota of the one in use runs out.
//!
//! A check reads the settings, finds the signed-in account, asks for its live quota
//! and, where that is exhausted, looks for another account to switch to. This
//! library makes the decisions; reading, asking and switching are left to its
//! caller. See `step` for where to begin.
pub mod account;
pub mod flow;
pub mod identity;
pub mod laws;
pub mod meaning;
pub mod outside;
pub mod promises;
pub mod reply;
pub mod report;
pub mod rounding;
pub mod runs;
pub mod selection;
pub mod step;
pub mod text;
