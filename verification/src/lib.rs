//! The execution core for standard operating procedures (SOPs): named,
//! versioned lists of steps that an operator or a trigger starts and that an
//! agent carries out step by step.
//!
//! - [`types`] is the data model: procedures, events, runs, step results.
//! - [`engine`] holds the catalogue and the runs and makes every transition
//!   of a run; its states are proved well formed.
//! - [`tools`] are the four entry points of an operator. A tool call
//!   answers and says what is to follow: audit records and words to the
//!   metrics. Whoever holds the audit backend carries that out.
//! - [`audit`] makes the audit records and their keys.
//! - [`metrics`] counts approvals and ended runs, answers metric queries by
//!   dotted name, and is rebuilt from the audit records at a warm start.
//! - [`supervisor`], [`health`] and [`daemon`] are the restart policy of the
//!   components around the core and what is written of their health.
//! - [`clock`], [`calendar`], [`text`] and [`lookup`] are what the others
//!   share: timestamps, dates, numerals and lists of keys.
//!
//! Every function is verified against its contract, but for the few that
//! read the system clock or call `chrono` or `std::path`: those are trusted
//! and say so where they stand. Contracts speak of the view `@` of a value:
//! strings as sequences of characters, the engine and the aggregator as
//! plain records.

pub mod audit;
pub mod calendar;
pub mod clock;
pub mod daemon;
pub mod engine;
pub mod health;
pub mod lookup;
pub mod metrics;
pub mod supervisor;
pub mod text;
pub mod tools;
pub mod types;
