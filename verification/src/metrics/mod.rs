//! The metrics aggregator: counters fed by approvals and ended runs, queried
//! by dotted metric name, and rebuilt from the audit log at start.

pub mod answers;
pub mod approvals;
pub mod collector;
pub mod counters;
pub mod laws;
pub mod model;
pub mod pending;
pub mod replay;
pub mod time;
pub mod warm;
