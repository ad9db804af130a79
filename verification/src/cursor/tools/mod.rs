//! Tool calls: how they are prepared, dispatched, followed and answered.
pub mod await_shell;
pub mod compat;
pub mod context;
pub mod dispatch;
pub mod edit;
pub mod gate;
pub mod gate_grep;
pub mod git_archaeology;
pub mod grep_engine;
pub mod grep_result;
pub mod inspect_changes;
pub mod mcp_result;
pub mod response;
pub mod runtime;
pub mod schedule;
pub mod truncation;
