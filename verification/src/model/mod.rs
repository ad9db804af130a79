//! Conversations, runs and model calls as the server sees them.
pub mod ids;
pub mod inference;
pub mod llm_call;
pub mod message;
pub mod projection;
pub mod run;
pub mod token_count;
pub mod tool;
pub mod usage;
