//! What the store keeps, and the rules by which it changes.
pub mod legacy_config;
pub mod llm_calls;
pub mod overview;
pub mod providers;
pub mod revisions;
pub mod settings;
