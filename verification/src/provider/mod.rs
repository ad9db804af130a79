//! What providers are asked and what they answer.
pub mod event;
pub mod recorder;
pub mod retry;
