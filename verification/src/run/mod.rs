//! Runs: model cycles, tool rounds and the messages they commit.
pub mod actor;
pub mod auto_compaction;
pub mod command;
pub mod compaction;
pub mod engine;
pub mod event;
pub mod images;
pub mod model_cycle;
pub mod registry;
pub mod tool_round;
