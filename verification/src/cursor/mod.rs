//! The editor's protocol: its transport and its tools.
pub mod tools;
pub mod transport;
