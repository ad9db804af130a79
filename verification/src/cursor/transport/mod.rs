//! How the editor's messages arrive.
pub mod inbox;
