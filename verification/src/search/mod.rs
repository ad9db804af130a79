//! Searches: in files, on the web, and in the structure of code.
pub mod federation;
pub mod outcome;
pub mod outline;
pub mod paths;
pub mod registry;
pub mod tgrep;
