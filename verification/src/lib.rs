//! The decision logic of a server that lets an editor's agent run on models of the user's own
//! choosing: runs, provider cycles, tool calls, search, settings and their persistence rules.
pub mod collections;
pub mod cursor;
pub mod data;
pub mod digest;
pub mod error;
pub mod harness;
pub mod ident;
pub mod json;
pub mod model;
pub mod network;
pub mod pattern;
pub mod provider;
pub mod run;
pub mod search;
pub mod store;
pub mod text;
pub mod web;
