//! Pages on the web.
pub mod address;
pub mod fetch;
pub mod page;
pub mod url;
