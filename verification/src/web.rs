//! Hosts on the web, their text forms, and the links that lead to them.

pub mod host;
pub mod ip_text;
pub mod link;
