//! Decision core of a recursive web crawler.
//!
//! The crate models hosts and domain names, classifies how two hosts relate,
//! and holds the state machines that decide which pages a crawl fetches and
//! which hosts it takes on as new targets. It does no fetching and no
//! storing itself: it is told what happened and says what to do next. Every
//! function carries a contract that Verus proves.

pub mod crawler;
pub mod dns;
pub mod text;
pub mod web;
